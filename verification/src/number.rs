//! Decimal numbers read from loosely formatted text: prices with a currency
//! sign and digit-group separators, distances with separators and a unit.
//!
//! A number is kept exactly, as a signed mantissa and a count of fraction
//! digits, so that no input is too large or too fine to be represented.

use vstd::prelude::*;
use vstd::slice::{slice_subrange, slice_to_vec};
use crate::text::{chars_of, lemma_strip_start_shape, lemma_without_concat,
    lemma_without_inserted, lemma_without_single, remove_class, strip_bounds, strip_end, strip_end_bound, strip_start,
    strip_start_bound, without, CharClass};

verus! {

/// Why a text could not be read as a number.
#[derive(Clone, Copy, Debug, PartialEq, Eq, Structural)]
pub enum FieldParseError {
    /// Nothing was left to read once signs, separators and units were taken
    /// away.
    Empty,
    /// What was left is not a decimal number.
    NotNumeric,
}

/// The value of a decimal number: `mantissa / 10^scale`.
pub struct DecimalView {
    pub mantissa: int,
    pub scale: nat,
}

/// Ten to the power `k`.
pub open spec fn pow10(k: nat) -> nat
    decreases k,
{
    if k == 0 {
        1
    } else {
        10 * pow10((k - 1) as nat)
    }
}

impl DecimalView {
    /// Whether the number is less than the integer `bound`.
    pub open spec fn below(self, bound: int) -> bool {
        self.mantissa < bound * pow10(self.scale)
    }
}

/// The value of the decimal digit `c`; `0` for any other character.
pub open spec fn digit_of(c: char) -> nat {
    if c == '1' {
        1
    } else if c == '2' {
        2
    } else if c == '3' {
        3
    } else if c == '4' {
        4
    } else if c == '5' {
        5
    } else if c == '6' {
        6
    } else if c == '7' {
        7
    } else if c == '8' {
        8
    } else if c == '9' {
        9
    } else {
        0
    }
}

/// The number that the digits `s` write in base ten, most significant first.
pub open spec fn digits_value(s: Seq<char>) -> nat
    decreases s.len(),
{
    if s.len() == 0 {
        0
    } else {
        digits_value(s.drop_last()) * 10 + digit_of(s.last())
    }
}

/// Whether every character of `s` is a decimal digit.
pub open spec fn all_digits(s: Seq<char>) -> bool {
    forall|i: int| 0 <= i < s.len() ==> CharClass::Digit.has(#[trigger] s[i])
}

/// `s` without a leading sign.
pub open spec fn unsigned(s: Seq<char>) -> Seq<char> {
    if s.len() > 0 && (s[0] == '-' || s[0] == '+') {
        s.drop_first()
    } else {
        s
    }
}

/// The digits of the integer part of the unsigned text `body`: its longest
/// prefix of digits.
pub open spec fn whole_digits(body: Seq<char>) -> Seq<char> {
    body.take(body.len() - strip_start(body, CharClass::Digit).len())
}

/// What follows the integer part of the unsigned text `body`.
pub open spec fn after_whole(body: Seq<char>) -> Seq<char> {
    strip_start(body, CharClass::Digit)
}

/// The fraction digits of the unsigned text `body`: what follows the
/// decimal point, if there is one.
pub open spec fn fraction_digits(body: Seq<char>) -> Seq<char> {
    if after_whole(body).len() > 0 {
        after_whole(body).drop_first()
    } else {
        after_whole(body)
    }
}

/// Whether the unsigned text `body` is a decimal number: digits, then
/// optionally a point and more digits, with at least one digit in all.
pub open spec fn is_decimal(body: Seq<char>) -> bool {
    &&& after_whole(body).len() > 0 ==> after_whole(body)[0] == '.'
    &&& all_digits(fraction_digits(body))
    &&& whole_digits(body).len() + fraction_digits(body).len() > 0
}

/// The number that `s` writes: an optional sign, then a decimal number.
pub open spec fn decimal_of(s: Seq<char>) -> Result<DecimalView, FieldParseError> {
    if s.len() == 0 {
        Err(FieldParseError::Empty)
    } else if !is_decimal(unsigned(s)) {
        Err(FieldParseError::NotNumeric)
    } else {
        let magnitude = digits_value(whole_digits(unsigned(s)) + fraction_digits(unsigned(s)));
        Ok(
            DecimalView {
                mantissa: if s[0] == '-' {
                    -(magnitude as int)
                } else {
                    magnitude as int
                },
                scale: fraction_digits(unsigned(s)).len(),
            },
        )
    }
}

/// The number that a raw price writes: the text cleared of currency signs
/// and digit-group separators, read as a decimal.
pub open spec fn currency_of(raw: Seq<char>) -> Result<DecimalView, FieldParseError> {
    decimal_of(without(raw, CharClass::Currency))
}

/// A raw distance cleared of digit-group separators, of the white space
/// around it, and of the unit that follows the number.
pub open spec fn distance_text(raw: Seq<char>) -> Seq<char> {
    let bare = without(raw, CharClass::Grouping);
    let inner = strip_end(strip_start(bare, CharClass::Space), CharClass::Space);
    strip_end(strip_end(inner, CharClass::Letter), CharClass::Space)
}

/// The number that a raw distance writes.
pub open spec fn distance_of(raw: Seq<char>) -> Result<DecimalView, FieldParseError> {
    decimal_of(distance_text(raw))
}

/// A prefix of a digit string writes no more than the whole string.
pub proof fn lemma_prefix_value(s: Seq<char>, n: int)
    requires
        0 <= n <= s.len(),
    ensures
        digits_value(s.take(n)) <= digits_value(s),
    decreases s.len() - n,
{
    if n == s.len() {
        assert(s.take(n) == s);
    } else {
        lemma_prefix_value(s, n + 1);
        assert(s.take(n + 1).drop_last() == s.take(n));
    }
}

/// The digits `w` followed by the digits `f` write `w` shifted left by the
/// length of `f`, plus `f`; and `f` alone writes less than that shift.
pub proof fn lemma_value_concat(w: Seq<char>, f: Seq<char>)
    ensures
        digits_value(w + f) == digits_value(w) * pow10(f.len()) + digits_value(f),
        digits_value(f) < pow10(f.len()),
    decreases f.len(),
{
    if f.len() == 0 {
        assert(w + f == w);
        assert(pow10(f.len()) == 1);
        assert(digits_value(f) == 0);
    } else {
        let g = f.drop_last();
        lemma_value_concat(w, g);
        assert((w + f).drop_last() == w + g);
        assert((w + f).last() == f.last());
        let a = digits_value(w) as int;
        let b = digits_value(g) as int;
        let d = digit_of(f.last()) as int;
        let p = pow10(g.len()) as int;
        assert(pow10(f.len()) == 10 * p);
        assert(digits_value(f) == b * 10 + d);
        assert(digits_value(w + f) == (a * p + b) * 10 + d);
        assert((a * p + b) * 10 == a * (10 * p) + b * 10) by (nonlinear_arith);
        assert(b * 10 + d < 10 * p) by (nonlinear_arith)
            requires
                b < p,
                d <= 9,
        ;
    }
}

/// A number with `scale` fraction digits is below an integer bound exactly
/// when its integer part is.
pub proof fn lemma_below_by_whole(whole: nat, fraction: nat, scale: nat, bound: int)
    requires
        fraction < pow10(scale),
    ensures
        (whole * pow10(scale) + fraction < bound * pow10(scale)) <==> whole < bound,
{
    let p = pow10(scale) as int;
    if whole < bound {
        assert((whole + 1) * p <= bound * p) by (nonlinear_arith)
            requires
                whole + 1 <= bound,
                p >= 0,
        ;
        assert((whole + 1) * p == whole * p + p) by (nonlinear_arith);
    } else {
        assert(whole * p >= bound * p) by (nonlinear_arith)
            requires
                whole >= bound,
                p >= 0,
        ;
    }
}

/// A text of digits only, and at least one, reads as the number that the
/// digits write.
pub proof fn lemma_digits_read_as_value(s: Seq<char>)
    requires
        s.len() > 0,
        all_digits(s),
    ensures
        decimal_of(s) == Ok::<DecimalView, FieldParseError>(
            DecimalView { mantissa: digits_value(s) as int, scale: 0 },
        ),
{
    let k = lemma_strip_start_shape(s, CharClass::Digit);
    assert(CharClass::Digit.has(s[0]));
    assert(unsigned(s) == s);
    if k < s.len() {
        assert(CharClass::Digit.has(s[k]));
    }
    assert(after_whole(s) == Seq::<char>::empty());
    assert(whole_digits(s) == s);
    assert(fraction_digits(s) == Seq::<char>::empty());
    assert(s + Seq::<char>::empty() == s);
}

/// A text that holds, after an optional leading sign, a character that is
/// neither a digit nor a point does not read as a number.
pub proof fn lemma_stray_character_fails(s: Seq<char>, i: int)
    requires
        0 <= i < s.len(),
        !CharClass::Digit.has(s[i]),
        s[i] != '.',
        i == 0 ==> s[0] != '-' && s[0] != '+',
    ensures
        decimal_of(s) == Err::<DecimalView, FieldParseError>(FieldParseError::NotNumeric),
{
    let body = unsigned(s);
    let j = if body.len() == s.len() {
        i
    } else {
        i - 1
    };
    assert(body[j] == s[i]);
    let k = lemma_strip_start_shape(body, CharClass::Digit);
    if k > j {
        assert(CharClass::Digit.has(body[j]));
    } else if k == j {
        assert(after_whole(body)[0] == body[j]);
    } else {
        assert(fraction_digits(body) == body.skip(k + 1));
        assert(fraction_digits(body)[j - k - 1] == body[j]);
    }
}

/// A raw price whose characters, apart from currency signs and digit-group
/// separators, are digits, and at least one, reads as the number that
/// those digits write.
pub proof fn lemma_price_reads_as_digits(raw: Seq<char>)
    requires
        without(raw, CharClass::Currency).len() > 0,
        all_digits(without(raw, CharClass::Currency)),
    ensures
        currency_of(raw) == Ok::<DecimalView, FieldParseError>(
            DecimalView {
                mantissa: digits_value(without(raw, CharClass::Currency)) as int,
                scale: 0,
            },
        ),
{
    lemma_digits_read_as_value(without(raw, CharClass::Currency));
}

/// A currency sign or digit-group separator, put anywhere into a raw
/// price, does not change what the price reads as.
pub proof fn lemma_price_ignores_marks(raw: Seq<char>, i: int, mark: char)
    requires
        0 <= i <= raw.len(),
        mark == '$' || mark == ',',
    ensures
        currency_of(raw.insert(i, mark)) == currency_of(raw),
{
    lemma_without_inserted(raw, i, mark, CharClass::Currency);
}

/// A raw price that holds a character other than digits, points, signs,
/// currency signs and digit-group separators does not read as a number.
pub proof fn lemma_worded_price_fails(raw: Seq<char>, i: int)
    requires
        0 <= i < raw.len(),
        !CharClass::Digit.has(raw[i]),
        !CharClass::Currency.has(raw[i]),
        raw[i] != '.' && raw[i] != '-' && raw[i] != '+',
    ensures
        currency_of(raw) == Err::<DecimalView, FieldParseError>(FieldParseError::NotNumeric),
{
    let a = raw.take(i);
    let b = raw.skip(i + 1);
    let c = raw[i];
    assert(raw == (a + seq![c]) + b);
    lemma_without_concat(a + seq![c], b, CharClass::Currency);
    lemma_without_concat(a, seq![c], CharClass::Currency);
    lemma_without_single(c, CharClass::Currency);
    let bare = without(raw, CharClass::Currency);
    let at = without(a, CharClass::Currency).len() as int;
    assert(bare == (without(a, CharClass::Currency) + seq![c]) + without(
        b,
        CharClass::Currency,
    ));
    assert(bare[at] == c);
    lemma_stray_character_fails(bare, at);
}

/// A raw distance that is, apart from digit-group separators, white space
/// around it and a unit of letters after it, made of digits, and of at
/// least one, reads as the number that those digits write.
pub proof fn lemma_distance_reads_as_digits(raw: Seq<char>)
    requires
        distance_text(raw).len() > 0,
        all_digits(distance_text(raw)),
    ensures
        distance_of(raw) == Ok::<DecimalView, FieldParseError>(
            DecimalView { mantissa: digits_value(distance_text(raw)) as int, scale: 0 },
        ),
{
    lemma_digits_read_as_value(distance_text(raw));
}

/// A digit-group separator, put anywhere into a raw distance, does not
/// change what the distance reads as.
pub proof fn lemma_distance_ignores_separators(raw: Seq<char>, i: int)
    requires
        0 <= i <= raw.len(),
    ensures
        distance_of(raw.insert(i, ',')) == distance_of(raw),
{
    lemma_without_inserted(raw, i, ',', CharClass::Grouping);
}

/// A decimal number, kept exactly.
#[derive(Clone, Debug)]
pub struct Decimal {
    negative: bool,
    /// The digits of the integer part.
    whole: Vec<char>,
    /// The digits of the fraction.
    fraction: Vec<char>,
}

impl View for Decimal {
    type V = DecimalView;

    closed spec fn view(&self) -> DecimalView {
        DecimalView {
            mantissa: if self.negative {
                -(digits_value(self.whole@ + self.fraction@) as int)
            } else {
                digits_value(self.whole@ + self.fraction@) as int
            },
            scale: self.fraction@.len(),
        }
    }
}

impl Decimal {
    /// Whether the number is less than `bound`.
    pub fn is_below(&self, bound: u64) -> (r: bool)
        ensures
            r == self@.below(bound as int),
    {
        let ghost shift = pow10(self.fraction@.len());
        proof {
            lemma_value_concat(self.whole@, self.fraction@);
            lemma_below_by_whole(
                digits_value(self.whole@),
                digits_value(self.fraction@),
                self.fraction@.len(),
                bound as int,
            );
            assert(0 <= bound * shift) by (nonlinear_arith)
                requires
                    bound >= 0,
                    shift >= 0,
            ;
            assert(self.whole@.take(self.whole@.len() as int) == self.whole@);
        }
        if self.is_negative() {
            true
        } else {
            match small_value(self.whole.as_slice(), self.whole.len()) {
                Some(whole) => whole < bound,
                None => false,
            }
        }
    }

    /// Whether the number is less than zero.
    pub fn is_negative(&self) -> (r: bool)
        ensures
            r == (self@.mantissa < 0),
    {
        if !self.negative {
            return false;
        }
        let ghost shift = pow10(self.fraction@.len());
        proof {
            lemma_value_concat(self.whole@, self.fraction@);
        }
        let nothing = is_zero(self.whole.as_slice()) && is_zero(self.fraction.as_slice());
        proof {
            let whole = digits_value(self.whole@);
            let fraction = digits_value(self.fraction@);
            if nothing {
                assert(whole * shift + fraction == 0) by (nonlinear_arith)
                    requires
                        whole == 0,
                        fraction == 0,
                ;
            } else {
                assert(whole * shift + fraction > 0) by (nonlinear_arith)
                    requires
                        whole > 0 || fraction > 0,
                        shift > 0,
                ;
            }
        }
        !nothing
    }

    /// The number of fraction digits.
    pub fn scale(&self) -> (k: usize)
        ensures
            k == self@.scale,
    {
        self.fraction.len()
    }

    /// The integer part of the magnitude, where it fits the machine integer.
    pub fn whole_part(&self) -> (w: Option<u64>)
        ensures
            match w {
                Some(v) => v * pow10(self@.scale) <= abs(self@.mantissa) < (v + 1) * pow10(
                    self@.scale,
                ),
                None => abs(self@.mantissa) >= (u64::MAX + 1) * pow10(self@.scale),
            },
    {
        let ghost shift = pow10(self.fraction@.len());
        proof {
            lemma_value_concat(self.whole@, self.fraction@);
            assert(self.whole@.take(self.whole@.len() as int) == self.whole@);
        }
        let w = small_value(self.whole.as_slice(), self.whole.len());
        proof {
            let whole = digits_value(self.whole@);
            assert((whole + 1) * shift == whole * shift + shift) by (nonlinear_arith);
            if w is None {
                assert(whole * shift >= (u64::MAX + 1) * shift) by (nonlinear_arith)
                    requires
                        whole >= u64::MAX + 1,
                        shift >= 0,
                ;
            }
        }
        w
    }

    /// The fraction digits as a number, where it fits the machine integer.
    pub fn fraction_part(&self) -> (f: Option<u64>)
        ensures
            match f {
                Some(v) => v == abs(self@.mantissa) % (pow10(self@.scale) as int),
                None => abs(self@.mantissa) % (pow10(self@.scale) as int) > u64::MAX,
            },
    {
        let ghost shift = pow10(self.fraction@.len()) as int;
        proof {
            lemma_value_concat(self.whole@, self.fraction@);
            assert(self.fraction@.take(self.fraction@.len() as int) == self.fraction@);
            vstd::arithmetic::div_mod::lemma_fundamental_div_mod_converse(
                digits_value(self.whole@ + self.fraction@) as int,
                shift,
                digits_value(self.whole@) as int,
                digits_value(self.fraction@) as int,
            );
        }
        small_value(self.fraction.as_slice(), self.fraction.len())
    }
}

/// The magnitude of an integer.
pub open spec fn abs(x: int) -> int {
    if x < 0 {
        -x
    } else {
        x
    }
}

/// The value of what reading a number gave.
pub open spec fn read_view(r: Result<Decimal, FieldParseError>) -> Result<
    DecimalView,
    FieldParseError,
> {
    match r {
        Ok(d) => Ok(d@),
        Err(e) => Err(e),
    }
}

/// The value of the decimal digit `c`, if it is one.
pub fn digit(c: char) -> (d: Option<u64>)
    ensures
        d is Some == CharClass::Digit.has(c),
        d matches Some(v) ==> v == digit_of(c) && v <= 9,
        d is None ==> digit_of(c) == 0,
{
    if c == '0' {
        Some(0)
    } else if c == '1' {
        Some(1)
    } else if c == '2' {
        Some(2)
    } else if c == '3' {
        Some(3)
    } else if c == '4' {
        Some(4)
    } else if c == '5' {
        Some(5)
    } else if c == '6' {
        Some(6)
    } else if c == '7' {
        Some(7)
    } else if c == '8' {
        Some(8)
    } else if c == '9' {
        Some(9)
    } else {
        None
    }
}

/// Whether the text writes zero: no character of it has a digit value above
/// zero.
pub fn is_zero(text: &[char]) -> (r: bool)
    ensures
        r == (digits_value(text@) == 0),
{
    let mut i: usize = 0;
    while i < text.len()
        invariant
            i <= text.len(),
            digits_value(text@.take(i as int)) == 0,
        decreases text.len() - i,
    {
        proof {
            assert(text@.take(i + 1).drop_last() == text@.take(i as int));
            lemma_prefix_value(text@, i + 1);
        }
        match digit(text[i]) {
            Some(d) => {
                if d != 0 {
                    return false;
                }
            },
            None => {},
        }
        i += 1;
    }
    assert(text@.take(text.len() as int) == text@);
    true
}

/// The number that the first `n` characters of `text` write, where it fits
/// the machine integer.
pub fn small_value(text: &[char], n: usize) -> (r: Option<u64>)
    requires
        n <= text.len(),
    ensures
        match r {
            Some(v) => v == digits_value(text@.take(n as int)),
            None => digits_value(text@.take(n as int)) > u64::MAX,
        },
{
    let mut acc: u64 = 0;
    let mut i: usize = 0;
    while i < n
        invariant
            i <= n <= text.len(),
            acc == digits_value(text@.take(i as int)),
        decreases n - i,
    {
        proof {
            assert(text@.take(i + 1).drop_last() == text@.take(i as int));
            assert(text@.take(n as int).take(i + 1) == text@.take(i + 1));
            lemma_prefix_value(text@.take(n as int), i + 1);
        }
        let d: u64 = match digit(text[i]) {
            Some(d) => d,
            None => 0,
        };
        if acc > (u64::MAX - d) / 10 {
            return None;
        }
        acc = acc * 10 + d;
        i += 1;
    }
    Some(acc)
}

/// Whether every character of `text` is a decimal digit.
pub fn only_digits(text: &[char]) -> (r: bool)
    ensures
        r == all_digits(text@),
{
    let mut i: usize = 0;
    while i < text.len()
        invariant
            i <= text.len(),
            all_digits(text@.take(i as int)),
        decreases text.len() - i,
    {
        if !CharClass::Digit.contains(text[i]) {
            return false;
        }
        assert forall|j: int| 0 <= j < i + 1 implies CharClass::Digit.has(
            #[trigger] text@.take(i + 1)[j],
        ) by {
            if j < i {
                assert(text@.take(i as int)[j] == text@[j]);
            }
        }
        i += 1;
    }
    assert(text@.take(text.len() as int) == text@);
    true
}

/// Reads `text` as a decimal number: an optional sign, digits, and
/// optionally a point and more digits, with at least one digit in all.
pub fn parse_decimal(text: &[char]) -> (r: Result<Decimal, FieldParseError>)
    ensures
        read_view(r) == decimal_of(text@),
{
    let n = text.len();
    if n == 0 {
        return Err(FieldParseError::Empty);
    }
    let negative = text[0] == '-';
    let start: usize = if text[0] == '-' || text[0] == '+' {
        1
    } else {
        0
    };
    let body = slice_subrange(text, start, n);
    assert(body@ == unsigned(text@));
    let point = strip_start_bound(body, CharClass::Digit);
    assert(after_whole(body@) == body@.skip(point as int));
    assert(whole_digits(body@) == body@.take(point as int));
    if point < body.len() && body[point] != '.' {
        return Err(FieldParseError::NotNumeric);
    }
    let after: usize = if point < body.len() {
        point + 1
    } else {
        point
    };
    let whole = slice_subrange(body, 0, point);
    let fraction = slice_subrange(body, after, body.len());
    assert(fraction@ == fraction_digits(body@));
    if !only_digits(fraction) || (whole.len() == 0 && fraction.len() == 0) {
        return Err(FieldParseError::NotNumeric);
    }
    Ok(Decimal { negative, whole: slice_to_vec(whole), fraction: slice_to_vec(fraction) })
}

/// Reads a raw price: currency signs and digit-group separators are taken
/// out, and what remains is read as a decimal number.
pub fn normalize_currency(raw: &str) -> (r: Result<Decimal, FieldParseError>)
    ensures
        read_view(r) == currency_of(raw@),
{
    let chars = chars_of(raw);
    let bare = remove_class(chars.as_slice(), CharClass::Currency);
    parse_decimal(bare.as_slice())
}

/// Reads a raw distance: digit-group separators, surrounding white space
/// and the unit after the number are taken out, and what remains is read as
/// a decimal number.
pub fn normalize_distance(raw: &str) -> (r: Result<Decimal, FieldParseError>)
    ensures
        read_view(r) == distance_of(raw@),
{
    let chars = chars_of(raw);
    let bare = remove_class(chars.as_slice(), CharClass::Grouping);
    let (from, to) = strip_bounds(bare.as_slice(), CharClass::Space);
    let cut = strip_end_bound(bare.as_slice(), from, to, CharClass::Letter);
    let end = strip_end_bound(bare.as_slice(), from, cut, CharClass::Space);
    parse_decimal(slice_subrange(bare.as_slice(), from, end))
}

} // verus!
