//! Character-level text operations: classes of characters, trimming,
//! removal of characters and search for a phrase.
//!
//! Every operation is stated over `Seq<char>`, the view of `str` and `String`.

use vstd::prelude::*;
use vstd::std_specs::iter::IteratorSpec;
use vstd::string::StrSliceExecFns;

verus! {

/// A class of characters that text is trimmed by or cleared of.
#[derive(Clone, Copy, Debug, PartialEq, Eq, Structural)]
pub enum CharClass {
    /// Unicode white space.
    Space,
    /// The ASCII letters, of which unit suffixes such as `km` are made.
    Letter,
    /// The decimal digits.
    Digit,
    /// The digit-group separator `,`.
    Grouping,
    /// What surrounds the digits of a price: the currency sign `$` and the
    /// digit-group separator `,`.
    Currency,
}

/// Unicode white space: the characters with the `White_Space` property.
pub open spec fn is_space(c: char) -> bool {
    ||| '\u{9}' <= c <= '\u{d}'
    ||| c == ' '
    ||| c == '\u{85}'
    ||| c == '\u{a0}'
    ||| c == '\u{1680}'
    ||| '\u{2000}' <= c <= '\u{200a}'
    ||| c == '\u{2028}'
    ||| c == '\u{2029}'
    ||| c == '\u{202f}'
    ||| c == '\u{205f}'
    ||| c == '\u{3000}'
}

/// An ASCII letter.
pub open spec fn is_letter(c: char) -> bool {
    ('a' <= c <= 'z') || ('A' <= c <= 'Z')
}

impl CharClass {
    /// Whether `c` belongs to the class.
    pub open spec fn has(self, c: char) -> bool {
        match self {
            CharClass::Space => is_space(c),
            CharClass::Letter => is_letter(c),
            CharClass::Digit => '0' <= c <= '9',
            CharClass::Grouping => c == ',',
            CharClass::Currency => c == '$' || c == ',',
        }
    }

    /// Decides membership of `c` in the class.
    pub fn contains(self, c: char) -> (b: bool)
        ensures
            b == self.has(c),
    {
        match self {
            CharClass::Space => {
                ('\u{9}' <= c && c <= '\u{d}') || c == ' ' || c == '\u{85}' || c == '\u{a0}'
                    || c == '\u{1680}' || ('\u{2000}' <= c && c <= '\u{200a}') || c == '\u{2028}'
                    || c == '\u{2029}' || c == '\u{202f}' || c == '\u{205f}' || c == '\u{3000}'
            },
            CharClass::Letter => ('a' <= c && c <= 'z') || ('A' <= c && c <= 'Z'),
            CharClass::Digit => '0' <= c && c <= '9',
            CharClass::Grouping => c == ',',
            CharClass::Currency => c == '$' || c == ',',
        }
    }
}

/// `s` without its longest prefix of characters in `class`.
pub open spec fn strip_start(s: Seq<char>, class: CharClass) -> Seq<char>
    decreases s.len(),
{
    if s.len() > 0 && class.has(s[0]) {
        strip_start(s.drop_first(), class)
    } else {
        s
    }
}

/// `s` without its longest suffix of characters in `class`.
pub open spec fn strip_end(s: Seq<char>, class: CharClass) -> Seq<char>
    decreases s.len(),
{
    if s.len() > 0 && class.has(s.last()) {
        strip_end(s.drop_last(), class)
    } else {
        s
    }
}

/// `s` without white space at either end.
pub open spec fn trimmed(s: Seq<char>) -> Seq<char> {
    strip_end(strip_start(s, CharClass::Space), CharClass::Space)
}

/// `s` without any character of `class`, the others in their order.
pub open spec fn without(s: Seq<char>, class: CharClass) -> Seq<char>
    decreases s.len(),
{
    if s.len() == 0 {
        s
    } else if class.has(s.last()) {
        without(s.drop_last(), class)
    } else {
        without(s.drop_last(), class).push(s.last())
    }
}

/// Whether `phrase` stands in `text` at position `i`.
pub open spec fn occurs_at(text: Seq<char>, phrase: Seq<char>, i: int) -> bool {
    &&& 0 <= i
    &&& i + phrase.len() <= text.len()
    &&& text.subrange(i, i + phrase.len()) == phrase
}

/// Whether `phrase` stands somewhere in `text`.
pub open spec fn contains_phrase(text: Seq<char>, phrase: Seq<char>) -> bool {
    exists|i: int| occurs_at(text, phrase, i)
}

/// Whether `i` is the position of the first occurrence of `phrase` in `text`.
pub open spec fn is_first_occurrence(text: Seq<char>, phrase: Seq<char>, i: int) -> bool {
    &&& occurs_at(text, phrase, i)
    &&& forall|j: int| 0 <= j < i ==> !occurs_at(text, phrase, j)
}

/// The position of the first occurrence of `phrase` in `text`, if there is one.
pub open spec fn first_occurrence(text: Seq<char>, phrase: Seq<char>) -> Option<int> {
    if contains_phrase(text, phrase) {
        Some(choose|i: int| is_first_occurrence(text, phrase, i))
    } else {
        None
    }
}

/// What follows the first occurrence of `phrase` in `text`, if there is one.
pub open spec fn text_after(text: Seq<char>, phrase: Seq<char>) -> Option<Seq<char>> {
    match first_occurrence(text, phrase) {
        Some(i) => Some(text.skip(i + phrase.len())),
        None => None,
    }
}

/// A first occurrence is the only one: it fixes `first_occurrence`.
pub proof fn lemma_first_occurrence_is(text: Seq<char>, phrase: Seq<char>, i: int)
    requires
        is_first_occurrence(text, phrase, i),
    ensures
        first_occurrence(text, phrase) == Some(i),
{
    let c = choose|c: int| is_first_occurrence(text, phrase, c);
    assert(is_first_occurrence(text, phrase, c));
    assert(!(c < i));
    assert(!(i < c));
}

/// Where no position holds the phrase, there is no first occurrence.
pub proof fn lemma_no_occurrence(text: Seq<char>, phrase: Seq<char>)
    requires
        forall|j: int| 0 <= j && j + phrase.len() <= text.len() ==> !occurs_at(text, phrase, j),
    ensures
        first_occurrence(text, phrase) is None,
        !contains_phrase(text, phrase),
{
}

/// What `strip_start` takes away is a run of characters of the class, and
/// what it leaves does not begin with one: it leaves `s` from position `k`
/// on, where `k` is the length of that run.
pub proof fn lemma_strip_start_shape(s: Seq<char>, class: CharClass) -> (k: int)
    ensures
        0 <= k <= s.len(),
        strip_start(s, class) == s.skip(k),
        forall|i: int| 0 <= i < k ==> class.has(#[trigger] s[i]),
        k < s.len() ==> !class.has(s[k]),
    decreases s.len(),
{
    if s.len() > 0 && class.has(s[0]) {
        let j = lemma_strip_start_shape(s.drop_first(), class);
        assert(s.drop_first().skip(j) == s.skip(j + 1));
        assert forall|i: int| 0 <= i < j + 1 implies class.has(#[trigger] s[i]) by {
            if i > 0 {
                assert(s[i] == s.drop_first()[i - 1]);
            }
        }
        if j + 1 < s.len() {
            assert(s[j + 1] == s.drop_first()[j]);
        }
        j + 1
    } else {
        assert(s.skip(0) == s);
        0
    }
}

/// A single character stays when a text is cleared of a class exactly when
/// it is not of the class.
pub proof fn lemma_without_single(c: char, class: CharClass)
    ensures
        without(seq![c], class) == if class.has(c) {
            Seq::<char>::empty()
        } else {
            seq![c]
        },
{
    let s = seq![c];
    assert(s.drop_last() == Seq::<char>::empty());
    assert(without(s.drop_last(), class) == Seq::<char>::empty());
    assert(s.last() == c);
    assert(Seq::<char>::empty().push(c) == seq![c]);
}

/// Clearing a text of a class goes through concatenation.
pub proof fn lemma_without_concat(a: Seq<char>, b: Seq<char>, class: CharClass)
    ensures
        without(a + b, class) == without(a, class) + without(b, class),
    decreases b.len(),
{
    if b.len() == 0 {
        assert(a + b == a);
        assert(without(a, class) + without(b, class) == without(a, class));
    } else {
        lemma_without_concat(a, b.drop_last(), class);
        assert((a + b).drop_last() == a + b.drop_last());
        assert((a + b).last() == b.last());
        if !class.has(b.last()) {
            assert((without(a, class) + without(b.drop_last(), class)).push(b.last())
                == without(a, class) + without(b.drop_last(), class).push(b.last()));
        }
    }
}

/// A character of the class, put anywhere into a text, is gone once the
/// text is cleared of the class.
pub proof fn lemma_without_inserted(s: Seq<char>, i: int, c: char, class: CharClass)
    requires
        0 <= i <= s.len(),
        class.has(c),
    ensures
        without(s.insert(i, c), class) == without(s, class),
{
    let a = s.take(i);
    let b = s.skip(i);
    assert(s.insert(i, c) == (a + seq![c]) + b);
    assert(s == a + b);
    lemma_without_concat(a + seq![c], b, class);
    lemma_without_concat(a, seq![c], class);
    lemma_without_concat(a, b, class);
    lemma_without_single(c, class);
    assert(without(a, class) + Seq::<char>::empty() == without(a, class));
}

/// The characters of `s`, in order.
pub fn chars_of(s: &str) -> (v: Vec<char>)
    ensures
        v@ == s@,
{
    broadcast use vstd::string::group_string_axioms;

    let mut v: Vec<char> = Vec::new();
    for c in it: s.chars()
        invariant
            it.seq() == s@,
            v@ == it.seq().take(it.index() as int),
    {
        v.push(c);
    }
    v
}

/// Whether two texts hold the same characters.
pub fn same_chars(a: &[char], b: &[char]) -> (r: bool)
    ensures
        r == (a@ == b@),
{
    if a.len() != b.len() {
        return false;
    }
    let mut i: usize = 0;
    while i < a.len()
        invariant
            a.len() == b.len(),
            i <= a.len(),
            a@.take(i as int) == b@.take(i as int),
        decreases a.len() - i,
    {
        if a[i] != b[i] {
            assert(a@[i as int] != b@[i as int]);
            return false;
        }
        assert(a@.take(i + 1) == a@.take(i as int).push(a@[i as int]));
        assert(b@.take(i + 1) == b@.take(i as int).push(b@[i as int]));
        i += 1;
    }
    assert(a@ == a@.take(a.len() as int));
    assert(b@ == b@.take(b.len() as int));
    true
}

/// Whether two strings hold the same text.
pub fn same_text(a: &str, b: &str) -> (r: bool)
    ensures
        r == (a@ == b@),
{
    let x = chars_of(a);
    let y = chars_of(b);
    same_chars(x.as_slice(), y.as_slice())
}

/// Whether `phrase` stands in `text` at position `i`.
pub fn phrase_at(text: &[char], phrase: &[char], i: usize) -> (r: bool)
    ensures
        r == occurs_at(text@, phrase@, i as int),
{
    if phrase.len() > text.len() || i > text.len() - phrase.len() {
        return false;
    }
    let mut k: usize = 0;
    while k < phrase.len()
        invariant
            i + phrase.len() <= text.len(),
            k <= phrase.len(),
            text@.subrange(i as int, i + k) == phrase@.take(k as int),
        decreases phrase.len() - k,
    {
        if text[i + k] != phrase[k] {
            assert(text@.subrange(i as int, i + phrase.len())[k as int] != phrase@[k as int]);
            return false;
        }
        assert(text@.subrange(i as int, i + k + 1) == text@.subrange(i as int, i + k).push(
            text@[i + k],
        ));
        assert(phrase@.take(k + 1) == phrase@.take(k as int).push(phrase@[k as int]));
        k += 1;
    }
    assert(phrase@ == phrase@.take(phrase.len() as int));
    true
}

/// Finds the first occurrence of `phrase` in `text`.
pub fn find_phrase(text: &[char], phrase: &[char]) -> (r: Option<usize>)
    ensures
        match r {
            Some(i) => first_occurrence(text@, phrase@) == Some(i as int),
            None => first_occurrence(text@, phrase@) is None,
        },
        r matches Some(i) ==> is_first_occurrence(text@, phrase@, i as int),
        r is Some == contains_phrase(text@, phrase@),
{
    if phrase.len() > text.len() {
        proof {
            lemma_no_occurrence(text@, phrase@);
        }
        return None;
    }
    let last: usize = text.len() - phrase.len();
    let mut i: usize = 0;
    while i < last
        invariant
            last == text.len() - phrase.len(),
            i <= last,
            forall|j: int| 0 <= j < i ==> !occurs_at(text@, phrase@, j),
        decreases last - i,
    {
        if phrase_at(text, phrase, i) {
            proof {
                lemma_first_occurrence_is(text@, phrase@, i as int);
            }
            return Some(i);
        }
        i += 1;
    }
    if phrase_at(text, phrase, last) {
        proof {
            lemma_first_occurrence_is(text@, phrase@, last as int);
        }
        return Some(last);
    }
    proof {
        lemma_no_occurrence(text@, phrase@);
    }
    None
}

/// The bounds `(from, to)` of `text` without the characters of `class` at
/// its start and at its end.
pub fn strip_bounds(text: &[char], class: CharClass) -> (r: (usize, usize))
    ensures
        r.0 <= r.1 <= text.len(),
        text@.subrange(r.0 as int, r.1 as int) == strip_end(strip_start(text@, class), class),
{
    let from = strip_start_bound(text, class);
    assert(text@.subrange(from as int, text.len() as int) == text@.skip(from as int));
    let to = strip_end_bound(text, from, text.len(), class);
    (from, to)
}

/// The position at which `text` without its leading characters of `class`
/// begins.
pub fn strip_start_bound(text: &[char], class: CharClass) -> (from: usize)
    ensures
        from <= text.len(),
        text@.skip(from as int) == strip_start(text@, class),
{
    let mut from: usize = 0;
    assert(text@.skip(0) == text@);
    while from < text.len() && class.contains(text[from])
        invariant
            from <= text.len(),
            strip_start(text@.skip(from as int), class) == strip_start(text@, class),
        decreases text.len() - from,
    {
        assert(text@.skip(from as int).drop_first() == text@.skip(from + 1));
        from += 1;
    }
    from
}

/// The position at which the part of `text` between `from` and `to`,
/// without its trailing characters of `class`, ends.
pub fn strip_end_bound(text: &[char], from: usize, to: usize, class: CharClass) -> (end: usize)
    requires
        from <= to <= text.len(),
    ensures
        from <= end <= to,
        text@.subrange(from as int, end as int) == strip_end(
            text@.subrange(from as int, to as int),
            class,
        ),
{
    let mut end: usize = to;
    while end > from && class.contains(text[end - 1])
        invariant
            from <= end <= to <= text.len(),
            strip_end(text@.subrange(from as int, end as int), class) == strip_end(
                text@.subrange(from as int, to as int),
                class,
            ),
        decreases end - from,
    {
        assert(text@.subrange(from as int, end as int).drop_last() == text@.subrange(
            from as int,
            end - 1,
        ));
        end -= 1;
    }
    end
}

/// The characters of `text` that are not in `class`, in their order.
pub fn remove_class(text: &[char], class: CharClass) -> (out: Vec<char>)
    ensures
        out@ == without(text@, class),
{
    let mut out: Vec<char> = Vec::new();
    let mut i: usize = 0;
    while i < text.len()
        invariant
            i <= text.len(),
            out@ == without(text@.take(i as int), class),
        decreases text.len() - i,
    {
        proof {
            assert(text@.take(i + 1).drop_last() == text@.take(i as int));
        }
        if !class.contains(text[i]) {
            out.push(text[i]);
        }
        i += 1;
    }
    assert(text@.take(text.len() as int) == text@);
    out
}

/// `s` without white space at either end, as `str::trim` gives it.
pub fn trim_text(s: &str) -> (r: String)
    ensures
        r@ == trimmed(s@),
{
    let chars = chars_of(s);
    let (from, to) = strip_bounds(chars.as_slice(), CharClass::Space);
    s.substring_char(from, to).to_owned()
}

} // verus!
