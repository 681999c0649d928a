//! The vehicle listing record, assembled in two phases.

use vstd::prelude::*;
use vstd::string::StringExecFns;

verus! {

/// One vehicle listing. The summary fields come from an index page; the
/// optional detail fields come from the listing's own page.
#[derive(Debug, Clone)]
pub struct Vehicle {
    pub model: String,
    pub category: String,
    pub price: String,
    pub description: String,
    pub city: String,
    pub url: String,
    pub image: String,
    pub year: Option<String>,
    pub make: Option<String>,
    pub mileage: Option<String>,
    pub ad_type: Option<String>,
}

/// The mathematical value of a [`Vehicle`]: every text field as a sequence of
/// characters.
pub struct VehicleView {
    pub model: Seq<char>,
    pub category: Seq<char>,
    pub price: Seq<char>,
    pub description: Seq<char>,
    pub city: Seq<char>,
    pub url: Seq<char>,
    pub image: Seq<char>,
    pub year: Option<Seq<char>>,
    pub make: Option<Seq<char>>,
    pub mileage: Option<Seq<char>>,
    pub ad_type: Option<Seq<char>>,
}

/// The view of an optional text field.
pub open spec fn opt_text(o: Option<String>) -> Option<Seq<char>> {
    match o {
        Some(s) => Some(s@),
        None => None,
    }
}

impl VehicleView {
    /// The record in which every summary field is empty and every detail
    /// field is absent.
    pub open spec fn empty() -> VehicleView {
        VehicleView {
            model: Seq::empty(),
            category: Seq::empty(),
            price: Seq::empty(),
            description: Seq::empty(),
            city: Seq::empty(),
            url: Seq::empty(),
            image: Seq::empty(),
            year: None,
            make: None,
            mileage: None,
            ad_type: None,
        }
    }
}

impl View for Vehicle {
    type V = VehicleView;

    open spec fn view(&self) -> VehicleView {
        VehicleView {
            model: self.model@,
            category: self.category@,
            price: self.price@,
            description: self.description@,
            city: self.city@,
            url: self.url@,
            image: self.image@,
            year: opt_text(self.year),
            make: opt_text(self.make),
            mileage: opt_text(self.mileage),
            ad_type: opt_text(self.ad_type),
        }
    }
}

/// `text` where there is one, else the empty text.
pub open spec fn or_empty(text: Option<Seq<char>>) -> Seq<char> {
    match text {
        Some(t) => t,
        None => Seq::empty(),
    }
}

/// The decimal digit of the value `d`.
pub open spec fn digit_char(d: nat) -> char {
    if d == 0 {
        '0'
    } else if d == 1 {
        '1'
    } else if d == 2 {
        '2'
    } else if d == 3 {
        '3'
    } else if d == 4 {
        '4'
    } else if d == 5 {
        '5'
    } else if d == 6 {
        '6'
    } else if d == 7 {
        '7'
    } else if d == 8 {
        '8'
    } else {
        '9'
    }
}

/// The number `n` written in base ten, without leading zeros.
pub open spec fn decimal_text(n: nat) -> Seq<char>
    decreases n,
{
    if n < 10 {
        seq![digit_char(n)]
    } else {
        decimal_text(n / 10).push(digit_char(n % 10))
    }
}

/// The address of the index page `page` with `per_page` listings on it.
pub open spec fn index_address_text(base_url: Seq<char>, per_page: nat, page: nat) -> Seq<char> {
    base_url + "/cat/vehicles/?perpage="@ + decimal_text(per_page) + "&p="@ + decimal_text(page)
}

/// The address of the detail page of a listing: the site's address followed
/// by the listing's own.
pub open spec fn detail_address_text(base_url: Seq<char>, v: VehicleView) -> Seq<char> {
    base_url + v.url
}

/// The notification of a listing: year, make and model, then price and
/// mileage, then the image and the address of the detail page. A field
/// that is absent contributes nothing.
pub open spec fn message_text(v: VehicleView, base_url: Seq<char>) -> Seq<char> {
    or_empty(v.year) + " "@ + or_empty(v.make) + " "@ + v.model + ": "@ + v.price + ", "@
        + or_empty(v.mileage) + " km. "@ + v.image + " "@ + base_url + v.url
}

/// The text of the decimal digit of the value `d`.
pub fn digit_text(d: u64) -> (t: &'static str)
    requires
        d < 10,
    ensures
        t@ == seq![digit_char(d as nat)],
{
    proof {
        reveal_strlit("0");
        reveal_strlit("1");
        reveal_strlit("2");
        reveal_strlit("3");
        reveal_strlit("4");
        reveal_strlit("5");
        reveal_strlit("6");
        reveal_strlit("7");
        reveal_strlit("8");
        reveal_strlit("9");
    }
    let t = if d == 0 {
        "0"
    } else if d == 1 {
        "1"
    } else if d == 2 {
        "2"
    } else if d == 3 {
        "3"
    } else if d == 4 {
        "4"
    } else if d == 5 {
        "5"
    } else if d == 6 {
        "6"
    } else if d == 7 {
        "7"
    } else if d == 8 {
        "8"
    } else {
        "9"
    };
    assert(t@ =~= seq![digit_char(d as nat)]);
    t
}

/// Appends the number `n`, written in base ten, to `out`.
pub fn push_decimal(out: &mut String, n: u64)
    ensures
        final(out)@ == old(out)@ + decimal_text(n as nat),
    decreases n,
{
    if n >= 10 {
        push_decimal(out, n / 10);
    }
    let ghost before = out@;
    out.append(digit_text(n % 10));
    proof {
        if n >= 10 {
            assert(out@ == old(out)@ + decimal_text((n / 10) as nat).push(
                digit_char((n % 10) as nat),
            ));
        } else {
            assert(out@ == old(out)@ + seq![digit_char(n as nat)]);
        }
    }
}

/// Appends the text of an optional field, if there is one.
pub fn push_field(out: &mut String, field: &Option<String>)
    ensures
        final(out)@ == old(out)@ + or_empty(opt_text(*field)),
{
    match field {
        Some(text) => {
            out.append(text.as_str());
        },
        None => {
            assert(out@ + Seq::<char>::empty() == out@);
        },
    }
}

/// The address of the index page `page` with `per_page` listings on it.
pub fn index_address(base_url: &str, per_page: u64, page: u64) -> (address: String)
    ensures
        address@ == index_address_text(base_url@, per_page as nat, page as nat),
{
    let mut address = String::new();
    address.append(base_url);
    assert(address@ == base_url@);
    address.append("/cat/vehicles/?perpage=");
    push_decimal(&mut address, per_page);
    address.append("&p=");
    push_decimal(&mut address, page);
    address
}

impl Vehicle {
    /// A record with nothing filled in yet.
    pub fn new() -> (v: Vehicle)
        ensures
            v@ == VehicleView::empty(),
    {
        Vehicle {
            model: String::new(),
            category: String::new(),
            price: String::new(),
            description: String::new(),
            city: String::new(),
            url: String::new(),
            image: String::new(),
            year: None,
            make: None,
            mileage: None,
            ad_type: None,
        }
    }

    /// The address of the listing's detail page.
    pub fn detail_address(&self, base_url: &str) -> (address: String)
        ensures
            address@ == detail_address_text(base_url@, self@),
    {
        let mut address = String::new();
        address.append(base_url);
        assert(address@ == base_url@);
        address.append(self.url.as_str());
        address
    }

    /// The notification of the listing.
    pub fn notification_message(&self, base_url: &str) -> (message: String)
        ensures
            message@ == message_text(self@, base_url@),
    {
        let mut message = String::new();
        push_field(&mut message, &self.year);
        assert(message@ == or_empty(self@.year));
        message.append(" ");
        push_field(&mut message, &self.make);
        message.append(" ");
        message.append(self.model.as_str());
        message.append(": ");
        message.append(self.price.as_str());
        message.append(", ");
        push_field(&mut message, &self.mileage);
        message.append(" km. ");
        message.append(self.image.as_str());
        message.append(" ");
        message.append(base_url);
        message.append(self.url.as_str());
        message
    }
}

} // verus!
