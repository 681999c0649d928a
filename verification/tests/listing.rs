use listing_watch::listing::{digit_text, index_address, push_decimal, push_field, Vehicle};

#[test]
fn new_vehicle_is_empty() {
    let v = Vehicle::new();
    assert_eq!(v.model, "");
    assert_eq!(v.category, "");
    assert_eq!(v.price, "");
    assert_eq!(v.description, "");
    assert_eq!(v.city, "");
    assert_eq!(v.url, "");
    assert_eq!(v.image, "");
    assert_eq!(v.year, None);
    assert_eq!(v.make, None);
    assert_eq!(v.mileage, None);
    assert_eq!(v.ad_type, None);
}

#[test]
fn notification_message_format() {
    let mut v = Vehicle::new();
    v.year = Some("2015".to_string());
    v.make = Some("Honda".to_string());
    v.model = "Civic".to_string();
    v.price = "$15,000".to_string();
    v.mileage = Some("85,000".to_string());
    v.image = "/img/1.jpg".to_string();
    v.url = "/details/1".to_string();
    assert_eq!(
        v.notification_message("https://example.test"),
        "2015 Honda Civic: $15,000, 85,000 km. /img/1.jpg https://example.test/details/1"
    );
}

#[test]
fn notification_message_without_details() {
    let mut v = Vehicle::new();
    v.model = "Civic".to_string();
    v.price = "$1".to_string();
    v.url = "/d".to_string();
    assert_eq!(v.notification_message("B"), "  Civic: $1,  km.  B/d");
}

#[test]
fn addresses() {
    let mut v = Vehicle::new();
    v.url = "/details/7".to_string();
    assert_eq!(v.detail_address("https://example.test"), "https://example.test/details/7");
    assert_eq!(
        index_address("https://example.test", 100, 1),
        "https://example.test/cat/vehicles/?perpage=100&p=1"
    );
    assert_eq!(index_address("", 0, 18446744073709551615), "/cat/vehicles/?perpage=0&p=18446744073709551615");
}

#[test]
fn decimal_writing() {
    for n in [0u64, 7, 10, 99, 100, 12345, 1000000, u64::MAX] {
        let mut s = String::from("x");
        push_decimal(&mut s, n);
        assert_eq!(s, format!("x{}", n));
    }
    assert_eq!(digit_text(0), "0");
    assert_eq!(digit_text(9), "9");
    let mut s = String::from("a");
    push_field(&mut s, &None);
    assert_eq!(s, "a");
    push_field(&mut s, &Some("b".to_string()));
    assert_eq!(s, "ab");
}
