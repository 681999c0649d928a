use listing_watch::policy::Policy;

fn standard() -> Policy {
    Policy::new(20000, 160000, vec!["Trucks".to_string(), "Vintage".to_string()])
}

#[test]
fn policy_new_keeps_its_arguments() {
    let p = Policy::new(1, 2, vec!["x".to_string()]);
    assert_eq!(p.cost_ceiling, 1);
    assert_eq!(p.mileage_ceiling, 2);
    assert_eq!(p.excluded_category_markers, vec!["x".to_string()]);
}

#[test]
fn storage_rejects_trucks_whatever_the_price() {
    let p = standard();
    for price in ["$1", "$15,000", "$25,000", "", "Call for Price", "-5"] {
        assert!(!p.qualifies_for_storage("Vehicles > Trucks", price));
    }
    assert!(!p.qualifies_for_storage("Vintage Cars", "$1"));
    assert!(p.excludes_category("Vehicles > Trucks"));
    assert!(!p.excludes_category("Vehicles > trucks"));
    assert!(!p.excludes_category("Vehicles > Cars"));
}

#[test]
fn storage_rejects_a_price_at_or_above_the_ceiling() {
    let p = standard();
    assert!(!p.qualifies_for_storage("Vehicles > Cars", "$25,000"));
    assert!(!p.qualifies_for_storage("Vehicles > Cars", "$20,000"));
    assert!(!p.qualifies_for_storage("Vehicles > Cars", "$20,000.00"));
    assert!(p.qualifies_for_storage("Vehicles > Cars", "$19,999.99"));
}

#[test]
fn storage_accepts_a_car_below_the_ceiling() {
    let p = standard();
    assert!(p.qualifies_for_storage("Vehicles > Cars", "$15,000"));
}

#[test]
fn storage_rejects_a_price_that_is_no_number() {
    let p = standard();
    assert!(!p.qualifies_for_storage("Vehicles > Cars", "Call for Price"));
    assert!(!p.qualifies_for_storage("Vehicles > Cars", ""));
    assert!(!p.qualifies_for_storage("Vehicles > Cars", "$"));
}

#[test]
fn storage_with_no_exclusions_and_empty_marker() {
    let none = Policy::new(20000, 160000, vec![]);
    assert!(none.qualifies_for_storage("Vehicles > Trucks", "$15,000"));
    let all = Policy::new(20000, 160000, vec![String::new()]);
    assert!(!all.qualifies_for_storage("Vehicles > Cars", "$15,000"));
}

#[test]
fn notification_needs_a_mileage() {
    let p = standard();
    assert!(!p.qualifies_for_notification(&None));
}

#[test]
fn notification_thresholds() {
    let p = standard();
    assert!(p.qualifies_for_notification(&Some("120000".to_string())));
    assert!(p.qualifies_for_notification(&Some("120,000 km".to_string())));
    assert!(!p.qualifies_for_notification(&Some("170000".to_string())));
    assert!(!p.qualifies_for_notification(&Some("170,000 km".to_string())));
    assert!(!p.qualifies_for_notification(&Some("160,000 km".to_string())));
    assert!(p.qualifies_for_notification(&Some("159,999.9 km".to_string())));
    assert!(!p.qualifies_for_notification(&Some("low".to_string())));
    assert!(!p.qualifies_for_notification(&Some(String::new())));
}
