use listing_watch::extract::{fill_details, marker_for, read_entry_child, set_detail,
    split_description, summarize, summarize_all, DetailField, DetailPage, Entry, EntryChild,
    ExtractError};
use listing_watch::listing::Vehicle;

fn child(tag: &str, text: &str) -> EntryChild {
    EntryChild {
        tag: tag.to_string(),
        text: text.to_string(),
        price_marked: false,
        category_marked: false,
        source: None,
    }
}

fn price(text: &str) -> EntryChild {
    EntryChild { price_marked: true, ..child("div", text) }
}

fn category(text: &str) -> EntryChild {
    EntryChild { category_marked: true, ..child("div", text) }
}

fn image(source: Option<&str>) -> EntryChild {
    EntryChild { source: source.map(|s| s.to_string()), ..child("img", "") }
}

fn cells(texts: &[&str]) -> Vec<String> {
    texts.iter().map(|t| t.to_string()).collect()
}

fn full_table() -> Vec<String> {
    cells(&[
        "Year", " 2015 ", "Make", "Honda", "Model", " Civic LX\n", "Kilometers", "85,000 km",
        "Colour", "Red", "Doors", "4", "Fuel", "Gas", "Ad Type", " Business ",
    ])
}

#[test]
fn summary_reads_the_children_in_order() {
    let entry = Entry {
        link: Some("/details/1".to_string()),
        children: vec![
            child("h2", "Civic"),
            child("span", "Nice car"),
            child("span", "Kelowna"),
            child("span", "third span"),
            price("  $15,000 \n"),
            category("Vehicles > Cars"),
            image(Some("/img/1.jpg")),
            image(Some("/img/2.jpg")),
            child("p", "ignored"),
        ],
    };
    let v = summarize(&entry).unwrap();
    assert_eq!(v.url, "/details/1");
    assert_eq!(v.model, "Civic");
    assert_eq!(v.description, "Nice car");
    assert_eq!(v.city, "Kelowna");
    assert_eq!(v.price, "$15,000");
    assert_eq!(v.category, "Vehicles > Cars");
    assert_eq!(v.image, "/img/1.jpg");
    assert_eq!(v.year, None);
    assert_eq!(v.make, None);
    assert_eq!(v.mileage, None);
    assert_eq!(v.ad_type, None);
}

#[test]
fn summary_of_an_entry_without_children() {
    let entry = Entry { link: Some("/d".to_string()), children: vec![] };
    let v = summarize(&entry).unwrap();
    assert_eq!(v.url, "/d");
    assert_eq!(v.model, "");
    assert_eq!(v.image, "");
}

#[test]
fn summary_needs_a_link() {
    let entry = Entry { link: None, children: vec![child("h2", "Civic")] };
    assert_eq!(summarize(&entry).err(), Some(ExtractError::LinkMissing));
    let good = Entry { link: Some("/a".to_string()), children: vec![] };
    assert_eq!(summarize_all(&vec![good.clone(), entry]).err(), Some(ExtractError::LinkMissing));
    let all = summarize_all(&vec![good.clone(), good]).unwrap();
    assert_eq!(all.len(), 2);
    assert_eq!(all[1].url, "/a");
    assert_eq!(summarize_all(&vec![]).unwrap().len(), 0);
}

#[test]
fn summary_dispatch_details() {
    let entry = Entry {
        link: Some("/d".to_string()),
        children: vec![
            image(None),
            image(Some("")),
            image(Some("/late.jpg")),
            child("div", "unmarked"),
            EntryChild { price_marked: true, category_marked: true, ..child("div", " both ") },
            child("H2", "upper case is another tag"),
            child("h2", "first"),
            child("h2", "second"),
            EntryChild { price_marked: true, ..child("span", "a span, whatever its marks") },
        ],
    };
    let v = summarize(&entry).unwrap();
    assert_eq!(v.image, "/late.jpg");
    assert_eq!(v.price, "both");
    assert_eq!(v.category, "");
    assert_eq!(v.model, "second");
    assert_eq!(v.description, "a span, whatever its marks");
    assert_eq!(v.city, "");
}

#[test]
fn read_entry_child_counts_spans() {
    let mut v = Vehicle::new();
    let mut spans = 0usize;
    read_entry_child(&mut v, &mut spans, &child("span", "a"));
    read_entry_child(&mut v, &mut spans, &child("h2", "m"));
    read_entry_child(&mut v, &mut spans, &child("span", "b"));
    read_entry_child(&mut v, &mut spans, &child("span", "c"));
    assert_eq!(spans, 3);
    assert_eq!((v.description.as_str(), v.city.as_str(), v.model.as_str()), ("a", "b", "m"));
}

#[test]
fn detail_fields_by_position() {
    assert_eq!(DetailField::at(1), Some(DetailField::Year));
    assert_eq!(DetailField::at(3), Some(DetailField::Make));
    assert_eq!(DetailField::at(5), Some(DetailField::Model));
    assert_eq!(DetailField::at(7), Some(DetailField::Mileage));
    assert_eq!(DetailField::at(15), Some(DetailField::AdType));
    for k in [0usize, 2, 4, 6, 8, 9, 13, 14, 16, 17, 1000] {
        assert_eq!(DetailField::at(k), None);
    }
    for f in [DetailField::Year, DetailField::Make, DetailField::Model, DetailField::Mileage,
        DetailField::AdType] {
        assert_eq!(DetailField::at(f.offset()), Some(f));
    }
}

#[test]
fn details_from_a_full_table() {
    let mut v = Vehicle::new();
    v.model = "Civic - great deal".to_string();
    v.description = "summary".to_string();
    v.url = "/details/1".to_string();
    let page = DetailPage {
        cells: full_table(),
        description: Some("Seller info Send Message  Runs well.  Email Seller never read ".to_string()),
    };
    fill_details(&mut v, &page);
    assert_eq!(v.year, Some("2015".to_string()));
    assert_eq!(v.make, Some("Honda".to_string()));
    assert_eq!(v.model, "Civic LX");
    assert_eq!(v.mileage, Some("85,000 km".to_string()));
    assert_eq!(v.ad_type, Some("Business".to_string()));
    assert_eq!(v.description, "Runs well.  Email Seller never read");
    assert_eq!(v.url, "/details/1");
}

#[test]
fn details_from_a_short_table() {
    let mut v = Vehicle::new();
    v.model = "title".to_string();
    v.description = "summary".to_string();
    let page = DetailPage { cells: cells(&["Year", "2015", "Make", "Honda"]), description: None };
    fill_details(&mut v, &page);
    assert_eq!(v.year, Some("2015".to_string()));
    assert_eq!(v.make, Some("Honda".to_string()));
    assert_eq!(v.model, "title");
    assert_eq!(v.mileage, None);
    assert_eq!(v.ad_type, None);
    assert_eq!(v.description, "summary");
}

#[test]
fn details_without_a_table() {
    let mut v = Vehicle::new();
    v.model = "title".to_string();
    v.description = "summary".to_string();
    let page = DetailPage { cells: vec![], description: Some("x Email Seller  full text ".to_string()) };
    fill_details(&mut v, &page);
    assert_eq!(v.year, None);
    assert_eq!(v.make, None);
    assert_eq!(v.mileage, None);
    assert_eq!(v.ad_type, None);
    assert_eq!(v.model, "title");
    assert_eq!(v.description, "full text");
}

#[test]
fn description_is_split_by_the_ad_type() {
    let block = "A Send Message B Email Seller C";
    let business = Some("Business".to_string());
    let private = Some("Private".to_string());
    assert_eq!(marker_for(&business), "Send Message");
    assert_eq!(marker_for(&private), "Email Seller");
    assert_eq!(marker_for(&None), "Email Seller");
    assert_eq!(marker_for(&Some("business".to_string())), "Email Seller");
    assert_eq!(marker_for(&Some("Buisness".to_string())), "Email Seller");

    let mut cells = full_table();
    let mut v = Vehicle::new();
    fill_details(&mut v, &DetailPage { cells: cells.clone(), description: Some(block.to_string()) });
    assert_eq!(v.description, "B Email Seller C");

    cells[15] = "Private".to_string();
    let mut w = Vehicle::new();
    fill_details(&mut w, &DetailPage { cells, description: Some(block.to_string()) });
    assert_eq!(w.description, "C");
}

#[test]
fn description_without_a_marker_is_kept() {
    for kind in ["Business", "Private"] {
        let mut cells = full_table();
        cells[15] = kind.to_string();
        let mut v = Vehicle::new();
        v.description = "summary".to_string();
        fill_details(&mut v, &DetailPage { cells, description: Some("no phrase here".to_string()) });
        assert_eq!(v.description, "summary");
    }
    let mut v = Vehicle::new();
    v.description = "summary".to_string();
    v.ad_type = Some("Business".to_string());
    fill_details(&mut v, &DetailPage { cells: vec![], description: Some("x Email Seller y".to_string()) });
    assert_eq!(v.description, "summary");
}

#[test]
fn split_description_at_the_first_occurrence() {
    assert_eq!(split_description("a||b||c", "||"), Some("b||c".to_string()));
    assert_eq!(split_description("a||", "||"), Some(String::new()));
    assert_eq!(split_description("||  x  ", "||"), Some("x".to_string()));
    assert_eq!(split_description("a|b", "||"), None);
    assert_eq!(split_description("", "||"), None);
    assert_eq!(split_description("h\u{e9} Email Seller \u{e9}t\u{e9} ", "Email Seller"), Some("\u{e9}t\u{e9}".to_string()));
}

#[test]
fn set_detail_trims() {
    let mut v = Vehicle::new();
    set_detail(&mut v, DetailField::Year, " 1999\t");
    set_detail(&mut v, DetailField::Model, "  M  ");
    assert_eq!(v.year, Some("1999".to_string()));
    assert_eq!(v.model, "M");
}
