//! From what a page shows to the fields of a listing.
//!
//! An index page shows, for each listing, an entry with a link and a row of
//! child elements; a detail page shows a table of cells and a description
//! block. The functions here read those plain values and fill a
//! [`Vehicle`]. Nothing here knows how a page is parsed.

use vstd::prelude::*;
use vstd::slice::slice_subrange;
use vstd::string::StrSliceExecFns;
use crate::listing::{opt_text, Vehicle, VehicleView};
use crate::text::{chars_of, contains_phrase, find_phrase, occurs_at, same_text,
    strip_bounds, text_after, trim_text, trimmed, CharClass};

verus! {

/// Why a page could not be read.
#[derive(Clone, Copy, Debug, PartialEq, Eq, Structural)]
pub enum ExtractError {
    /// The page is longer than the parser can address.
    DocumentTooLarge,
    /// The index page has no primary content region.
    ContentRegionMissing,
    /// The listing entries of the index page cannot be selected.
    EntriesMissing,
    /// A listing entry carries no link to its detail page.
    LinkMissing,
}

/// One child element of a listing entry, as far as the extraction reads it.
#[derive(Clone, Debug)]
pub struct EntryChild {
    /// The element's name.
    pub tag: String,
    /// The text inside the element, without markup.
    pub text: String,
    /// Whether the element carries the price marker.
    pub price_marked: bool,
    /// Whether the element carries the category-path marker.
    pub category_marked: bool,
    /// The element's image source, if it has one.
    pub source: Option<String>,
}

/// The mathematical value of an [`EntryChild`].
pub struct EntryChildView {
    pub tag: Seq<char>,
    pub text: Seq<char>,
    pub price_marked: bool,
    pub category_marked: bool,
    pub source: Option<Seq<char>>,
}

impl View for EntryChild {
    type V = EntryChildView;

    open spec fn view(&self) -> EntryChildView {
        EntryChildView {
            tag: self.tag@,
            text: self.text@,
            price_marked: self.price_marked,
            category_marked: self.category_marked,
            source: opt_text(self.source),
        }
    }
}

/// One listing entry of an index page: its link and its child elements in
/// document order.
#[derive(Clone, Debug)]
pub struct Entry {
    pub link: Option<String>,
    pub children: Vec<EntryChild>,
}

/// The mathematical value of an [`Entry`].
pub struct EntryView {
    pub link: Option<Seq<char>>,
    pub children: Seq<EntryChildView>,
}

/// The values of a sequence of child elements.
pub open spec fn child_views(children: Seq<EntryChild>) -> Seq<EntryChildView> {
    Seq::new(children.len(), |i: int| children[i]@)
}

impl View for Entry {
    type V = EntryView;

    open spec fn view(&self) -> EntryView {
        EntryView { link: opt_text(self.link), children: child_views(self.children@) }
    }
}

/// The values of a sequence of entries.
pub open spec fn entry_views(entries: Seq<Entry>) -> Seq<EntryView> {
    Seq::new(entries.len(), |i: int| entries[i]@)
}

/// The values of a sequence of listings.
pub open spec fn vehicle_views(vehicles: Seq<Vehicle>) -> Seq<VehicleView> {
    Seq::new(vehicles.len(), |i: int| vehicles[i]@)
}

/// The value of an optional child element.
pub open spec fn child_view(child: Option<EntryChild>) -> Option<EntryChildView> {
    match child {
        Some(c) => Some(c@),
        None => None,
    }
}

/// The value of what reading one listing gave.
pub open spec fn listing_view(r: Result<Vehicle, ExtractError>) -> Result<
    VehicleView,
    ExtractError,
> {
    match r {
        Ok(v) => Ok(v@),
        Err(e) => Err(e),
    }
}

/// The value of what reading the listings of a page gave.
pub open spec fn listings_view(r: Result<Vec<Vehicle>, ExtractError>) -> Result<
    Seq<VehicleView>,
    ExtractError,
> {
    match r {
        Ok(vs) => Ok(vehicle_views(vs@)),
        Err(e) => Err(e),
    }
}

/// The value of what reading the entries of a page gave.
pub open spec fn entries_view(r: Result<Vec<Entry>, ExtractError>) -> Result<
    Seq<EntryView>,
    ExtractError,
> {
    match r {
        Ok(es) => Ok(entry_views(es@)),
        Err(e) => Err(e),
    }
}

/// A listing under construction from the children of its entry: the record
/// so far and how many inline-text children have been met.
pub struct Summary {
    pub vehicle: VehicleView,
    pub spans: nat,
}

/// The summary after one more child has been read.
///
/// A heading gives the model. The first inline-text child gives the
/// description, the second the city, any further one nothing. A block with
/// the price marker gives the price, trimmed; a block without it but with
/// the category marker gives the category. An image gives the image, but
/// only while none is set and only if it has a source. Any other child is
/// passed over.
pub open spec fn read_child(s: Summary, c: EntryChildView) -> Summary {
    let v = s.vehicle;
    if c.tag == "h2"@ {
        Summary { vehicle: VehicleView { model: c.text, ..v }, ..s }
    } else if c.tag == "span"@ {
        Summary {
            vehicle: if s.spans == 0 {
                VehicleView { description: c.text, ..v }
            } else if s.spans == 1 {
                VehicleView { city: c.text, ..v }
            } else {
                v
            },
            spans: s.spans + 1,
        }
    } else if c.tag == "div"@ {
        if c.price_marked {
            Summary { vehicle: VehicleView { price: trimmed(c.text), ..v }, ..s }
        } else if c.category_marked {
            Summary { vehicle: VehicleView { category: c.text, ..v }, ..s }
        } else {
            s
        }
    } else if c.tag == "img"@ {
        match c.source {
            Some(source) if v.image.len() == 0 => Summary {
                vehicle: VehicleView { image: source, ..v },
                ..s
            },
            _ => s,
        }
    } else {
        s
    }
}

/// The summary after the children `cs` have been read in order.
pub open spec fn read_children(s: Summary, cs: Seq<EntryChildView>) -> Summary
    decreases cs.len(),
{
    if cs.len() == 0 {
        s
    } else {
        read_child(read_children(s, cs.drop_last()), cs.last())
    }
}

/// The listing that an entry shows: its link as the address, and what its
/// children give. An entry without a link shows none.
pub open spec fn summary_of(e: EntryView) -> Result<VehicleView, ExtractError> {
    match e.link {
        Some(url) => Ok(
            read_children(
                summary(VehicleView { url: url, ..VehicleView::empty() }, 0),
                e.children,
            ).vehicle,
        ),
        None => Err(ExtractError::LinkMissing),
    }
}

/// Whether every one of the entries shows a listing.
pub open spec fn all_linked(es: Seq<EntryView>) -> bool {
    forall|i: int| 0 <= i < es.len() ==> (#[trigger] es[i]).link is Some
}

/// The listings that the entries of an index page show, in order; an error
/// if one of them has no link.
pub open spec fn summaries_of(es: Seq<EntryView>) -> Result<Seq<VehicleView>, ExtractError> {
    if all_linked(es) {
        Ok(Seq::new(es.len(), |i: int| summary_of(es[i])->Ok_0))
    } else {
        Err(ExtractError::LinkMissing)
    }
}

/// A listing under construction.
pub open spec fn summary(vehicle: VehicleView, spans: nat) -> Summary {
    Summary { vehicle, spans }
}

/// Reads one more child of an entry into the listing under construction.
pub fn read_entry_child(vehicle: &mut Vehicle, spans: &mut usize, child: &EntryChild)
    requires
        *old(spans) < usize::MAX,
    ensures
        summary(final(vehicle)@, *final(spans) as nat) == read_child(
            summary(old(vehicle)@, *old(spans) as nat),
            child@,
        ),
{
    if same_text(child.tag.as_str(), "h2") {
        vehicle.model = child.text.clone();
    } else if same_text(child.tag.as_str(), "span") {
        if *spans == 0 {
            vehicle.description = child.text.clone();
        } else if *spans == 1 {
            vehicle.city = child.text.clone();
        }
        *spans = *spans + 1;
    } else if same_text(child.tag.as_str(), "div") {
        if child.price_marked {
            vehicle.price = trim_text(child.text.as_str());
        } else if child.category_marked {
            vehicle.category = child.text.clone();
        }
    } else if same_text(child.tag.as_str(), "img") {
        if vehicle.image.as_str().is_empty() {
            match &child.source {
                Some(source) => {
                    vehicle.image = source.clone();
                },
                None => {},
            }
        }
    }
}

/// The listing that one entry of an index page shows.
pub fn summarize(entry: &Entry) -> (r: Result<Vehicle, ExtractError>)
    ensures
        listing_view(r) == summary_of(entry@),
{
    let mut vehicle = Vehicle::new();
    match &entry.link {
        Some(url) => {
            vehicle.url = url.clone();
        },
        None => {
            return Err(ExtractError::LinkMissing);
        },
    }
    let ghost first = summary(vehicle@, 0);
    let ghost children = entry@.children;
    let mut spans: usize = 0;
    let mut i: usize = 0;
    while i < entry.children.len()
        invariant
            i <= entry.children.len(),
            spans <= i,
            children == child_views(entry.children@),
            summary(vehicle@, spans as nat) == read_children(first, children.take(i as int)),
        decreases entry.children.len() - i,
    {
        proof {
            assert(children.take(i + 1).drop_last() == children.take(i as int));
        }
        read_entry_child(&mut vehicle, &mut spans, &entry.children[i]);
        i += 1;
    }
    proof {
        assert(children.take(i as int) == children);
    }
    Ok(vehicle)
}

/// The listings that the entries of an index page show, in order.
pub fn summarize_all(entries: &Vec<Entry>) -> (r: Result<Vec<Vehicle>, ExtractError>)
    ensures
        listings_view(r) == summaries_of(entry_views(entries@)),
{
    let ghost es = entry_views(entries@);
    let mut out: Vec<Vehicle> = Vec::new();
    let mut i: usize = 0;
    while i < entries.len()
        invariant
            i <= entries.len(),
            es == entry_views(entries@),
            out.len() == i,
            forall|j: int| 0 <= j < i ==> (#[trigger] es[j]).link is Some,
            forall|j: int|
                0 <= j < i ==> summary_of(es[j]) == Ok::<VehicleView, ExtractError>(
                    (#[trigger] out@[j])@,
                ),
        decreases entries.len() - i,
    {
        match summarize(&entries[i]) {
            Ok(v) => {
                out.push(v);
            },
            Err(e) => {
                assert(es[i as int].link is None);
                return Err(e);
            },
        }
        i += 1;
    }
    proof {
        assert(all_linked(es));
        assert(vehicle_views(out@) =~= Seq::new(es.len(), |i: int| summary_of(es[i])->Ok_0));
    }
    Ok(out)
}

/// A field that the attribute table of a detail page gives.
#[derive(Clone, Copy, Debug, PartialEq, Eq, Structural)]
pub enum DetailField {
    Year,
    Make,
    Model,
    Mileage,
    AdType,
}

impl DetailField {
    /// The position, among the cells of the attribute table, of the cell
    /// that holds the field's value.
    pub open spec fn cell(self) -> nat {
        match self {
            DetailField::Year => 1,
            DetailField::Make => 3,
            DetailField::Model => 5,
            DetailField::Mileage => 7,
            DetailField::AdType => 15,
        }
    }

    /// The field whose value the cell at `offset` holds, if any.
    pub open spec fn of_cell(offset: nat) -> Option<DetailField> {
        if offset == 1 {
            Some(DetailField::Year)
        } else if offset == 3 {
            Some(DetailField::Make)
        } else if offset == 5 {
            Some(DetailField::Model)
        } else if offset == 7 {
            Some(DetailField::Mileage)
        } else if offset == 15 {
            Some(DetailField::AdType)
        } else {
            None
        }
    }

    /// The position of the field's cell.
    pub fn offset(self) -> (k: usize)
        ensures
            k == self.cell(),
    {
        match self {
            DetailField::Year => 1,
            DetailField::Make => 3,
            DetailField::Model => 5,
            DetailField::Mileage => 7,
            DetailField::AdType => 15,
        }
    }

    /// The field that the cell at `offset` holds, if any.
    pub fn at(offset: usize) -> (f: Option<DetailField>)
        ensures
            f == DetailField::of_cell(offset as nat),
            f matches Some(field) ==> field.cell() == offset,
            f is None ==> forall|field: DetailField| field.cell() != offset,
    {
        if offset == 1 {
            Some(DetailField::Year)
        } else if offset == 3 {
            Some(DetailField::Make)
        } else if offset == 5 {
            Some(DetailField::Model)
        } else if offset == 7 {
            Some(DetailField::Mileage)
        } else if offset == 15 {
            Some(DetailField::AdType)
        } else {
            None
        }
    }
}

/// What a detail page shows of a listing: the texts of the cells of its
/// attribute table in document order, and the text of its description
/// block. A page without the table has no cells; a page without the block
/// has no description.
#[derive(Clone, Debug)]
pub struct DetailPage {
    pub cells: Vec<String>,
    pub description: Option<String>,
}

/// The mathematical value of a [`DetailPage`].
pub struct DetailPageView {
    pub cells: Seq<Seq<char>>,
    pub description: Option<Seq<char>>,
}

/// The texts of a sequence of strings.
pub open spec fn texts(strings: Seq<String>) -> Seq<Seq<char>> {
    Seq::new(strings.len(), |i: int| strings[i]@)
}

impl View for DetailPage {
    type V = DetailPageView;

    open spec fn view(&self) -> DetailPageView {
        DetailPageView { cells: texts(self.cells@), description: opt_text(self.description) }
    }
}

/// The value that the cells give to `field`: the trimmed text of the
/// field's cell, if there are that many cells.
pub open spec fn cell_value(cells: Seq<Seq<char>>, field: DetailField) -> Option<Seq<char>> {
    if field.cell() < cells.len() {
        Some(trimmed(cells[field.cell() as int]))
    } else {
        None
    }
}

/// `new` where there is one, else `old`.
pub open spec fn or_kept(new: Option<Seq<char>>, old: Option<Seq<char>>) -> Option<Seq<char>> {
    if new is Some {
        new
    } else {
        old
    }
}

/// The record with the fields that the cells give; a field whose cell is
/// missing stays as it was.
pub open spec fn with_cells(v: VehicleView, cells: Seq<Seq<char>>) -> VehicleView {
    VehicleView {
        year: or_kept(cell_value(cells, DetailField::Year), v.year),
        make: or_kept(cell_value(cells, DetailField::Make), v.make),
        model: match cell_value(cells, DetailField::Model) {
            Some(model) => model,
            None => v.model,
        },
        mileage: or_kept(cell_value(cells, DetailField::Mileage), v.mileage),
        ad_type: or_kept(cell_value(cells, DetailField::AdType), v.ad_type),
        ..v
    }
}

/// The phrase after which the seller's own words begin in the description
/// block: one for a business ad, another for every other ad type.
pub open spec fn contact_marker(ad_type: Option<Seq<char>>) -> Seq<char> {
    if ad_type == Some("Business"@) {
        "Send Message"@
    } else {
        "Email Seller"@
    }
}

/// The record with the description that the block gives: what follows the
/// first occurrence of the contact marker, trimmed. Without a block, or
/// without the marker in it, the description stays as it was.
pub open spec fn with_description(v: VehicleView, block: Option<Seq<char>>) -> VehicleView {
    match block {
        Some(text) => match description_after(text, contact_marker(v.ad_type)) {
            Some(description) => VehicleView { description, ..v },
            None => v,
        },
        None => v,
    }
}

/// The record completed by a detail page: first the cells, then the
/// description, which is split by the ad type that the cells gave.
pub open spec fn with_details(v: VehicleView, page: DetailPageView) -> VehicleView {
    with_description(with_cells(v, page.cells), page.description)
}

/// The contact marker for an ad type.
pub fn marker_for(ad_type: &Option<String>) -> (marker: &'static str)
    ensures
        marker@ == contact_marker(opt_text(*ad_type)),
{
    match ad_type {
        Some(kind) => {
            if same_text(kind.as_str(), "Business") {
                "Send Message"
            } else {
                "Email Seller"
            }
        },
        None => "Email Seller",
    }
}

/// What follows the first occurrence of `marker` in `block`, trimmed, if
/// the marker occurs.
pub open spec fn description_after(block: Seq<char>, marker: Seq<char>) -> Option<Seq<char>> {
    match text_after(block, marker) {
        Some(rest) => Some(trimmed(rest)),
        None => None,
    }
}

/// What follows the first occurrence of `marker` in `block`, trimmed, if
/// the marker occurs.
pub fn split_description(block: &str, marker: &str) -> (r: Option<String>)
    ensures
        opt_text(r) == description_after(block@, marker@),
{
    let text = chars_of(block);
    let phrase = chars_of(marker);
    match find_phrase(text.as_slice(), phrase.as_slice()) {
        Some(at) => {
            let n = text.len();
            assert(occurs_at(text@, phrase@, at as int));
            assert(at + phrase@.len() <= n);
            let start: usize = at + phrase.len();
            let rest = slice_subrange(text.as_slice(), start, n);
            assert(rest@ == block@.skip(start as int));
            let (from, to) = strip_bounds(rest, CharClass::Space);
            assert(rest@.subrange(from as int, to as int) == block@.subrange(
                start + from,
                start + to,
            ));
            Some(block.substring_char(start + from, start + to).to_owned())
        },
        None => None,
    }
}

/// The record with `value` as the value of `field`.
pub open spec fn with_field(v: VehicleView, field: DetailField, value: Seq<char>) -> VehicleView {
    match field {
        DetailField::Year => VehicleView { year: Some(value), ..v },
        DetailField::Make => VehicleView { make: Some(value), ..v },
        DetailField::Model => VehicleView { model: value, ..v },
        DetailField::Mileage => VehicleView { mileage: Some(value), ..v },
        DetailField::AdType => VehicleView { ad_type: Some(value), ..v },
    }
}

/// Writes the trimmed text of a cell into the field that the cell holds.
pub fn set_detail(vehicle: &mut Vehicle, field: DetailField, cell: &str)
    ensures
        final(vehicle)@ == with_field(old(vehicle)@, field, trimmed(cell@)),
{
    let contents = trim_text(cell);
    match field {
        DetailField::Year => {
            vehicle.year = Some(contents);
        },
        DetailField::Make => {
            vehicle.make = Some(contents);
        },
        DetailField::Model => {
            vehicle.model = contents;
        },
        DetailField::Mileage => {
            vehicle.mileage = Some(contents);
        },
        DetailField::AdType => {
            vehicle.ad_type = Some(contents);
        },
    }
}

/// Completes a listing from its detail page.
///
/// The cells are walked in order; the cell at a field's position gives the
/// field. Then the description block is split at the contact marker of the
/// listing's ad type. What the page does not show stays as it was.
pub fn fill_details(vehicle: &mut Vehicle, page: &DetailPage)
    ensures
        final(vehicle)@ == with_details(old(vehicle)@, page@),
{
    let ghost before = vehicle@;
    let ghost cells = page@.cells;
    let mut i: usize = 0;
    while i < page.cells.len()
        invariant
            i <= page.cells.len(),
            cells == texts(page.cells@),
            vehicle@ == with_cells(before, cells.take(i as int)),
        decreases page.cells.len() - i,
    {
        proof {
            assert(cells.take(i + 1).len() == i + 1);
            assert(forall|k: int| 0 <= k < i ==> cells.take(i + 1)[k] == cells.take(i as int)[k]);
            assert(cells.take(i + 1)[i as int] == page.cells@[i as int]@);
        }
        match DetailField::at(i) {
            Some(field) => {
                set_detail(vehicle, field, page.cells[i].as_str());
            },
            None => {},
        }
        i += 1;
    }
    proof {
        assert(cells.take(i as int) == cells);
    }
    match &page.description {
        Some(block) => {
            let marker = marker_for(&vehicle.ad_type);
            match split_description(block.as_str(), marker) {
                Some(description) => {
                    vehicle.description = description;
                },
                None => {},
            }
        },
        None => {},
    }
}

/// Whether every detail field of the record is absent.
pub open spec fn lacks_details(v: VehicleView) -> bool {
    v.year is None && v.make is None && v.mileage is None && v.ad_type is None
}

/// The children of an entry give summary fields only: they leave the
/// address and the detail fields of the record as they were.
pub proof fn lemma_children_keep_details(s: Summary, cs: Seq<EntryChildView>)
    ensures
        read_children(s, cs).vehicle.url == s.vehicle.url,
        read_children(s, cs).vehicle.year == s.vehicle.year,
        read_children(s, cs).vehicle.make == s.vehicle.make,
        read_children(s, cs).vehicle.mileage == s.vehicle.mileage,
        read_children(s, cs).vehicle.ad_type == s.vehicle.ad_type,
    decreases cs.len(),
{
    if cs.len() > 0 {
        lemma_children_keep_details(s, cs.drop_last());
    }
}

/// The listing that an entry shows has the entry's link as its address and
/// no detail field yet.
pub proof fn lemma_summary_lacks_details(e: EntryView)
    requires
        e.link is Some,
    ensures
        summary_of(e) is Ok,
        summary_of(e)->Ok_0.url == e.link->0,
        lacks_details(summary_of(e)->Ok_0),
{
    lemma_children_keep_details(
        summary(VehicleView { url: e.link->0, ..VehicleView::empty() }, 0),
        e.children,
    );
}

/// A detail page without an attribute table gives no detail field: the
/// model and every detail field of the record stay as they were. No such
/// page is an error.
pub proof fn lemma_page_without_table(v: VehicleView, page: DetailPageView)
    requires
        page.cells.len() == 0,
    ensures
        with_details(v, page).year == v.year,
        with_details(v, page).make == v.make,
        with_details(v, page).model == v.model,
        with_details(v, page).mileage == v.mileage,
        with_details(v, page).ad_type == v.ad_type,
        lacks_details(v) ==> lacks_details(with_details(v, page)),
{
}

/// A detail page changes nothing but the model, the description and the
/// detail fields of a record.
pub proof fn lemma_details_keep_summary(v: VehicleView, page: DetailPageView)
    ensures
        with_details(v, page).url == v.url,
        with_details(v, page).category == v.category,
        with_details(v, page).price == v.price,
        with_details(v, page).city == v.city,
        with_details(v, page).image == v.image,
{
}

/// The description of a business ad is split at the phrase `Send Message`:
/// what follows its first occurrence, trimmed, becomes the description.
pub proof fn lemma_business_description(v: VehicleView, block: Seq<char>)
    requires
        v.ad_type == Some("Business"@),
    ensures
        with_description(v, Some(block)).description == match text_after(
            block,
            "Send Message"@,
        ) {
            Some(rest) => trimmed(rest),
            None => v.description,
        },
{
}

/// The description of an ad of any other type, or of none, is split at the
/// phrase `Email Seller`.
pub proof fn lemma_private_description(v: VehicleView, block: Seq<char>)
    requires
        v.ad_type != Some("Business"@),
    ensures
        with_description(v, Some(block)).description == match text_after(
            block,
            "Email Seller"@,
        ) {
            Some(rest) => trimmed(rest),
            None => v.description,
        },
{
}

/// Where the description block holds neither phrase, the record stays as
/// it was, whatever its ad type; and so does the description of a record
/// that is completed from a page with such a block.
pub proof fn lemma_unmarked_description_is_kept(v: VehicleView, page: DetailPageView)
    requires
        page.description is Some,
        !contains_phrase(page.description->0, "Send Message"@),
        !contains_phrase(page.description->0, "Email Seller"@),
    ensures
        with_description(v, page.description) == v,
        with_details(v, page).description == v.description,
{
}

/// A page without a description block leaves the description as it was.
pub proof fn lemma_missing_description_is_kept(v: VehicleView, page: DetailPageView)
    requires
        page.description is None,
    ensures
        with_details(v, page).description == v.description,
{
}

} // verus!
