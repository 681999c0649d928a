//! Pages as parsed documents: what the extraction asks of the HTML parser.
//!
//! The parser is the `tl` crate. Nothing of its work is proved here: each
//! question put to it is a function of this module whose contract is
//! believed, and each answer has a name in specifications. A document is
//! tied to the text it was parsed from by the name of its source. What is
//! proved is how the answers are put together into the entries of an index
//! page and into the cells and description of a detail page.
//!
//! The parser follows the nesting of elements by recursion where it gathers
//! the text inside an element and where it finds the last node below one. A
//! page nested more deeply than the call stack allows is beyond what the
//! contracts here speak of.

use vstd::prelude::*;
use vstd::string::StringSliceAdditionalSpecFns;
use crate::extract::{child_view, child_views, entries_view, entry_views, fill_details,
    listings_view, summaries_of, summarize_all, texts, with_details, DetailPage, DetailPageView,
    Entry, EntryChild, EntryChildView, EntryView, ExtractError};
use crate::listing::{opt_text, or_empty, Vehicle, VehicleView};

verus! {

/// `tl::VDom`, a parsed document. Nothing inside it is seen here.
#[verifier::external_type_specification]
#[verifier::external_body]
pub struct ExVDom<'a>(tl::VDom<'a>);

/// `tl::ParseError`, with which `tl::parse` refuses a text.
#[verifier::external_type_specification]
#[verifier::external_body]
pub struct ExParseError(tl::ParseError);

/// The text that the document was parsed from: what the bytes that its
/// parser holds as input, those of the text given to `tl::parse`, decode
/// to.
pub uninterp spec fn dom_source(dom: &tl::VDom) -> Seq<char>;

/// The node that `VDom::get_element_by_id` finds for `id`.
pub uninterp spec fn dom_element_by_id(dom: &tl::VDom, id: Seq<char>) -> Option<u32>;

/// The nodes that `VDom::get_elements_by_class_name` yields for `class`, in
/// the order in which it yields them.
pub uninterp spec fn dom_elements_by_class(dom: &tl::VDom, class: Seq<char>) -> Seq<u32>;

/// The nodes that `HTMLTag::query_selector` yields below `node` for
/// `selector`, in the order in which it yields them; `None` where `node` is
/// no element or the selector cannot be read.
pub uninterp spec fn dom_selection(dom: &tl::VDom, node: u32, selector: Seq<char>) -> Option<
    Seq<u32>,
>;

/// The direct children of `node` as `Children::top` lists them; `None`
/// where `node` is no element.
pub uninterp spec fn dom_children(dom: &tl::VDom, node: u32) -> Option<Seq<u32>>;

/// The first and the last node below `node` as `Children::boundaries` gives
/// them; `None` where `node` is no element or has no children.
pub uninterp spec fn dom_span(dom: &tl::VDom, node: u32) -> Option<(u32, u32)>;

/// The name of the element `node` as `HTMLTag::name` gives it; `None` where
/// `node` is no element.
pub uninterp spec fn dom_tag_name(dom: &tl::VDom, node: u32) -> Option<Seq<char>>;

/// The text inside `node` as `Node::inner_text` gives it; `None` where the
/// document has no such node.
pub uninterp spec fn dom_inner_text(dom: &tl::VDom, node: u32) -> Option<Seq<char>>;

/// The value of the attribute `key` of the element `node` as
/// `Attributes::get` gives it; `None` where `node` is no element or has no
/// such attribute, or the attribute has no value.
pub uninterp spec fn dom_attribute(dom: &tl::VDom, node: u32, key: Seq<char>) -> Option<
    Seq<char>,
>;

/// Whether `Attributes::is_class_member` counts `class` among the classes
/// of the element `node`; `false` where `node` is no element.
pub uninterp spec fn dom_class_member(dom: &tl::VDom, node: u32, class: Seq<char>) -> bool;

/// The view of an optional list of nodes.
pub open spec fn opt_nodes(o: Option<Vec<u32>>) -> Option<Seq<u32>> {
    match o {
        Some(v) => Some(v@),
        None => None,
    }
}

/// Calls `tl::parse` with the default options. It fails exactly when the
/// text has more bytes than a `u32` counts. The document it gives is the
/// one parsed from that text: its parser holds the bytes of the text as
/// its input. What the document holds is left to the names of the answers.
#[verifier::external_body]
fn parse_html<'a>(body: &'a str) -> (r: Result<tl::VDom<'a>, tl::ParseError>)
    ensures
        r is Err <==> body.spec_bytes().len() > u32::MAX,
        r matches Ok(dom) ==> dom_source(&dom) == body@,
{
    tl::parse(body, tl::ParserOptions::default())
}

/// Calls `VDom::get_element_by_id`; the handle it finds is given as its
/// number.
#[verifier::external_body]
fn element_by_id<'a>(dom: &tl::VDom<'a>, id: &'a str) -> (r: Option<u32>)
    ensures
        r == dom_element_by_id(dom, id@),
{
    dom.get_element_by_id(id).map(|h| h.get_inner())
}

/// Calls `VDom::get_elements_by_class_name`; the handles it yields are
/// given as their numbers, in its order.
#[verifier::external_body]
fn elements_by_class(dom: &tl::VDom, class: &str) -> (r: Vec<u32>)
    ensures
        r@ == dom_elements_by_class(dom, class@),
{
    dom.get_elements_by_class_name(class).map(|h| h.get_inner()).collect()
}

/// Calls `HTMLTag::query_selector` on the element `node`; the handles it
/// yields are given as their numbers, in its order.
#[verifier::external_body]
fn select(dom: &tl::VDom, node: u32, selector: &str) -> (r: Option<Vec<u32>>)
    ensures
        opt_nodes(r) == dom_selection(dom, node, selector@),
{
    let tag = tl::NodeHandle::new(node).get(dom.parser())?.as_tag()?;
    let found = tag.query_selector(dom.parser(), selector)?;
    Some(found.map(|h| h.get_inner()).collect())
}

/// Calls `Children::top` on the children of the element `node`; the handles
/// it lists are given as their numbers, in its order.
#[verifier::external_body]
fn children(dom: &tl::VDom, node: u32) -> (r: Option<Vec<u32>>)
    ensures
        opt_nodes(r) == dom_children(dom, node),
{
    let tag = tl::NodeHandle::new(node).get(dom.parser())?.as_tag()?;
    Some(tag.children().top().iter().map(|h| h.get_inner()).collect())
}

/// Calls `Children::boundaries` on the children of the element `node`.
#[verifier::external_body]
fn span(dom: &tl::VDom, node: u32) -> (r: Option<(u32, u32)>)
    ensures
        r == dom_span(dom, node),
{
    let tag = tl::NodeHandle::new(node).get(dom.parser())?.as_tag()?;
    tag.children().boundaries(dom.parser())
}

/// Calls `HTMLTag::name` on the element `node`.
#[verifier::external_body]
fn tag_name(dom: &tl::VDom, node: u32) -> (r: Option<String>)
    ensures
        opt_text(r) == dom_tag_name(dom, node),
{
    let tag = tl::NodeHandle::new(node).get(dom.parser())?.as_tag()?;
    Some(tag.name().as_utf8_str().into_owned())
}

/// Calls `Node::inner_text` on `node`.
#[verifier::external_body]
fn inner_text(dom: &tl::VDom, node: u32) -> (r: Option<String>)
    ensures
        opt_text(r) == dom_inner_text(dom, node),
{
    let found = tl::NodeHandle::new(node).get(dom.parser())?;
    Some(found.inner_text(dom.parser()).into_owned())
}

/// Calls `Attributes::get` on the attributes of the element `node`, and
/// gives the value where the attribute is there and has one.
#[verifier::external_body]
fn get_attribute<'a>(dom: &tl::VDom<'a>, node: u32, key: &'a str) -> (r: Option<String>)
    ensures
        opt_text(r) == dom_attribute(dom, node, key@),
{
    let tag = tl::NodeHandle::new(node).get(dom.parser())?.as_tag()?;
    let value = tag.attributes().get(key)??;
    Some(value.as_utf8_str().into_owned())
}

/// Calls `Attributes::is_class_member` on the attributes of the element
/// `node`.
#[verifier::external_body]
fn class_member(dom: &tl::VDom, node: u32, class: &str) -> (r: bool)
    ensures
        r == dom_class_member(dom, node, class@),
{
    tl::NodeHandle::new(node).get(dom.parser()).and_then(|n| n.as_tag()).map_or(
        false,
        |t| t.attributes().is_class_member(class),
    )
}

/// A parsed page.
pub struct Document<'a> {
    dom: tl::VDom<'a>,
}

impl<'a> Document<'a> {
    /// The document as the parser gave it.
    pub closed spec fn dom(&self) -> tl::VDom<'a> {
        self.dom
    }

    /// The text of the page: what the document was parsed from.
    pub open spec fn source(&self) -> Seq<char> {
        dom_source(&self.dom())
    }

    /// What `node` shows as a child of a listing entry, if it is an
    /// element: its name, the text inside it, whether it carries the class
    /// `price` or the class `cat_path`, and its `src` attribute.
    pub open spec fn child(&self, node: u32) -> Option<EntryChildView> {
        match dom_tag_name(&self.dom(), node) {
            Some(tag) => Some(
                EntryChildView {
                    tag: tag,
                    text: or_empty(dom_inner_text(&self.dom(), node)),
                    price_marked: dom_class_member(&self.dom(), node, "price"@),
                    category_marked: dom_class_member(&self.dom(), node, "cat_path"@),
                    source: dom_attribute(&self.dom(), node, "src"@),
                },
            ),
            None => None,
        }
    }

    /// What the elements among `nodes` show as children of a listing entry,
    /// in order.
    pub open spec fn children_among(&self, nodes: Seq<u32>) -> Seq<EntryChildView>
        decreases nodes.len(),
    {
        if nodes.len() == 0 {
            Seq::empty()
        } else {
            match self.child(nodes.last()) {
                Some(c) => self.children_among(nodes.drop_last()).push(c),
                None => self.children_among(nodes.drop_last()),
            }
        }
    }

    /// The listing entry that `node` is: its `href` attribute as the link,
    /// and the elements among its direct children.
    pub open spec fn entry(&self, node: u32) -> EntryView {
        EntryView {
            link: dom_attribute(&self.dom(), node, "href"@),
            children: match dom_children(&self.dom(), node) {
                Some(nodes) => self.children_among(nodes),
                None => Seq::empty(),
            },
        }
    }

    /// The listing entries of the page as an index page: what the selector
    /// `.prod_container` selects below the element with the id
    /// `left_column`. Without that element, or where nothing can be
    /// selected below it, the page has no readable entries.
    pub open spec fn entries(&self) -> Result<Seq<EntryView>, ExtractError> {
        match dom_element_by_id(&self.dom(), "left_column"@) {
            None => Err(ExtractError::ContentRegionMissing),
            Some(column) => match dom_selection(&self.dom(), column, ".prod_container"@) {
                None => Err(ExtractError::EntriesMissing),
                Some(nodes) => Ok(Seq::new(nodes.len(), |i: int| self.entry(nodes[i]))),
            },
        }
    }

    /// The elements of the class `prod_right`, in the parser's order.
    pub open spec fn table_regions(&self) -> Seq<u32> {
        dom_elements_by_class(&self.dom(), "prod_right"@)
    }

    /// The elements of the class `description`, in the parser's order.
    pub open spec fn description_blocks(&self) -> Seq<u32> {
        dom_elements_by_class(&self.dom(), "description"@)
    }

    /// The texts inside the `td` elements among the nodes numbered from
    /// `first` to `last`, in order.
    pub open spec fn cells_between(&self, first: u32, last: int) -> Seq<Seq<char>>
        decreases last - first + 1,
    {
        if last < first || last > u32::MAX {
            Seq::empty()
        } else if dom_tag_name(&self.dom(), last as u32) == Some("td"@) {
            self.cells_between(first, last - 1).push(
                or_empty(dom_inner_text(&self.dom(), last as u32)),
            )
        } else {
            self.cells_between(first, last - 1)
        }
    }

    /// The cells of the attribute table of the page as a detail page: the
    /// texts inside the `td` elements below the first element of the class
    /// `prod_right`, in document order. Without such an element there are
    /// none.
    pub open spec fn cells(&self) -> Seq<Seq<char>> {
        let regions = self.table_regions();
        if regions.len() == 0 {
            Seq::empty()
        } else {
            match dom_span(&self.dom(), regions[0]) {
                Some((first, last)) => self.cells_between(first, last as int),
                None => Seq::empty(),
            }
        }
    }

    /// The description block of the page as a detail page: the text inside
    /// the first element of the class `description`, if there is one.
    pub open spec fn description(&self) -> Option<Seq<char>> {
        let blocks = self.description_blocks();
        if blocks.len() == 0 {
            None
        } else {
            dom_inner_text(&self.dom(), blocks[0])
        }
    }

    /// What the page shows as a detail page.
    pub open spec fn detail(&self) -> DetailPageView {
        DetailPageView { cells: self.cells(), description: self.description() }
    }

    /// The listings that the page shows as an index page: those of its
    /// entries, if they can be read and each has a link.
    pub open spec fn shown(&self) -> Result<Seq<VehicleView>, ExtractError> {
        match self.entries() {
            Ok(es) => summaries_of(es),
            Err(e) => Err(e),
        }
    }

    /// Parses a page. This fails exactly when the text has more bytes than
    /// the parser can address; else it gives the document of that text.
    pub fn parse(body: &'a str) -> (r: Result<Document<'a>, ExtractError>)
        ensures
            r is Err <==> body.spec_bytes().len() > u32::MAX,
            r is Err ==> r == Err::<Document<'a>, ExtractError>(ExtractError::DocumentTooLarge),
            r matches Ok(page) ==> page.source() == body@,
    {
        match parse_html(body) {
            Ok(dom) => Ok(Document { dom }),
            Err(_) => Err(ExtractError::DocumentTooLarge),
        }
    }

    /// Reads `node` as a child of a listing entry.
    pub fn read_child(&self, node: u32) -> (r: Option<EntryChild>)
        ensures
            child_view(r) == self.child(node),
    {
        match tag_name(&self.dom, node) {
            Some(tag) => {
                let text = match inner_text(&self.dom, node) {
                    Some(t) => t,
                    None => String::new(),
                };
                Some(
                    EntryChild {
                        tag,
                        text,
                        price_marked: class_member(&self.dom, node, "price"),
                        category_marked: class_member(&self.dom, node, "cat_path"),
                        source: get_attribute(&self.dom, node, "src"),
                    },
                )
            },
            None => None,
        }
    }

    /// Reads `node` as a listing entry.
    pub fn read_entry(&self, node: u32) -> (e: Entry)
        ensures
            e@ == self.entry(node),
    {
        let link = get_attribute(&self.dom, node, "href");
        let mut found: Vec<EntryChild> = Vec::new();
        match children(&self.dom, node) {
            Some(nodes) => {
                let mut i: usize = 0;
                while i < nodes.len()
                    invariant
                        i <= nodes.len(),
                        child_views(found@) == self.children_among(nodes@.take(i as int)),
                    decreases nodes.len() - i,
                {
                    proof {
                        assert(nodes@.take(i + 1).drop_last() == nodes@.take(i as int));
                    }
                    let ghost before = found@;
                    match self.read_child(nodes[i]) {
                        Some(c) => {
                            found.push(c);
                            assert(child_views(found@) == child_views(before).push(c@));
                        },
                        None => {},
                    }
                    i += 1;
                }
                proof {
                    assert(nodes@.take(i as int) == nodes@);
                }
            },
            None => {
                assert(child_views(found@) == Seq::<EntryChildView>::empty());
            },
        }
        Entry { link, children: found }
    }

    /// Reads the listing entries of an index page.
    pub fn index_entries(&self) -> (r: Result<Vec<Entry>, ExtractError>)
        ensures
            entries_view(r) == self.entries(),
    {
        let column = match element_by_id(&self.dom, "left_column") {
            Some(c) => c,
            None => {
                return Err(ExtractError::ContentRegionMissing);
            },
        };
        let nodes = match select(&self.dom, column, ".prod_container") {
            Some(ns) => ns,
            None => {
                return Err(ExtractError::EntriesMissing);
            },
        };
        let mut out: Vec<Entry> = Vec::new();
        let mut i: usize = 0;
        while i < nodes.len()
            invariant
                i <= nodes.len(),
                out.len() == i,
                forall|j: int| 0 <= j < i ==> (#[trigger] out@[j])@ == self.entry(nodes@[j]),
            decreases nodes.len() - i,
        {
            let e = self.read_entry(nodes[i]);
            out.push(e);
            i += 1;
        }
        proof {
            assert(entry_views(out@) =~= Seq::new(nodes@.len(), |i: int| self.entry(nodes@[i])));
        }
        Ok(out)
    }

    /// Reads the cells of the attribute table of a detail page.
    pub fn detail_cells(&self) -> (cells: Vec<String>)
        ensures
            texts(cells@) == self.cells(),
    {
        let mut cells: Vec<String> = Vec::new();
        assert(texts(cells@) == Seq::<Seq<char>>::empty());
        let regions = elements_by_class(&self.dom, "prod_right");
        if regions.len() == 0 {
            return cells;
        }
        let (first, last) = match span(&self.dom, regions[0]) {
            Some(bounds) => bounds,
            None => {
                return cells;
            },
        };
        if last < first {
            return cells;
        }
        let mut i: u32 = first;
        loop
            invariant_except_break
                first <= i <= last,
                texts(cells@) == self.cells_between(first, i - 1),
            ensures
                texts(cells@) == self.cells_between(first, last as int),
            decreases last - i,
        {
            let ghost before = cells@;
            let cell = match tag_name(&self.dom, i) {
                Some(name) => crate::text::same_text(name.as_str(), "td"),
                None => false,
            };
            if cell {
                let text = match inner_text(&self.dom, i) {
                    Some(t) => t,
                    None => String::new(),
                };
                cells.push(text);
                assert(texts(cells@) == texts(before).push(text@));
            }
            if i == last {
                break;
            }
            i += 1;
        }
        cells
    }

    /// Reads what a detail page shows.
    pub fn detail_page(&self) -> (page: DetailPage)
        ensures
            page@ == self.detail(),
    {
        let cells = self.detail_cells();
        let blocks = elements_by_class(&self.dom, "description");
        let description = if blocks.len() == 0 {
            None
        } else {
            inner_text(&self.dom, blocks[0])
        };
        DetailPage { cells, description }
    }

    /// The listings that an index page shows.
    ///
    /// This fails where the page has no primary content region, where its
    /// entries cannot be selected, and where an entry has no link.
    pub fn listings(&self) -> (r: Result<Vec<Vehicle>, ExtractError>)
        ensures
            listings_view(r) == self.shown(),
    {
        match self.index_entries() {
            Ok(entries) => summarize_all(&entries),
            Err(e) => Err(e),
        }
    }

    /// Completes a listing from its detail page.
    pub fn complete(&self, vehicle: &mut Vehicle)
        ensures
            final(vehicle)@ == with_details(old(vehicle)@, self.detail()),
    {
        let page = self.detail_page();
        fill_details(vehicle, &page);
    }
}

/// A page without an element of the class `prod_right` shows no cells, and
/// one without an element of the class `description` shows no description
/// block. Neither is an error.
pub proof fn lemma_missing_regions(page: Document)
    ensures
        page.table_regions().len() == 0 ==> page.detail().cells.len() == 0,
        page.description_blocks().len() == 0 ==> page.detail().description is None,
{
}

} // verus!
