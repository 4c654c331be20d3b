//! Reading a page: the markup is parsed and queried with CSS selectors by
//! the `scraper` crate; what the queries give is gathered as plain text and
//! handed to the rules of the outline. What the crate finds is taken on
//! trust and only named here: each name stands for the result of one of its
//! functions, which depends on the arguments alone.

use crate::outline::{
    assemble, case_of, is_tidy, record_of_outline_is_tidy, OutlineView, PageOutline, Paragraph,
    ParagraphView,
};
use crate::record::CaseDetails;
use scraper::{ElementRef, Html, Selector};
use vstd::prelude::*;
use vstd::utf8::encode_utf8;

verus! {

/// `scraper::Html`, a parsed document. Nothing of its contents is visible here.
#[verifier::external_type_specification]
#[verifier::external_body]
pub struct ExHtml(scraper::Html);

/// `scraper::Selector`, a parsed group of CSS selectors.
#[verifier::external_type_specification]
#[verifier::external_body]
pub struct ExSelector(scraper::Selector);

/// `scraper::ElementRef`, a reference to one element of a parsed document.
#[verifier::external_type_specification]
#[verifier::external_body]
pub struct ExElementRef<'a>(scraper::ElementRef<'a>);

/// The selector of the element that holds the title.
pub const TITLE_SELECTOR: &'static str = ".caseTitle";

/// The selector of the information table.
pub const TABLE_SELECTOR: &'static str = "#info-table";

/// The selector of a row, within the table.
pub const ROW_SELECTOR: &'static str = "tr";

/// The selector of a cell, within a row.
pub const CELL_SELECTOR: &'static str = "td";

/// The selector of the element that holds the legal issues.
pub const ISSUES_SELECTOR: &'static str = "div.txt-body";

/// The selector of the child elements of the element it is applied to.
pub const CHILD_SELECTOR: &'static str = ":scope > *";

/// The selector of a paragraph.
pub const PARAGRAPH_SELECTOR: &'static str = "p";

/// The name of the attribute that lists an element's classes.
pub const CLASS_ATTRIBUTE: &'static str = "class";

/// The document that `scraper::Html::parse_document` makes of a text.
pub uninterp spec fn parsed_document(text: Seq<char>) -> Html;

/// The selector that `scraper::Selector::parse` makes of a text, where it
/// accepts the text.
pub uninterp spec fn parsed_selector(text: Seq<char>) -> Option<Selector>;

/// What `scraper::Html::select` yields, in its order.
pub uninterp spec fn document_matches(html: &Html, selector: Selector) -> Seq<ElementRef<'_>>;

/// What `scraper::ElementRef::select` yields, in its order.
pub uninterp spec fn element_matches(element: ElementRef<'_>, selector: Selector) -> Seq<
    ElementRef<'_>,
>;

/// What `scraper::ElementRef::text` yields, in its order.
pub uninterp spec fn element_text_nodes(element: ElementRef<'_>) -> Seq<Seq<char>>;

/// What `scraper::node::Element::attr` gives for the element and a name.
pub uninterp spec fn element_attribute(element: ElementRef<'_>, name: Seq<char>) -> Option<
    Seq<char>,
>;

/// The longest markup, in bytes, that is handed to the parser.
pub const MAX_DOCUMENT_BYTES: usize = 0x3FFF_FFFF;

/// Whether markup of `len` bytes can be parsed. The parser keeps its text in
/// buffers whose lengths are 32-bit numbers and panics where one does not
/// fit; text can grow inside it, a zero byte becoming a replacement character
/// of three bytes, so the limit is a quarter of what 32 bits hold.
pub open spec fn can_parse(len: nat) -> bool {
    len <= MAX_DOCUMENT_BYTES
}

/// `scraper::Html::parse_document`: parses markup as a whole document. The
/// parser recovers from every error in the markup, so a document comes back
/// for every text within the limit, and it depends on the text alone. The
/// call copies the text into a `tendril` buffer, which panics on more than
/// `u32::MAX` bytes; longer texts are left out. Nothing is claimed of what
/// the document holds.
#[verifier::external_body]
fn parse_document(document: &str) -> (html: Html)
    requires
        can_parse(encode_utf8(document@).len()),
    ensures
        html == parsed_document(document@),
{
    Html::parse_document(document)
}

/// `scraper::Selector::parse`: parses a group of CSS selectors. `None` stands
/// for the crate's error. Whether and how a text parses depends on the text
/// alone; nothing is claimed of which texts parse.
#[verifier::external_body]
fn parse_selector(selector: &str) -> (parsed: Option<Selector>)
    ensures
        parsed == parsed_selector(selector@),
{
    Selector::parse(selector).ok()
}

/// `scraper::Html::select`: the elements of the document that match the
/// selector, in the order in which the parser yields them. They depend on the document and the selector
/// alone; nothing is claimed of which they are.
#[verifier::external_body]
fn select_in_document<'a>(html: &'a Html, selector: &Selector) -> (found: Vec<ElementRef<'a>>)
    ensures
        found@ == document_matches(html, *selector),
{
    html.select(selector).collect()
}

/// `scraper::ElementRef::select`: the descendants of the element that match
/// the selector, in the order in which the crate walks them. They depend on the element and the
/// selector alone; nothing is claimed of which they are.
#[verifier::external_body]
fn select_in_element<'a>(element: &ElementRef<'a>, selector: &Selector) -> (found: Vec<
    ElementRef<'a>,
>)
    ensures
        found@ == element_matches(*element, *selector),
{
    element.select(selector).collect()
}

/// `scraper::ElementRef::text`: the text nodes below the element, in the
/// order in which the crate walks them, each as a string of its own. They depend on the element alone;
/// nothing is claimed of what they hold.
#[verifier::external_body]
fn text_nodes(element: &ElementRef) -> (nodes: Vec<String>)
    ensures
        nodes.deep_view() == element_text_nodes(*element),
{
    element.text().map(|node| node.to_string()).collect()
}

/// `scraper::node::Element::attr`, on the element that the reference points
/// to: the value of the attribute of that name, if the element has it. It
/// depends on the element and the name alone; nothing is claimed of the value.
#[verifier::external_body]
fn attribute(element: &ElementRef, name: &str) -> (value: Option<String>)
    ensures
        value.deep_view() == element_attribute(*element, name@),
{
    element.value().attr(name).map(|value| value.to_string())
}

/// The texts one after the other, with nothing between them.
pub open spec fn joined(parts: Seq<Seq<char>>) -> Seq<char>
    decreases parts.len(),
{
    if parts.len() == 0 {
        Seq::empty()
    } else {
        joined(parts.drop_last()) + parts.last()
    }
}

/// Joins the text nodes of an element into its text.
pub fn flatten_text(nodes: &Vec<String>) -> (text: String)
    ensures
        text@ == joined(nodes.deep_view()),
{
    let mut text = String::new();
    let mut i: usize = 0;
    while i < nodes.len()
        invariant
            i <= nodes.len(),
            text@ == joined(nodes.deep_view().take(i as int)),
        decreases nodes.len() - i,
    {
        assert(nodes.deep_view().take(i + 1).drop_last() =~= nodes.deep_view().take(i as int));
        assert(nodes.deep_view().take(i + 1).last() == nodes@[i as int]@);
        text.append(nodes[i].as_str());
        i += 1;
    }
    assert(nodes.deep_view().take(i as int) =~= nodes.deep_view());
    text
}

/// The text of an element: its text nodes joined.
pub open spec fn text_of(element: ElementRef<'_>) -> Seq<char> {
    joined(element_text_nodes(element))
}

/// The text of each of the elements, in order.
pub open spec fn texts_of(elements: Seq<ElementRef<'_>>) -> Seq<Seq<char>> {
    Seq::new(elements.len(), |i: int| text_of(elements[i]))
}

/// The elements of the document that match the selector written as
/// `selector`; none where that text is no selector.
pub open spec fn all_in(html: &Html, selector: Seq<char>) -> Seq<ElementRef<'_>> {
    match parsed_selector(selector) {
        Some(parsed) => document_matches(html, parsed),
        None => Seq::empty(),
    }
}

/// The descendants of the element that match the selector written as
/// `selector`; none where that text is no selector.
pub open spec fn all_within(element: ElementRef<'_>, selector: Seq<char>) -> Seq<ElementRef<'_>> {
    match parsed_selector(selector) {
        Some(parsed) => element_matches(element, parsed),
        None => Seq::empty(),
    }
}

/// The text of the first title element.
pub open spec fn title_in(html: &Html) -> Option<Seq<char>> {
    let found = all_in(html, TITLE_SELECTOR@);
    if found.len() > 0 {
        Some(text_of(found[0]))
    } else {
        None
    }
}

/// The texts of the cells of each row of `rows`.
pub open spec fn cells_of(rows: Seq<ElementRef<'_>>) -> Seq<Seq<Seq<char>>> {
    Seq::new(rows.len(), |i: int| texts_of(all_within(rows[i], CELL_SELECTOR@)))
}

/// The texts of the cells of each row of the first information table.
pub open spec fn rows_in(html: &Html) -> Seq<Seq<Seq<char>>> {
    let tables = all_in(html, TABLE_SELECTOR@);
    if tables.len() > 0 {
        cells_of(all_within(tables[0], ROW_SELECTOR@))
    } else {
        Seq::empty()
    }
}

/// The texts of the elements that are children of the first issues
/// container. Elements further down count only through the text of the child
/// that holds them.
pub open spec fn issues_in(html: &Html) -> Seq<Seq<char>> {
    let containers = all_in(html, ISSUES_SELECTOR@);
    if containers.len() > 0 {
        texts_of(all_within(containers[0], CHILD_SELECTOR@))
    } else {
        Seq::empty()
    }
}

/// The class attribute of the element (empty where it has none) and its text.
pub open spec fn paragraph_of(element: ElementRef<'_>) -> ParagraphView {
    ParagraphView {
        classes: match element_attribute(element, CLASS_ATTRIBUTE@) {
            Some(value) => value,
            None => Seq::empty(),
        },
        text: text_of(element),
    }
}

/// The class attribute and the text of every paragraph element.
pub open spec fn paragraphs_in(html: &Html) -> Seq<ParagraphView> {
    let found = all_in(html, PARAGRAPH_SELECTOR@);
    Seq::new(found.len(), |i: int| paragraph_of(found[i]))
}

/// The parts of the page with the markup `document` that the record is made
/// from.
pub open spec fn outline_of(document: Seq<char>) -> OutlineView {
    let html = parsed_document(document);
    OutlineView {
        title: title_in(&html),
        rows: rows_in(&html),
        issues: issues_in(&html),
        paragraphs: paragraphs_in(&html),
    }
}

/// Reads the text of an element.
fn element_text(element: &ElementRef) -> (text: String)
    ensures
        text@ == text_of(*element),
{
    let nodes = text_nodes(element);
    flatten_text(&nodes)
}

/// Reads the text of each of the elements.
fn element_texts(elements: &Vec<ElementRef>) -> (texts: Vec<String>)
    ensures
        texts.deep_view() == texts_of(elements@),
{
    let mut texts: Vec<String> = Vec::new();
    let mut i: usize = 0;
    while i < elements.len()
        invariant
            i <= elements.len(),
            texts.len() == i,
            forall|k: int| 0 <= k < i ==> (#[trigger] texts@[k])@ == text_of(elements@[k]),
        decreases elements.len() - i,
    {
        texts.push(element_text(&elements[i]));
        i += 1;
    }
    assert(texts.deep_view() =~= texts_of(elements@));
    texts
}

/// Finds the elements of the document that match `selector`.
fn find_all<'a>(html: &'a Html, selector: &str) -> (found: Vec<ElementRef<'a>>)
    ensures
        found@ == all_in(html, selector@),
{
    match parse_selector(selector) {
        Some(parsed) => select_in_document(html, &parsed),
        None => Vec::new(),
    }
}

/// Finds the descendants of `element` that match `selector`.
fn find_within<'a>(element: &ElementRef<'a>, selector: &str) -> (found: Vec<ElementRef<'a>>)
    ensures
        found@ == all_within(*element, selector@),
{
    match parse_selector(selector) {
        Some(parsed) => select_in_element(element, &parsed),
        None => Vec::new(),
    }
}

/// Reads the text of the first title element.
fn read_title(html: &Html) -> (title: Option<String>)
    ensures
        title.deep_view() == title_in(html),
{
    let found = find_all(html, TITLE_SELECTOR);
    if found.len() > 0 {
        Some(element_text(&found[0]))
    } else {
        None
    }
}

/// Reads the cells of each row of the first information table.
fn read_rows(html: &Html) -> (rows: Vec<Vec<String>>)
    ensures
        rows.deep_view() == rows_in(html),
{
    let mut rows: Vec<Vec<String>> = Vec::new();
    let tables = find_all(html, TABLE_SELECTOR);
    if tables.len() > 0 {
        let found = find_within(&tables[0], ROW_SELECTOR);
        let mut i: usize = 0;
        while i < found.len()
            invariant
                i <= found.len(),
                rows.len() == i,
                forall|k: int|
                    0 <= k < i ==> (#[trigger] rows@[k]).deep_view() == texts_of(
                        all_within(found@[k], CELL_SELECTOR@),
                    ),
            decreases found.len() - i,
        {
            let cells = find_within(&found[i], CELL_SELECTOR);
            rows.push(element_texts(&cells));
            i += 1;
        }
        assert(rows.deep_view() =~= cells_of(found@));
    } else {
        assert(rows.deep_view() =~= Seq::empty());
    }
    rows
}

/// Reads the children of the first issues container.
fn read_issues(html: &Html) -> (issues: Vec<String>)
    ensures
        issues.deep_view() == issues_in(html),
{
    let containers = find_all(html, ISSUES_SELECTOR);
    if containers.len() > 0 {
        let children = find_within(&containers[0], CHILD_SELECTOR);
        element_texts(&children)
    } else {
        let issues: Vec<String> = Vec::new();
        assert(issues.deep_view() =~= Seq::empty());
        issues
    }
}

/// Reads every paragraph element.
fn read_paragraphs(html: &Html) -> (paragraphs: Vec<Paragraph>)
    ensures
        paragraphs.deep_view() == paragraphs_in(html),
{
    let mut paragraphs: Vec<Paragraph> = Vec::new();
    let found = find_all(html, PARAGRAPH_SELECTOR);
    let mut i: usize = 0;
    while i < found.len()
        invariant
            i <= found.len(),
            paragraphs.len() == i,
            found@ == all_in(html, PARAGRAPH_SELECTOR@),
            forall|k: int|
                0 <= k < i ==> (#[trigger] paragraphs@[k]).deep_view() == paragraph_of(found@[k]),
        decreases found.len() - i,
    {
        let classes = match attribute(&found[i], CLASS_ATTRIBUTE) {
            Some(value) => value,
            None => String::new(),
        };
        paragraphs.push(Paragraph { classes, text: element_text(&found[i]) });
        i += 1;
    }
    assert(paragraphs.deep_view() =~= paragraphs_in(html));
    paragraphs
}

/// Parses `document` and gathers the parts that the record is made from.
/// A part that the page lacks, or that cannot be looked up, comes back empty.
pub fn read_outline(document: &str) -> (outline: PageOutline)
    requires
        can_parse(encode_utf8(document@).len()),
    ensures
        outline@ == outline_of(document@),
{
    let html = parse_document(document);
    PageOutline {
        title: read_title(&html),
        rows: read_rows(&html),
        issues: read_issues(&html),
        paragraphs: read_paragraphs(&html),
    }
}

/// Extracts the record of the judgment from the markup of its page: the
/// record that the rules of the outline make of what the parser finds in the
/// page. A page without the expected parts gives empty fields, never a
/// failure, and the record is tidy whatever the page holds.
pub fn extract_case_info(document: &str) -> (details: CaseDetails)
    requires
        can_parse(encode_utf8(document@).len()),
    ensures
        details@ == case_of(outline_of(document@)),
        is_tidy(details@),
{
    let outline = read_outline(document);
    proof {
        record_of_outline_is_tidy(outline@);
    }
    assemble(&outline)
}

} // verus!
