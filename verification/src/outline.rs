//! What a judgment page holds, as plain text, and the rules that turn it
//! into a record: fields by table row, issues, and the body grouped into
//! sections.

use crate::classes::{element_has_class, has_word};
use crate::record::{table_field_of, CaseDetails, CaseView, SectionView};
use crate::text::{section_number_check, starts_with_digit, trim, trimmed};
use vstd::prelude::*;

verus! {

/// The class that marks a paragraph as the heading of a section.
pub const HEADING_CLASS: &'static str = "Judg-Heading-1";

/// The class that marks a paragraph as part of the body.
pub const BODY_CLASS: &'static str = "Judg-1";

/// One paragraph element: its class attribute (empty where it has none) and
/// its text, as it stands in the page.
#[derive(Debug, Clone)]
pub struct Paragraph {
    pub classes: String,
    pub text: String,
}

/// A paragraph as plain sequences of characters.
pub struct ParagraphView {
    pub classes: Seq<char>,
    pub text: Seq<char>,
}

impl DeepView for Paragraph {
    type V = ParagraphView;

    open spec fn deep_view(&self) -> ParagraphView {
        ParagraphView { classes: self.classes@, text: self.text@ }
    }
}

/// The parts of a page that the record is made from, each list in the order
/// in which the parser yields its elements.
#[derive(Debug, Clone)]
pub struct PageOutline {
    /// The text of the first title element, if there is one.
    pub title: Option<String>,
    /// For each row of the first information table, the text of each of its cells.
    pub rows: Vec<Vec<String>>,
    /// The text of each child element of the first issues container.
    pub issues: Vec<String>,
    /// Every paragraph element of the page.
    pub paragraphs: Vec<Paragraph>,
}

/// An outline as plain sequences of characters.
pub struct OutlineView {
    pub title: Option<Seq<char>>,
    pub rows: Seq<Seq<Seq<char>>>,
    pub issues: Seq<Seq<char>>,
    pub paragraphs: Seq<ParagraphView>,
}

impl View for PageOutline {
    type V = OutlineView;

    open spec fn view(&self) -> OutlineView {
        OutlineView {
            title: self.title.deep_view(),
            rows: self.rows.deep_view(),
            issues: self.issues.deep_view(),
            paragraphs: self.paragraphs.deep_view(),
        }
    }
}

/// The field that row `k` of the table gives: the trimmed text of its third
/// cell, or nothing where the row is missing or has fewer than three cells.
pub open spec fn field_at(rows: Seq<Seq<Seq<char>>>, k: int) -> Seq<char> {
    if 0 <= k < rows.len() && rows[k].len() > 2 {
        trimmed(rows[k][2])
    } else {
        Seq::empty()
    }
}

/// The trimmed texts that are not empty, in order.
pub open spec fn kept_issues(texts: Seq<Seq<char>>) -> Seq<Seq<char>>
    decreases texts.len(),
{
    if texts.len() == 0 {
        Seq::empty()
    } else if trimmed(texts.last()).len() > 0 {
        kept_issues(texts.drop_last()).push(trimmed(texts.last()))
    } else {
        kept_issues(texts.drop_last())
    }
}

/// Where a scan of the paragraphs stands: the sections that are closed, the
/// title of the open one (empty where none is open) and its paragraphs so far.
pub struct ScanState {
    pub done: Seq<SectionView>,
    pub name: Seq<char>,
    pub buffer: Seq<Seq<char>>,
}

/// The closed sections, and the open one after them if there is one.
pub open spec fn flushed(s: ScanState) -> Seq<SectionView> {
    if s.name.len() > 0 {
        s.done.push((s.name, s.buffer))
    } else {
        s.done
    }
}

/// Whether `p` is the heading of a section.
pub open spec fn is_heading(p: ParagraphView) -> bool {
    has_word(p.classes, HEADING_CLASS@)
}

/// Whether `p` is a numbered paragraph of the body.
pub open spec fn is_numbered_body(p: ParagraphView) -> bool {
    has_word(p.classes, BODY_CLASS@) && starts_with_digit(trimmed(p.text))
}

/// The scan after one more paragraph. A heading closes the open section and
/// opens its own with nothing in it, so that what was gathered before it
/// under no section is dropped; a heading without text opens none. A
/// numbered body paragraph joins the paragraphs gathered so far; any other
/// paragraph changes nothing.
pub open spec fn step(s: ScanState, p: ParagraphView) -> ScanState {
    if is_heading(p) {
        ScanState { done: flushed(s), name: trimmed(p.text), buffer: Seq::empty() }
    } else if is_numbered_body(p) {
        ScanState { done: s.done, name: s.name, buffer: s.buffer.push(trimmed(p.text)) }
    } else {
        s
    }
}

/// The scan after all of `paragraphs`, from the start of the page.
pub open spec fn scanned(paragraphs: Seq<ParagraphView>) -> ScanState
    decreases paragraphs.len(),
{
    if paragraphs.len() == 0 {
        ScanState { done: Seq::empty(), name: Seq::empty(), buffer: Seq::empty() }
    } else {
        step(scanned(paragraphs.drop_last()), paragraphs.last())
    }
}

/// The sections of the body that `paragraphs` make.
pub open spec fn sections_of(paragraphs: Seq<ParagraphView>) -> Seq<SectionView> {
    flushed(scanned(paragraphs))
}

/// The record that a page with this outline gives.
pub open spec fn case_of(o: OutlineView) -> CaseView {
    CaseView {
        title: match o.title {
            Some(t) => trimmed(t),
            None => Seq::empty(),
        },
        number: field_at(o.rows, 0),
        date: field_at(o.rows, 1),
        tribunal_court: field_at(o.rows, 2),
        coram: field_at(o.rows, 3),
        counsel: field_at(o.rows, 4),
        parties: field_at(o.rows, 5),
        legal_issues: kept_issues(o.issues),
        body: sections_of(o.paragraphs),
    }
}

/// The field that row `k` of the table gives.
pub fn table_field(rows: &Vec<Vec<String>>, k: usize) -> (field: String)
    ensures
        field@ == field_at(rows.deep_view(), k as int),
{
    if k < rows.len() && rows[k].len() > 2 {
        assert(rows.deep_view()[k as int] == rows@[k as int].deep_view());
        assert(rows@[k as int].deep_view()[2] == rows@[k as int]@[2]@);
        trim(rows[k][2].as_str())
    } else {
        String::new()
    }
}

/// Trims each text and keeps those that are not empty.
pub fn collect_issues(texts: &Vec<String>) -> (issues: Vec<String>)
    ensures
        issues.deep_view() == kept_issues(texts.deep_view()),
{
    let mut issues: Vec<String> = Vec::new();
    let mut i: usize = 0;
    assert(issues.deep_view() =~= Seq::empty());
    while i < texts.len()
        invariant
            i <= texts.len(),
            issues.deep_view() == kept_issues(texts.deep_view().take(i as int)),
        decreases texts.len() - i,
    {
        let ghost before = issues.deep_view();
        let text = trim(texts[i].as_str());
        assert(texts.deep_view().take(i + 1).drop_last() =~= texts.deep_view().take(i as int));
        assert(texts.deep_view().take(i + 1).last() == texts@[i as int]@);
        if !text.as_str().is_empty() {
            issues.push(text);
            assert(issues.deep_view() =~= before.push(text@));
        }
        i += 1;
    }
    assert(texts.deep_view().take(i as int) =~= texts.deep_view());
    issues
}

/// Groups the numbered body paragraphs under the headings that precede them.
pub fn group_sections(paragraphs: &Vec<Paragraph>) -> (body: Vec<(String, Vec<String>)>)
    ensures
        body.deep_view() == sections_of(paragraphs.deep_view()),
{
    let mut done: Vec<(String, Vec<String>)> = Vec::new();
    let mut name = String::new();
    let mut buffer: Vec<String> = Vec::new();
    let mut i: usize = 0;
    assert(done.deep_view() =~= Seq::empty());
    assert(buffer.deep_view() =~= Seq::empty());
    while i < paragraphs.len()
        invariant
            i <= paragraphs.len(),
            scanned(paragraphs.deep_view().take(i as int)) == (ScanState {
                done: done.deep_view(),
                name: name@,
                buffer: buffer.deep_view(),
            }),
        decreases paragraphs.len() - i,
    {
        let ghost done_before = done.deep_view();
        let ghost buffer_before = buffer.deep_view();
        let ghost name_before = name@;
        assert(paragraphs.deep_view().take(i + 1).drop_last() =~= paragraphs.deep_view().take(
            i as int,
        ));
        assert(paragraphs.deep_view().take(i + 1).last() == paragraphs@[i as int].deep_view());
        let paragraph = &paragraphs[i];
        let text = trim(paragraph.text.as_str());
        if element_has_class(paragraph.classes.as_str(), HEADING_CLASS) {
            if !name.as_str().is_empty() {
                done.push((name, buffer));
                assert(done.deep_view() =~= done_before.push((name_before, buffer_before)));
            }
            name = text;
            buffer = Vec::new();
            assert(buffer.deep_view() =~= Seq::empty());
        } else if element_has_class(paragraph.classes.as_str(), BODY_CLASS)
            && section_number_check(text.as_str()) {
            buffer.push(text);
            assert(buffer.deep_view() =~= buffer_before.push(text@));
        }
        i += 1;
    }
    assert(paragraphs.deep_view().take(i as int) =~= paragraphs.deep_view());
    let ghost done_before = done.deep_view();
    let ghost buffer_before = buffer.deep_view();
    let ghost name_before = name@;
    if !name.as_str().is_empty() {
        done.push((name, buffer));
        assert(done.deep_view() =~= done_before.push((name_before, buffer_before)));
    }
    done
}

/// Makes the record from the parts of the page.
pub fn assemble(outline: &PageOutline) -> (details: CaseDetails)
    ensures
        details@ == case_of(outline@),
{
    let case_title = match &outline.title {
        Some(t) => trim(t.as_str()),
        None => String::new(),
    };
    CaseDetails {
        case_title,
        case_number: table_field(&outline.rows, 0),
        case_date: table_field(&outline.rows, 1),
        case_tribunal_court: table_field(&outline.rows, 2),
        case_coram: table_field(&outline.rows, 3),
        case_counsel: table_field(&outline.rows, 4),
        case_parties: table_field(&outline.rows, 5),
        case_legal_issues: collect_issues(&outline.issues),
        case_body: group_sections(&outline.paragraphs),
    }
}


/// Each of the six fields comes from the row of its own index: where that
/// row has three cells or more it is the trimmed text of the third, and where
/// the table has no such row the field is empty.
pub proof fn fields_follow_rows(o: OutlineView, k: int)
    requires
        0 <= k < 6,
    ensures
        table_field_of(case_of(o), k) == field_at(o.rows, k),
        k < o.rows.len() && o.rows[k].len() >= 3 ==> table_field_of(case_of(o), k) == trimmed(
            o.rows[k][2],
        ),
        k >= o.rows.len() ==> table_field_of(case_of(o), k) == Seq::<char>::empty(),
{
}

/// Whether every paragraph of every section begins with a digit.
pub open spec fn numbered_only(body: Seq<SectionView>) -> bool {
    forall|i: int, j: int|
        0 <= i < body.len() && 0 <= j < body[i].1.len() ==> starts_with_digit(
            #[trigger] body[i].1[j],
        )
}

/// Whether every section has a title.
pub open spec fn titled_only(body: Seq<SectionView>) -> bool {
    forall|i: int| 0 <= i < body.len() ==> (#[trigger] body[i]).0.len() > 0
}

/// A scan closes only sections with a title and gathers only numbered paragraphs.
proof fn scan_keeps_numbered(paragraphs: Seq<ParagraphView>)
    ensures
        numbered_only(scanned(paragraphs).done),
        titled_only(scanned(paragraphs).done),
        forall|j: int|
            0 <= j < scanned(paragraphs).buffer.len() ==> starts_with_digit(
                #[trigger] scanned(paragraphs).buffer[j],
            ),
    decreases paragraphs.len(),
{
    if paragraphs.len() > 0 {
        scan_keeps_numbered(paragraphs.drop_last());
    }
}

/// None of the issues that are kept is empty.
proof fn kept_issues_have_text(texts: Seq<Seq<char>>)
    ensures
        forall|i: int|
            0 <= i < kept_issues(texts).len() ==> (#[trigger] kept_issues(texts)[i]).len() > 0,
    decreases texts.len(),
{
    if texts.len() > 0 {
        kept_issues_have_text(texts.drop_last());
        let rest = kept_issues(texts.drop_last());
        assert forall|i: int| 0 <= i < kept_issues(texts).len() implies (#[trigger] kept_issues(
            texts,
        )[i]).len() > 0 by {
            if i < rest.len() {
                assert(kept_issues(texts)[i] == rest[i]);
            }
        }
    }
}

/// What holds of every record that a page gives: no issue is empty, every
/// section has a title, and every paragraph of the body begins with a digit.
pub open spec fn is_tidy(c: CaseView) -> bool {
    &&& forall|i: int| 0 <= i < c.legal_issues.len() ==> (#[trigger] c.legal_issues[i]).len() > 0
    &&& titled_only(c.body)
    &&& numbered_only(c.body)
}

/// The record of any outline is tidy.
pub proof fn record_of_outline_is_tidy(o: OutlineView)
    ensures
        is_tidy(case_of(o)),
{
    kept_issues_have_text(o.issues);
    scan_keeps_numbered(o.paragraphs);
}

/// A paragraph whose trimmed text does not begin with a digit stands in no
/// section, whatever its classes: every paragraph of the body begins with one.
pub proof fn body_paragraphs_are_numbered(paragraphs: Seq<ParagraphView>)
    ensures
        numbered_only(sections_of(paragraphs)),
{
    scan_keeps_numbered(paragraphs);
}

/// A paragraph that is no heading and whose trimmed text does not begin with
/// a digit leaves the scan as it was.
pub proof fn unnumbered_paragraph_is_skipped(s: ScanState, p: ParagraphView)
    requires
        !is_heading(p),
        !starts_with_digit(trimmed(p.text)),
    ensures
        step(s, p) == s,
{
}

/// Whether none of the paragraphs is a heading.
pub open spec fn no_heading(paragraphs: Seq<ParagraphView>) -> bool {
    forall|i: int| 0 <= i < paragraphs.len() ==> !is_heading(#[trigger] paragraphs[i])
}

/// Without a heading a scan closes no section and opens none.
proof fn scan_without_heading(paragraphs: Seq<ParagraphView>)
    requires
        no_heading(paragraphs),
    ensures
        scanned(paragraphs).done.len() == 0,
        scanned(paragraphs).name.len() == 0,
    decreases paragraphs.len(),
{
    if paragraphs.len() > 0 {
        assert(no_heading(paragraphs.drop_last())) by {
            assert forall|i: int| 0 <= i < paragraphs.drop_last().len() implies !is_heading(
                #[trigger] paragraphs.drop_last()[i],
            ) by {
                assert(paragraphs.drop_last()[i] == paragraphs[i]);
            }
        }
        scan_without_heading(paragraphs.drop_last());
        assert(!is_heading(paragraphs[paragraphs.len() - 1]));
    }
}

/// Paragraphs with no heading among them make no section.
pub proof fn no_heading_no_section(paragraphs: Seq<ParagraphView>)
    requires
        no_heading(paragraphs),
    ensures
        sections_of(paragraphs).len() == 0,
{
    scan_without_heading(paragraphs);
}

/// The paragraphs that stand before the first heading are dropped: the
/// sections are those of the paragraphs from that heading on.
pub proof fn paragraphs_before_first_heading_are_dropped(
    before: Seq<ParagraphView>,
    rest: Seq<ParagraphView>,
)
    requires
        no_heading(before),
    ensures
        sections_of(before + rest) == sections_of(rest),
{
    scans_agree_after_heading(before, rest);
}

/// Paragraphs without a heading in front change nothing but the paragraphs
/// gathered while no section is open.
proof fn scans_agree_after_heading(before: Seq<ParagraphView>, rest: Seq<ParagraphView>)
    requires
        no_heading(before),
    ensures
        scanned(before + rest).done == scanned(rest).done,
        scanned(before + rest).name == scanned(rest).name,
        scanned(rest).name.len() > 0 ==> scanned(before + rest).buffer == scanned(rest).buffer,
    decreases rest.len(),
{
    if rest.len() == 0 {
        assert(before + rest =~= before);
        scan_without_heading(before);
        assert(scanned(before).done =~= scanned(rest).done);
        assert(scanned(before).name =~= scanned(rest).name);
    } else {
        scans_agree_after_heading(before, rest.drop_last());
        assert((before + rest).drop_last() =~= before + rest.drop_last());
        assert((before + rest).last() == rest.last());
    }
}

/// The titles of the sections, in order.
pub open spec fn titles(body: Seq<SectionView>) -> Seq<Seq<char>> {
    Seq::new(body.len(), |i: int| body[i].0)
}

/// The trimmed texts of the headings that are not empty, in order.
pub open spec fn heading_titles(paragraphs: Seq<ParagraphView>) -> Seq<Seq<char>>
    decreases paragraphs.len(),
{
    if paragraphs.len() == 0 {
        Seq::empty()
    } else if is_heading(paragraphs.last()) && trimmed(paragraphs.last().text).len() > 0 {
        heading_titles(paragraphs.drop_last()).push(trimmed(paragraphs.last().text))
    } else {
        heading_titles(paragraphs.drop_last())
    }
}

/// The sections stand in the order of their headings: their titles are the
/// texts of the headings, one section for each heading with a text.
pub proof fn sections_follow_headings(paragraphs: Seq<ParagraphView>)
    ensures
        titles(sections_of(paragraphs)) == heading_titles(paragraphs),
    decreases paragraphs.len(),
{
    if paragraphs.len() == 0 {
        assert(titles(sections_of(paragraphs)) =~= heading_titles(paragraphs));
    } else {
        sections_follow_headings(paragraphs.drop_last());
        let s = scanned(paragraphs.drop_last());
        let p = paragraphs.last();
        assert(titles(flushed(s)) == heading_titles(paragraphs.drop_last()));
        assert(titles(flushed(step(s, p))) =~= heading_titles(paragraphs));
    }
}


/// The places of the headings among the paragraphs, in order.
pub open spec fn heading_places(paragraphs: Seq<ParagraphView>) -> Seq<int>
    decreases paragraphs.len(),
{
    if paragraphs.len() == 0 {
        Seq::empty()
    } else if is_heading(paragraphs.last()) {
        heading_places(paragraphs.drop_last()).push(paragraphs.len() - 1)
    } else {
        heading_places(paragraphs.drop_last())
    }
}

/// The trimmed texts, in order, of the numbered body paragraphs that are no
/// headings, among those at the places from `from` up to, not including, `to`.
pub open spec fn body_between(paragraphs: Seq<ParagraphView>, from: int, to: int) -> Seq<
    Seq<char>,
>
    decreases to - from,
{
    if to <= from {
        Seq::empty()
    } else if !is_heading(paragraphs[to - 1]) && is_numbered_body(paragraphs[to - 1]) {
        body_between(paragraphs, from, to - 1).push(trimmed(paragraphs[to - 1].text))
    } else {
        body_between(paragraphs, from, to - 1)
    }
}

/// The place at which the section of heading number `i` ends: the place of
/// the next heading, or the end of the paragraphs.
pub open spec fn section_end(paragraphs: Seq<ParagraphView>, i: int) -> int {
    if i + 1 < heading_places(paragraphs).len() {
        heading_places(paragraphs)[i + 1]
    } else {
        paragraphs.len() as int
    }
}

/// Whether every heading has a text.
pub open spec fn headings_have_text(paragraphs: Seq<ParagraphView>) -> bool {
    forall|i: int|
        0 <= i < paragraphs.len() && is_heading(#[trigger] paragraphs[i]) ==> trimmed(
            paragraphs[i].text,
        ).len() > 0
}

/// The section that heading number `i` opens: its text as the title, and the
/// numbered body paragraphs between it and the end of its section.
pub open spec fn section_at(paragraphs: Seq<ParagraphView>, i: int) -> SectionView {
    let place = heading_places(paragraphs)[i];
    (
        trimmed(paragraphs[place].text),
        body_between(paragraphs, place + 1, section_end(paragraphs, i)),
    )
}

proof fn body_between_ignores_last(paragraphs: Seq<ParagraphView>, from: int, to: int)
    requires
        0 <= from,
        to < paragraphs.len(),
    ensures
        body_between(paragraphs.drop_last(), from, to) == body_between(paragraphs, from, to),
    decreases to - from,
{
    if to > from {
        body_between_ignores_last(paragraphs, from, to - 1);
        assert(paragraphs.drop_last()[to - 1] == paragraphs[to - 1]);
    }
}

proof fn scan_in_closed_form(paragraphs: Seq<ParagraphView>)
    requires
        headings_have_text(paragraphs),
    ensures
        forall|i: int|
            0 <= i < heading_places(paragraphs).len() ==> 0 <= #[trigger] heading_places(
                paragraphs,
            )[i] < paragraphs.len() && is_heading(paragraphs[heading_places(paragraphs)[i]]),
        heading_places(paragraphs).len() == 0 ==> scanned(paragraphs).done.len() == 0 && scanned(
            paragraphs,
        ).name.len() == 0,
        heading_places(paragraphs).len() > 0 ==> {
            let last = heading_places(paragraphs).len() - 1;
            &&& scanned(paragraphs).done.len() == last
            &&& scanned(paragraphs).name.len() > 0
            &&& (scanned(paragraphs).name, scanned(paragraphs).buffer) == section_at(
                paragraphs,
                last,
            )
        },
        forall|i: int|
            0 <= i < heading_places(paragraphs).len() - 1 ==> #[trigger] scanned(
                paragraphs,
            ).done[i] == section_at(paragraphs, i),
    decreases paragraphs.len(),
{
    if paragraphs.len() > 0 {
        let before = paragraphs.drop_last();
        let p = paragraphs.last();
        let n = paragraphs.len() as int;
        let h0 = heading_places(before);
        let h = heading_places(paragraphs);
        let s0 = scanned(before);
        let s = scanned(paragraphs);
        assert(headings_have_text(before)) by {
            assert forall|i: int| 0 <= i < before.len() && is_heading(
                #[trigger] before[i],
            ) implies trimmed(before[i].text).len() > 0 by {
                assert(before[i] == paragraphs[i]);
            }
        }
        scan_in_closed_form(before);
        assert(p == paragraphs[n - 1]);
        assert forall|i: int| 0 <= i < h0.len() implies h[i] == h0[i] && before[h0[i]]
            == paragraphs[h0[i]] by {}
        assert forall|i: int| 0 <= i < h.len() implies 0 <= #[trigger] h[i] < n && is_heading(
            paragraphs[h[i]],
        ) by {
            if i < h0.len() {
                assert(h[i] == h0[i]);
            }
        }
        // the sections that the shorter scan had closed stay as they were
        assert forall|i: int| 0 <= i < h0.len() - 1 implies section_at(before, i) == section_at(
            paragraphs,
            i,
        ) by {
            assert(h[i] == h0[i]);
            assert(h[i + 1] == h0[i + 1]);
            body_between_ignores_last(paragraphs, h0[i] + 1, h0[i + 1]);
        }
        if h0.len() > 0 {
            let last0 = h0.len() - 1;
            assert(h[last0] == h0[last0]);
            body_between_ignores_last(paragraphs, h0[last0] + 1, n - 1);
        }
        if is_heading(p) {
            assert(h =~= h0.push(n - 1));
            assert(trimmed(p.text).len() > 0);
            assert(s.buffer =~= body_between(paragraphs, n, n));
            assert forall|i: int| 0 <= i < h.len() - 1 implies #[trigger] s.done[i] == section_at(
                paragraphs,
                i,
            ) by {
                if i < h0.len() - 1 {
                    assert(s0.done[i] == section_at(before, i));
                    assert(s.done[i] == s0.done[i]);
                }
            }
        } else {
            assert(h == h0);
            assert forall|i: int| 0 <= i < h.len() - 1 implies #[trigger] s.done[i] == section_at(
                paragraphs,
                i,
            ) by {
                assert(s0.done[i] == section_at(before, i));
            }
        }
    }
}

/// Where every heading has a text, the body is one section for each
/// heading, in the order of the headings: its title is the trimmed text of
/// the heading, and its paragraphs are the trimmed texts, in order, of the
/// numbered body paragraphs that stand after the heading and before the
/// next one, or the end. A heading with none of them gives a section
/// without paragraphs, and what stands before the first heading is in no
/// section.
pub proof fn sections_in_closed_form(paragraphs: Seq<ParagraphView>)
    requires
        headings_have_text(paragraphs),
    ensures
        sections_of(paragraphs).len() == heading_places(paragraphs).len(),
        forall|i: int|
            0 <= i < heading_places(paragraphs).len() ==> {
                &&& 0 <= heading_places(paragraphs)[i] < paragraphs.len()
                &&& is_heading(paragraphs[heading_places(paragraphs)[i]])
                &&& #[trigger] sections_of(paragraphs)[i] == section_at(paragraphs, i)
            },
{
    scan_in_closed_form(paragraphs);
    let h = heading_places(paragraphs);
    let s = scanned(paragraphs);
    assert forall|i: int| 0 <= i < h.len() implies {
        &&& 0 <= h[i] < paragraphs.len()
        &&& is_heading(paragraphs[h[i]])
        &&& #[trigger] sections_of(paragraphs)[i] == section_at(paragraphs, i)
    } by {
        if i < h.len() - 1 {
            assert(s.done[i] == section_at(paragraphs, i));
        }
    }
}

} // verus!
