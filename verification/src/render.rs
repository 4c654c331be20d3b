//! Rendering a record as one self-contained page.

use crate::page::joined;
use crate::record::{CaseDetails, CaseView, SectionView};
use crate::template::{
    BEFORE_CORAM, BEFORE_COUNSEL, BEFORE_DATE, BEFORE_ISSUES, BEFORE_NUMBER, BEFORE_PARTIES,
    BEFORE_PAYLOAD, BEFORE_SECTIONS, BEFORE_TRIBUNAL, PAGE_HEAD, PAGE_TAIL,
};
use crate::text::{
    decimal, digit_char, escaped, escaped_is_markup_free, html_escape, is_markup, push_decimal,
    sanitise_paragraph, sanitised,
};
use vstd::prelude::*;

verus! {

/// One item of the list of legal issues.
pub open spec fn issue_html(issue: Seq<char>) -> Seq<char> {
    "<li>"@ + escaped(issue) + "</li>"@
}

/// The items of the list of legal issues, in order.
pub open spec fn issues_html(issues: Seq<Seq<char>>) -> Seq<char>
    decreases issues.len(),
{
    if issues.len() == 0 {
        Seq::empty()
    } else {
        issues_html(issues.drop_last()) + issue_html(issues.last())
    }
}

/// A paragraph of the body under the number `n`: its own number is taken
/// off, the rest is escaped.
pub open spec fn numbered_line(n: nat, paragraph: Seq<char>) -> Seq<char> {
    "<p>"@ + decimal(n) + ".&emsp;"@ + escaped(sanitised(paragraph)) + "</p>"@
}

/// The paragraphs under the numbers `start + 1`, `start + 2`, and so on.
pub open spec fn numbered(paragraphs: Seq<Seq<char>>, start: nat) -> Seq<char>
    decreases paragraphs.len(),
{
    if paragraphs.len() == 0 {
        Seq::empty()
    } else {
        numbered(paragraphs.drop_last(), start) + numbered_line(
            start + paragraphs.len(),
            paragraphs.last(),
        )
    }
}

/// The number of paragraphs in all the sections of `body`.
pub open spec fn paragraph_count(body: Seq<SectionView>) -> nat
    decreases body.len(),
{
    if body.len() == 0 {
        0
    } else {
        paragraph_count(body.drop_last()) + body.last().1.len()
    }
}

/// One collapsible block: the title of the section and its paragraphs, the
/// first of them under the number `start + 1`.
pub open spec fn section_html(section: SectionView, start: nat) -> Seq<char> {
    "<details><summary>"@ + escaped(section.0) + "</summary><p>"@ + numbered(section.1, start)
        + "</p></details>"@
}

/// The blocks of all sections, in order. The numbers of a section go on from
/// the last number of the section before it.
pub open spec fn sections_html(body: Seq<SectionView>) -> Seq<char>
    decreases body.len(),
{
    if body.len() == 0 {
        Seq::empty()
    } else {
        sections_html(body.drop_last()) + section_html(
            body.last(),
            paragraph_count(body.drop_last()),
        )
    }
}

/// The page up to the payload.
pub open spec fn page_before_payload(c: CaseView) -> Seq<char> {
    PAGE_HEAD@ + escaped(c.title) + BEFORE_NUMBER@ + escaped(c.number) + BEFORE_DATE@ + escaped(
        c.date,
    ) + BEFORE_TRIBUNAL@ + escaped(c.tribunal_court) + BEFORE_CORAM@ + escaped(c.coram)
        + BEFORE_COUNSEL@ + escaped(c.counsel) + BEFORE_PARTIES@ + escaped(c.parties)
        + BEFORE_ISSUES@ + issues_html(c.legal_issues) + BEFORE_SECTIONS@ + sections_html(c.body)
        + BEFORE_PAYLOAD@
}

/// The whole page for the record `c` and the encoded original `payload`,
/// which stands between two quotes in the script.
pub open spec fn rendered(c: CaseView, payload: Seq<char>) -> Seq<char> {
    page_before_payload(c) + payload + "';"@ + PAGE_TAIL@
}

/// Renders the items of the list of legal issues.
fn render_issues(issues: &Vec<String>) -> (out: String)
    ensures
        out@ == issues_html(issues.deep_view()),
{
    let mut out = String::new();
    let mut i: usize = 0;
    while i < issues.len()
        invariant
            i <= issues.len(),
            out@ == issues_html(issues.deep_view().take(i as int)),
        decreases issues.len() - i,
    {
        assert(issues.deep_view().take(i + 1).drop_last() =~= issues.deep_view().take(i as int));
        assert(issues.deep_view().take(i + 1).last() == issues@[i as int]@);
        let mut item = String::from_str("<li>");
        item.append(html_escape(issues[i].as_str()).as_str());
        item.append("</li>");
        out.append(item.as_str());
        i += 1;
    }
    assert(issues.deep_view().take(i as int) =~= issues.deep_view());
    out
}

/// Renders one paragraph under the number `n`.
fn render_line(n: u128, paragraph: &str) -> (out: String)
    ensures
        out@ == numbered_line(n as nat, paragraph@),
{
    let mut out = String::from_str("<p>");
    push_decimal(&mut out, n);
    out.append(".&emsp;");
    out.append(html_escape(sanitise_paragraph(paragraph).as_str()).as_str());
    out.append("</p>");
    out
}

/// Renders the paragraphs of one section, the first under `start + 1`.
fn render_paragraphs(paragraphs: &Vec<String>, start: u128) -> (out: String)
    requires
        start + paragraphs.len() <= u128::MAX,
    ensures
        out@ == numbered(paragraphs.deep_view(), start as nat),
{
    let mut out = String::new();
    let mut i: usize = 0;
    while i < paragraphs.len()
        invariant
            i <= paragraphs.len(),
            start + paragraphs.len() <= u128::MAX,
            out@ == numbered(paragraphs.deep_view().take(i as int), start as nat),
        decreases paragraphs.len() - i,
    {
        assert(paragraphs.deep_view().take(i + 1).drop_last() =~= paragraphs.deep_view().take(
            i as int,
        ));
        assert(paragraphs.deep_view().take(i + 1).last() == paragraphs@[i as int]@);
        let n: u128 = start + (i as u128) + 1;
        out.append(render_line(n, paragraphs[i].as_str()).as_str());
        i += 1;
    }
    assert(paragraphs.deep_view().take(i as int) =~= paragraphs.deep_view());
    out
}

/// Renders one section as a collapsible block.
fn render_section(title: &str, paragraphs: &Vec<String>, start: u128) -> (out: String)
    requires
        start + paragraphs.len() <= u128::MAX,
    ensures
        out@ == section_html((title@, paragraphs.deep_view()), start as nat),
{
    let mut out = String::from_str("<details><summary>");
    out.append(html_escape(title).as_str());
    out.append("</summary><p>");
    out.append(render_paragraphs(paragraphs, start).as_str());
    out.append("</p></details>");
    out
}

/// Renders all sections, counting the paragraphs through.
fn render_sections(body: &Vec<(String, Vec<String>)>) -> (out: String)
    ensures
        out@ == sections_html(body.deep_view()),
{
    let mut out = String::new();
    let mut count: u128 = 0;
    let mut i: usize = 0;
    while i < body.len()
        invariant
            i <= body.len(),
            count == paragraph_count(body.deep_view().take(i as int)),
            count <= i * 0xFFFF_FFFF_FFFF_FFFF,
            out@ == sections_html(body.deep_view().take(i as int)),
        decreases body.len() - i,
    {
        assert(body.deep_view().take(i + 1).drop_last() =~= body.deep_view().take(i as int));
        assert(body.deep_view().take(i + 1).last() == body@[i as int].deep_view());
        let section = &body[i];
        out.append(render_section(section.0.as_str(), &section.1, count).as_str());
        count = count + (section.1.len() as u128);
        i += 1;
    }
    assert(body.deep_view().take(i as int) =~= body.deep_view());
    out
}

/// Renders the record and the encoded original page as one page that can be
/// toggled between the two.
pub fn build_toggleable_html(details: &CaseDetails, original_html_base64: &str) -> (page: String)
    ensures
        page@ == rendered(details@, original_html_base64@),
{
    let mut page = String::from_str(PAGE_HEAD);
    page.append(html_escape(details.case_title.as_str()).as_str());
    page.append(BEFORE_NUMBER);
    page.append(html_escape(details.case_number.as_str()).as_str());
    page.append(BEFORE_DATE);
    page.append(html_escape(details.case_date.as_str()).as_str());
    page.append(BEFORE_TRIBUNAL);
    page.append(html_escape(details.case_tribunal_court.as_str()).as_str());
    page.append(BEFORE_CORAM);
    page.append(html_escape(details.case_coram.as_str()).as_str());
    page.append(BEFORE_COUNSEL);
    page.append(html_escape(details.case_counsel.as_str()).as_str());
    page.append(BEFORE_PARTIES);
    page.append(html_escape(details.case_parties.as_str()).as_str());
    page.append(BEFORE_ISSUES);
    page.append(render_issues(&details.case_legal_issues).as_str());
    page.append(BEFORE_SECTIONS);
    page.append(render_sections(&details.case_body).as_str());
    page.append(BEFORE_PAYLOAD);
    page.append(original_html_base64);
    page.append("';");
    page.append(PAGE_TAIL);
    page
}


/// The first paragraph of the page stands under the number 1.
pub proof fn numbering_starts_at_one(paragraph: Seq<char>)
    ensures
        numbered(seq![paragraph], 0) == numbered_line(1, paragraph),
{
    assert(seq![paragraph].drop_last() =~= Seq::<Seq<char>>::empty());
    assert(numbered(Seq::<Seq<char>>::empty(), 0) =~= Seq::<char>::empty());
    assert(seq![paragraph].last() == paragraph);
    assert(numbered(seq![paragraph], 0) =~= numbered_line(1, paragraph));
}

/// The numbers go up by one from paragraph to paragraph, whatever number a
/// paragraph had in the page: after the paragraphs `a`, the paragraphs `b`
/// go on from the number that `a` ended with.
pub proof fn numbering_continues(a: Seq<Seq<char>>, b: Seq<Seq<char>>, start: nat)
    ensures
        numbered(a + b, start) == numbered(a, start) + numbered(b, start + a.len()),
    decreases b.len(),
{
    if b.len() == 0 {
        assert(a + b =~= a);
        assert(numbered(a, start) + numbered(b, start + a.len()) =~= numbered(a, start));
    } else {
        numbering_continues(a, b.drop_last(), start);
        assert((a + b).drop_last() =~= a + b.drop_last());
        assert(numbered(a + b, start) =~= numbered(a, start) + numbered(b, start + a.len()));
    }
}

/// The numbers do not start again at a new section: the section that
/// follows the sections `body` begins after all their paragraphs.
pub proof fn numbering_crosses_sections(body: Seq<SectionView>, next: SectionView)
    ensures
        sections_html(body.push(next)) == sections_html(body) + section_html(
            next,
            paragraph_count(body),
        ),
        paragraph_count(body.push(next)) == paragraph_count(body) + next.1.len(),
{
    assert(body.push(next).drop_last() =~= body);
}

/// The payload stands in the page as it was given, after the text before
/// it, and the quote that closes it follows. Where the payload holds no
/// quote itself, as no base64 text does, that quote is the first one after
/// the payload begins: what stands between the quotes is the payload.
pub proof fn payload_is_embedded(c: CaseView, payload: Seq<char>)
    ensures
        rendered(c, payload).subrange(
            page_before_payload(c).len() as int,
            (page_before_payload(c).len() + payload.len()) as int,
        ) == payload,
        rendered(c, payload).len() == page_before_payload(c).len() + payload.len() + 2
            + PAGE_TAIL@.len(),
        rendered(c, payload)[(page_before_payload(c).len() + payload.len()) as int] == '\'',
        rendered(c, payload)[(page_before_payload(c).len() + payload.len() + 1) as int] == ';',
        (forall|i: int| 0 <= i < payload.len() ==> payload[i] != '\'') ==> forall|k: int|
            page_before_payload(c).len() <= k < page_before_payload(c).len() + payload.len()
                ==> #[trigger] rendered(c, payload)[k] != '\'',
{
    reveal_strlit("';");
    let before = page_before_payload(c);
    let page = rendered(c, payload);
    assert(page.subrange(before.len() as int, (before.len() + payload.len()) as int) =~= payload);
    assert forall|k: int| before.len() <= k < before.len() + payload.len() implies page[k]
        == payload[k - before.len()] by {}
}

/// All the paragraphs of the body, section by section, in order.
pub open spec fn all_paragraphs(body: Seq<SectionView>) -> Seq<Seq<char>>
    decreases body.len(),
{
    if body.len() == 0 {
        Seq::empty()
    } else {
        all_paragraphs(body.drop_last()) + body.last().1
    }
}

/// The rendered lines of `paragraphs`, one for each, the first under the
/// number `start + 1`.
pub open spec fn lines_of(paragraphs: Seq<Seq<char>>, start: nat) -> Seq<Seq<char>> {
    Seq::new(paragraphs.len(), |j: int| numbered_line((start + j + 1) as nat, paragraphs[j]))
}

/// The rendered lines of the whole body as the sections lay them out: those
/// of each section, numbered on from the paragraphs of the sections before.
pub open spec fn section_lines(body: Seq<SectionView>) -> Seq<Seq<char>>
    decreases body.len(),
{
    if body.len() == 0 {
        Seq::empty()
    } else {
        section_lines(body.drop_last()) + lines_of(
            body.last().1,
            paragraph_count(body.drop_last()),
        )
    }
}

/// What a section holds between its title and its end is its lines, one
/// after the other, and nothing else.
pub proof fn numbered_is_its_lines(paragraphs: Seq<Seq<char>>, start: nat)
    ensures
        numbered(paragraphs, start) == joined(lines_of(paragraphs, start)),
    decreases paragraphs.len(),
{
    if paragraphs.len() > 0 {
        numbered_is_its_lines(paragraphs.drop_last(), start);
        assert(lines_of(paragraphs, start).drop_last() =~= lines_of(
            paragraphs.drop_last(),
            start,
        ));
    }
}

/// The page holds one line for each paragraph of the body, in the order of
/// the body, and the line of the paragraph at place `k`, counted from 0
/// through all sections, carries the number `k + 1`: no number is left out,
/// none comes twice, none starts again at a section, and none depends on
/// what the paragraph itself holds.
pub proof fn numbering_is_sequential(body: Seq<SectionView>)
    ensures
        all_paragraphs(body).len() == paragraph_count(body),
        section_lines(body) == lines_of(all_paragraphs(body), 0),
        forall|k: int|
            0 <= k < paragraph_count(body) ==> #[trigger] section_lines(body)[k] == numbered_line(
                (k + 1) as nat,
                all_paragraphs(body)[k],
            ),
    decreases body.len(),
{
    if body.len() == 0 {
        assert(section_lines(body) =~= lines_of(all_paragraphs(body), 0));
    } else {
        numbering_is_sequential(body.drop_last());
        assert(section_lines(body) =~= lines_of(all_paragraphs(body), 0));
    }
}


/// How often `c` stands in `s`.
pub open spec fn count_of(s: Seq<char>, c: char) -> nat
    decreases s.len(),
{
    if s.len() == 0 {
        0
    } else if s.last() == c {
        count_of(s.drop_last(), c) + 1
    } else {
        count_of(s.drop_last(), c)
    }
}

/// `n` empty texts.
pub open spec fn blank(n: nat) -> Seq<Seq<char>> {
    Seq::new(n, |i: int| Seq::<char>::empty())
}

/// The body with every title and every paragraph emptied.
pub open spec fn emptied_body(body: Seq<SectionView>) -> Seq<SectionView> {
    Seq::new(body.len(), |i: int| (Seq::<char>::empty(), blank(body[i].1.len())))
}

/// The record with every text emptied: as many issues, sections and
/// paragraphs in each section as `c` has, and nothing in any of them.
pub open spec fn emptied(c: CaseView) -> CaseView {
    CaseView {
        title: Seq::empty(),
        number: Seq::empty(),
        date: Seq::empty(),
        tribunal_court: Seq::empty(),
        coram: Seq::empty(),
        counsel: Seq::empty(),
        parties: Seq::empty(),
        legal_issues: blank(c.legal_issues.len()),
        body: emptied_body(c.body),
    }
}

/// A character stands in two texts put together as often as in the one and
/// in the other.
pub broadcast proof fn count_of_sum(a: Seq<char>, b: Seq<char>, c: char)
    ensures
        #[trigger] count_of(a + b, c) == count_of(a, c) + count_of(b, c),
    decreases b.len(),
{
    if b.len() == 0 {
        assert(a + b =~= a);
    } else {
        count_of_sum(a, b.drop_last(), c);
        assert((a + b).drop_last() =~= a + b.drop_last());
    }
}

proof fn count_of_absent(s: Seq<char>, c: char)
    requires
        forall|i: int| 0 <= i < s.len() ==> s[i] != c,
    ensures
        count_of(s, c) == 0,
    decreases s.len(),
{
    if s.len() > 0 {
        count_of_absent(s.drop_last(), c);
    }
}

proof fn escaped_counts_none(s: Seq<char>, c: char)
    requires
        is_markup(c),
    ensures
        count_of(escaped(s), c) == 0,
{
    escaped_is_markup_free(s);
    count_of_absent(escaped(s), c);
}

proof fn decimal_counts_none(n: nat, c: char)
    requires
        is_markup(c),
    ensures
        count_of(decimal(n), c) == 0,
    decreases n,
{
    if n >= 10 {
        decimal_counts_none(n / 10, c);
        assert(decimal(n).drop_last() =~= decimal(n / 10));
        assert(decimal(n).last() == digit_char(n % 10));
    } else {
        assert(decimal(n).drop_last() =~= Seq::<char>::empty());
        assert(decimal(n).last() == digit_char(n));
        assert(count_of(Seq::<char>::empty(), c) == 0);
    }
}

proof fn issues_count_alike(issues: Seq<Seq<char>>, c: char)
    requires
        is_markup(c),
    ensures
        count_of(issues_html(issues), c) == count_of(issues_html(blank(issues.len())), c),
    decreases issues.len(),
{
    broadcast use count_of_sum;

    if issues.len() > 0 {
        issues_count_alike(issues.drop_last(), c);
        assert(blank(issues.len()).drop_last() =~= blank(issues.drop_last().len()));
        escaped_counts_none(issues.last(), c);
        escaped_counts_none(blank(issues.len()).last(), c);
    }
}

proof fn lines_count_alike(paragraphs: Seq<Seq<char>>, start: nat, c: char)
    requires
        is_markup(c),
    ensures
        count_of(numbered(paragraphs, start), c) == count_of(
            numbered(blank(paragraphs.len()), start),
            c,
        ),
    decreases paragraphs.len(),
{
    broadcast use count_of_sum;

    if paragraphs.len() > 0 {
        lines_count_alike(paragraphs.drop_last(), start, c);
        assert(blank(paragraphs.len()).drop_last() =~= blank(paragraphs.drop_last().len()));
        escaped_counts_none(sanitised(paragraphs.last()), c);
        escaped_counts_none(sanitised(blank(paragraphs.len()).last()), c);
    }
}

proof fn emptied_body_counts(body: Seq<SectionView>)
    ensures
        paragraph_count(emptied_body(body)) == paragraph_count(body),
    decreases body.len(),
{
    if body.len() > 0 {
        emptied_body_counts(body.drop_last());
        assert(emptied_body(body).drop_last() =~= emptied_body(body.drop_last()));
    }
}

proof fn sections_count_alike(body: Seq<SectionView>, c: char)
    requires
        is_markup(c),
    ensures
        count_of(sections_html(body), c) == count_of(sections_html(emptied_body(body)), c),
    decreases body.len(),
{
    broadcast use count_of_sum;

    if body.len() > 0 {
        sections_count_alike(body.drop_last(), c);
        emptied_body_counts(body.drop_last());
        assert(emptied_body(body).drop_last() =~= emptied_body(body.drop_last()));
        let start = paragraph_count(body.drop_last());
        lines_count_alike(body.last().1, start, c);
        escaped_counts_none(body.last().0, c);
        escaped_counts_none(emptied_body(body).last().0, c);
    }
}

/// No text of the record adds or takes away markup: whatever the fields
/// hold, the page has as many of each character that opens or closes a tag
/// or an attribute value as the page of the record with every text emptied.
pub proof fn text_adds_no_markup(c: CaseView, payload: Seq<char>, bracket: char)
    requires
        is_markup(bracket),
    ensures
        count_of(rendered(c, payload), bracket) == count_of(
            rendered(emptied(c), payload),
            bracket,
        ),
{
    broadcast use count_of_sum;

    let e = Seq::<char>::empty();
    escaped_counts_none(e, bracket);
    escaped_counts_none(c.title, bracket);
    escaped_counts_none(c.number, bracket);
    escaped_counts_none(c.date, bracket);
    escaped_counts_none(c.tribunal_court, bracket);
    escaped_counts_none(c.coram, bracket);
    escaped_counts_none(c.counsel, bracket);
    escaped_counts_none(c.parties, bracket);
    issues_count_alike(c.legal_issues, bracket);
    sections_count_alike(c.body, bracket);
}

} // verus!
