use judgeman::outline::{collect_issues, group_sections, table_field};
use judgeman::page::{flatten_text, read_outline, MAX_DOCUMENT_BYTES};
use judgeman::{assemble, element_has_class, extract_case_info, CaseDetails, PageOutline, Paragraph};

fn strings(items: &[&str]) -> Vec<String> {
    items.iter().map(|s| s.to_string()).collect()
}

fn paragraph(classes: &str, text: &str) -> Paragraph {
    Paragraph { classes: classes.to_string(), text: text.to_string() }
}

fn row(third: &str) -> Vec<String> {
    strings(&["label", ":", third])
}

const PAGE: &str = r#"<html><head><title>t</title></head><body>
<div class="caseTitle"> ABC v DEF </div>
<table id="info-table">
<tr><td>Case Number</td><td>:</td><td> Civil Appeal No 1 of 2009 </td></tr>
<tr><td>Decision Date</td><td>:</td><td>20 January 2009</td></tr>
<tr><td>Tribunal/Court</td><td>:</td><td>Court of <b>Appeal</b></td></tr>
<tr><td>Coram</td><td>:</td><td>A JA; B JA</td></tr>
<tr><td>Counsel</td><td>:</td><td>C (D LLP) for the appellant</td></tr>
<tr><td>Parties</td><td>:</td><td>ABC &mdash; DEF</td></tr>
<tr><td>Extra</td><td>:</td><td>ignored</td></tr>
</table>
<div class="txt-body"><p>Contract</p><div> Tort <b>law</b> </div><span>  </span></div>
<p class="Judg-1">0 Before any heading</p>
<p class="Judg-Heading-1"> Introduction </p>
<p class="Judg-1">1 First paragraph</p>
<p class="Judg-1">Not numbered</p>
<p class="Judg-2">2 Other class</p>
<p class="extra Judg-Heading-1">Facts</p>
<p class="Judg-1 indent">7 Second <i>paragraph</i></p>
</body></html>"#;

#[test]
fn has_class_finds_whole_words() {
    assert!(element_has_class("Judg-1", "Judg-1"));
    assert!(element_has_class("a Judg-1", "Judg-1"));
    assert!(element_has_class("Judg-1 b", "Judg-1"));
    assert!(element_has_class(" a\tJudg-1\nb ", "Judg-1"));
    assert!(element_has_class("x x", "x"));
}

#[test]
fn has_class_rejects_parts_of_words() {
    assert!(!element_has_class("Judg-Heading-1", "Judg-1"));
    assert!(!element_has_class("Judg-12", "Judg-1"));
    assert!(!element_has_class("xJudg-1", "Judg-1"));
    assert!(!element_has_class("", "Judg-1"));
    assert!(!element_has_class("Judg", "Judg-1"));
}

#[test]
fn has_class_rejects_names_that_are_no_word() {
    assert!(!element_has_class("a b", ""));
    assert!(!element_has_class("a b", "a b"));
    assert!(!element_has_class("a b", " "));
}

#[test]
fn has_class_agrees_with_split_whitespace() {
    let lists = ["", "a", "a b", " a  b ", "ab", "b a b", "a\u{a0}b", "ba ab aba"];
    let names = ["a", "b", "ab", "", "a b", "ba"];
    for list in lists {
        for name in names {
            let expected = list.split_whitespace().any(|c| c == name);
            assert_eq!(element_has_class(list, name), expected, "{:?} in {:?}", name, list);
        }
    }
}

#[test]
fn flatten_joins_text_nodes() {
    assert_eq!(flatten_text(&strings(&[" Tort ", "law", " "])), " Tort law ");
    assert_eq!(flatten_text(&strings(&[])), "");
}

#[test]
fn six_rows_fill_six_fields_in_order() {
    let outline = PageOutline {
        title: None,
        rows: vec![row(" n "), row("d"), row("t"), row("c"), row("k"), row("p"), row("x")],
        issues: vec![],
        paragraphs: vec![],
    };
    let details = assemble(&outline);
    assert_eq!(details.case_title, "");
    assert_eq!(details.case_number, "n");
    assert_eq!(details.case_date, "d");
    assert_eq!(details.case_tribunal_court, "t");
    assert_eq!(details.case_coram, "c");
    assert_eq!(details.case_counsel, "k");
    assert_eq!(details.case_parties, "p");
}

#[test]
fn short_table_leaves_trailing_fields_empty() {
    let outline = PageOutline {
        title: Some(" T ".to_string()),
        rows: vec![row("n"), row("d"), row("t")],
        issues: vec![],
        paragraphs: vec![],
    };
    let details = assemble(&outline);
    assert_eq!(details.case_title, "T");
    assert_eq!(details.case_number, "n");
    assert_eq!(details.case_date, "d");
    assert_eq!(details.case_tribunal_court, "t");
    assert_eq!(details.case_coram, "");
    assert_eq!(details.case_counsel, "");
    assert_eq!(details.case_parties, "");
}

#[test]
fn row_with_two_cells_gives_no_field() {
    let rows = vec![strings(&["a", "b"]), strings(&["a", "b", " c ", "d"]), vec![]];
    assert_eq!(table_field(&rows, 0), "");
    assert_eq!(table_field(&rows, 1), "c");
    assert_eq!(table_field(&rows, 2), "");
    assert_eq!(table_field(&rows, 3), "");
}

#[test]
fn issues_are_trimmed_and_empty_ones_skipped() {
    let issues = collect_issues(&strings(&[" Contract ", "", "  \n", "Tort law", "\u{a0}"]));
    assert_eq!(issues, strings(&["Contract", "Tort law"]));
    assert_eq!(collect_issues(&vec![]), Vec::<String>::new());
}

#[test]
fn unnumbered_body_paragraph_is_excluded() {
    let body = group_sections(&vec![
        paragraph("Judg-Heading-1", "Intro"),
        paragraph("Judg-1", "1 one"),
        paragraph("Judg-1", "not numbered"),
        paragraph("Judg-1", "  2 two "),
        paragraph("Judg-1", ""),
    ]);
    assert_eq!(body, vec![("Intro".to_string(), strings(&["1 one", "2 two"]))]);
}

#[test]
fn sections_come_in_heading_order() {
    let body = group_sections(&vec![
        paragraph("Judg-Heading-1", "B"),
        paragraph("Judg-1", "1 x"),
        paragraph("Judg-Heading-1", "A"),
        paragraph("Judg-Heading-1", " C "),
        paragraph("Judg-1", "2 y"),
        paragraph("Judg-1", "3 z"),
    ]);
    assert_eq!(
        body,
        vec![
            ("B".to_string(), strings(&["1 x"])),
            ("A".to_string(), strings(&[])),
            ("C".to_string(), strings(&["2 y", "3 z"])),
        ]
    );
}

#[test]
fn paragraph_before_any_heading_is_dropped() {
    let body = group_sections(&vec![
        paragraph("Judg-1", "1 early"),
        paragraph("Judg-Heading-1", "Intro"),
        paragraph("Judg-1", "2 late"),
    ]);
    assert_eq!(body, vec![("Intro".to_string(), strings(&["2 late"]))]);
}

#[test]
fn paragraphs_without_heading_make_no_section() {
    let body = group_sections(&vec![paragraph("Judg-1", "1 a"), paragraph("Judg-1", "2 b")]);
    assert!(body.is_empty());
    assert!(group_sections(&vec![]).is_empty());
}

#[test]
fn heading_without_text_opens_no_section() {
    let body = group_sections(&vec![
        paragraph("Judg-Heading-1", "A"),
        paragraph("Judg-1", "1 a"),
        paragraph("Judg-Heading-1", "   "),
        paragraph("Judg-1", "2 lost"),
        paragraph("Judg-Heading-1", "B"),
        paragraph("Judg-1", "3 b"),
    ]);
    assert_eq!(
        body,
        vec![("A".to_string(), strings(&["1 a"])), ("B".to_string(), strings(&["3 b"]))]
    );
}

#[test]
fn paragraph_with_both_classes_is_a_heading() {
    let body = group_sections(&vec![paragraph("Judg-1 Judg-Heading-1", "1 Title")]);
    assert_eq!(body, vec![("1 Title".to_string(), strings(&[]))]);
}

#[test]
fn default_record_is_empty() {
    let details = CaseDetails::default();
    assert_eq!(details.case_title, "");
    assert_eq!(details.case_parties, "");
    assert!(details.case_legal_issues.is_empty());
    assert!(details.case_body.is_empty());
}

#[test]
fn title_element_is_trimmed() {
    let details = extract_case_info(r#"<div class="caseTitle"> ABC v DEF </div>"#);
    assert_eq!(details.case_title, "ABC v DEF");
    assert_eq!(details.case_number, "");
    assert!(details.case_legal_issues.is_empty());
    assert!(details.case_body.is_empty());
}

#[test]
fn record_of_a_page() {
    let details = extract_case_info(PAGE);
    assert_eq!(details.case_title, "ABC v DEF");
    assert_eq!(details.case_number, "Civil Appeal No 1 of 2009");
    assert_eq!(details.case_date, "20 January 2009");
    assert_eq!(details.case_tribunal_court, "Court of Appeal");
    assert_eq!(details.case_coram, "A JA; B JA");
    assert_eq!(details.case_counsel, "C (D LLP) for the appellant");
    assert_eq!(details.case_parties, "ABC \u{2014} DEF");
    assert_eq!(details.case_legal_issues, strings(&["Contract", "Tort law"]));
    assert_eq!(
        details.case_body,
        vec![
            ("Introduction".to_string(), strings(&["1 First paragraph"])),
            ("Facts".to_string(), strings(&["7 Second paragraph"])),
        ]
    );
}

#[test]
fn page_without_the_expected_parts_gives_an_empty_record() {
    let details = extract_case_info("<html><body><h1>Nothing here</h1></body></html>");
    assert_eq!(details.case_title, "");
    assert_eq!(details.case_number, "");
    assert_eq!(details.case_parties, "");
    assert!(details.case_legal_issues.is_empty());
    assert!(details.case_body.is_empty());
    let empty = extract_case_info("");
    assert_eq!(empty.case_title, "");
    assert!(empty.case_body.is_empty());
}

#[test]
fn first_title_and_first_table_win() {
    let details = extract_case_info(
        r#"<div class="caseTitle">One</div><div class="caseTitle">Two</div>
<table id="info-table"><tr><td>a</td><td>b</td><td>first</td></tr></table>
<table id="info-table"><tr><td>a</td><td>b</td><td>second</td></tr></table>"#,
    );
    assert_eq!(details.case_title, "One");
    assert_eq!(details.case_number, "first");
}

#[test]
fn only_direct_children_are_issues() {
    let details = extract_case_info(
        r#"<div class="txt-body"><div>Outer <span>inner</span></div><p>Second</p></div>"#,
    );
    assert_eq!(details.case_legal_issues, strings(&["Outer inner", "Second"]));
}

#[test]
fn text_of_an_element_joins_its_text_nodes() {
    let details = extract_case_info(
        r#"<div class="caseTitle"> A <i>v</i><b> B</b> <span>(No <u>2</u>)</span> </div>"#,
    );
    assert_eq!(details.case_title, "A v B (No 2)");
}

#[test]
fn cells_of_nested_markup_count_in_document_order() {
    let details = extract_case_info(
        r#"<table id="info-table"><tbody>
<tr><td>a</td><td>b</td></tr>
<tr><th>h</th><td>a</td><td>b</td><td> third </td><td>fourth</td></tr>
</tbody></table>"#,
    );
    assert_eq!(details.case_number, "");
    assert_eq!(details.case_date, "third");
    assert_eq!(details.case_tribunal_court, "");
}

#[test]
fn class_attribute_decides_the_role_of_a_paragraph() {
    let details = extract_case_info(
        r#"<p class="Judg-Heading-1">H</p><p>1 no class</p><p class="judg-1">2 other case</p>
<p class="a Judg-1 b">3 kept</p><div class="Judg-1">4 no paragraph</div>"#,
    );
    assert_eq!(details.case_body, vec![("H".to_string(), strings(&["3 kept"]))]);
}

#[test]
fn outline_of_a_page() {
    let outline = read_outline(PAGE);
    assert_eq!(outline.title, Some(" ABC v DEF ".to_string()));
    assert_eq!(outline.rows.len(), 7);
    assert_eq!(outline.rows[0], strings(&["Case Number", ":", " Civil Appeal No 1 of 2009 "]));
    assert_eq!(outline.rows[2][2], "Court of Appeal");
    assert_eq!(outline.issues, strings(&["Contract", " Tort law ", "  "]));
    assert_eq!(outline.paragraphs.len(), 8);
    assert_eq!(outline.paragraphs[0].classes, "");
    assert_eq!(outline.paragraphs[0].text, "Contract");
    assert_eq!(outline.paragraphs[6].classes, "extra Judg-Heading-1");
    assert_eq!(outline.paragraphs[7].text, "7 Second paragraph");
}

#[test]
fn record_is_assembled_from_the_outline() {
    let from_page = extract_case_info(PAGE);
    let from_outline = assemble(&read_outline(PAGE));
    assert_eq!(from_page.case_title, from_outline.case_title);
    assert_eq!(from_page.case_number, from_outline.case_number);
    assert_eq!(from_page.case_parties, from_outline.case_parties);
    assert_eq!(from_page.case_legal_issues, from_outline.case_legal_issues);
    assert_eq!(from_page.case_body, from_outline.case_body);
}

#[test]
fn parser_limit_is_a_quarter_of_32_bits() {
    assert_eq!(MAX_DOCUMENT_BYTES, (u32::MAX / 4) as usize);
    assert_eq!(MAX_DOCUMENT_BYTES, 0x3FFF_FFFF);
}

#[test]
fn each_heading_gives_one_section_with_what_follows_it() {
    let body = group_sections(&vec![
        paragraph("Judg-1", "9 early"),
        paragraph("Judg-Heading-1", " One "),
        paragraph("Judg-Heading-1", "Two"),
        paragraph("Judg-1", " 1 a "),
        paragraph("other", "2 not body"),
        paragraph("Judg-1", "b"),
        paragraph("Judg-1", "3 c"),
        paragraph("Judg-Heading-1", "Three"),
    ]);
    assert_eq!(
        body,
        vec![
            ("One".to_string(), strings(&[])),
            ("Two".to_string(), strings(&["1 a", "3 c"])),
            ("Three".to_string(), strings(&[])),
        ]
    );
}
