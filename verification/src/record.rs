//! The record of one judgment, and its mathematical view.

use vstd::prelude::*;

verus! {

/// The fields of one judgment. Each text field is empty where the page does
/// not give it; issues and sections stand in the order in which they were
/// found.
#[derive(Debug, Clone)]
pub struct CaseDetails {
    pub case_title: String,
    pub case_number: String,
    pub case_date: String,
    pub case_tribunal_court: String,
    pub case_coram: String,
    pub case_counsel: String,
    pub case_parties: String,
    pub case_legal_issues: Vec<String>,
    pub case_body: Vec<(String, Vec<String>)>,
}

/// A section of the body: its title and its paragraphs.
pub type SectionView = (Seq<char>, Seq<Seq<char>>);

/// A judgment as plain sequences of characters.
pub struct CaseView {
    pub title: Seq<char>,
    pub number: Seq<char>,
    pub date: Seq<char>,
    pub tribunal_court: Seq<char>,
    pub coram: Seq<char>,
    pub counsel: Seq<char>,
    pub parties: Seq<char>,
    pub legal_issues: Seq<Seq<char>>,
    pub body: Seq<SectionView>,
}

/// The judgment of which nothing is known.
pub open spec fn empty_case() -> CaseView {
    CaseView {
        title: Seq::empty(),
        number: Seq::empty(),
        date: Seq::empty(),
        tribunal_court: Seq::empty(),
        coram: Seq::empty(),
        counsel: Seq::empty(),
        parties: Seq::empty(),
        legal_issues: Seq::empty(),
        body: Seq::empty(),
    }
}

/// The field of the record that row `k` of the information table fills:
/// the case number from the first row, then the date, the tribunal or court,
/// the coram, the counsel and the parties.
pub open spec fn table_field_of(c: CaseView, k: int) -> Seq<char> {
    if k == 0 {
        c.number
    } else if k == 1 {
        c.date
    } else if k == 2 {
        c.tribunal_court
    } else if k == 3 {
        c.coram
    } else if k == 4 {
        c.counsel
    } else {
        c.parties
    }
}

impl View for CaseDetails {
    type V = CaseView;

    open spec fn view(&self) -> CaseView {
        CaseView {
            title: self.case_title@,
            number: self.case_number@,
            date: self.case_date@,
            tribunal_court: self.case_tribunal_court@,
            coram: self.case_coram@,
            counsel: self.case_counsel@,
            parties: self.case_parties@,
            legal_issues: self.case_legal_issues.deep_view(),
            body: self.case_body.deep_view(),
        }
    }
}

impl Default for CaseDetails {
    fn default() -> (details: CaseDetails)
        ensures
            details@ == empty_case(),
    {
        let details = CaseDetails {
            case_title: String::new(),
            case_number: String::new(),
            case_date: String::new(),
            case_tribunal_court: String::new(),
            case_coram: String::new(),
            case_counsel: String::new(),
            case_parties: String::new(),
            case_legal_issues: Vec::new(),
            case_body: Vec::new(),
        };
        assert(details.case_legal_issues.deep_view() =~= Seq::empty());
        assert(details.case_body.deep_view() =~= Seq::empty());
        details
    }
}

} // verus!
