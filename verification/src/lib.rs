//! Extraction of the fields of a court judgment from its page markup, and
//! rendering of those fields as one self-contained page that can be toggled
//! between the simplified and the original view.

pub mod text;
pub mod record;
pub mod classes;
pub mod outline;
pub mod page;
pub mod template;
pub mod render;
pub mod encode;

pub use classes::element_has_class;
pub use encode::{convert_page, encode_original};
pub use outline::{assemble, PageOutline, Paragraph};
pub use page::extract_case_info;
pub use record::CaseDetails;
pub use render::build_toggleable_html;
pub use text::{html_escape, sanitise_paragraph, section_number_check};
