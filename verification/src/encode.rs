//! The original page as a payload, and the whole way from the markup of a
//! page to the page that is written out.

use crate::outline::case_of;
use crate::page::{can_parse, extract_case_info, outline_of};
use crate::render::{build_toggleable_html, rendered};
use base64::engine::general_purpose::STANDARD;
use base64::Engine;
use vstd::prelude::*;
use vstd::utf8::encode_utf8;

verus! {

/// The standard base64 encoding of `bytes`, with padding.
pub uninterp spec fn base64_of(bytes: Seq<u8>) -> Seq<char>;

/// Whether `c` is a character of the standard base64 alphabet or the padding
/// character.
pub open spec fn is_base64_char(c: char) -> bool {
    let n = c as u32;
    ||| 0x41 <= n <= 0x5A
    ||| 0x61 <= n <= 0x7A
    ||| 0x30 <= n <= 0x39
    ||| c == '+'
    ||| c == '/'
    ||| c == '='
}

/// Whether every character of `text` is one of base64.
pub open spec fn is_base64_text(text: Seq<char>) -> bool {
    forall|i: int| 0 <= i < text.len() ==> is_base64_char(#[trigger] text[i])
}

/// Whether the encoding of `len` bytes has a length that fits the machine.
pub open spec fn can_encode(len: nat) -> bool {
    len / 3 < usize::MAX / 4
}

/// `base64::Engine::encode` of the engine `base64::engine::general_purpose::STANDARD`:
/// the encoding depends on the bytes alone, and it is written in the
/// crate's standard alphabet (letters, digits, `+` and `/`) with `=` as
/// padding. The crate panics where the length of the encoding, four
/// characters for each three bytes begun, overflows.
#[verifier::external_body]
fn encode_standard(bytes: &[u8]) -> (text: String)
    requires
        can_encode(bytes@.len()),
    ensures
        text@ == base64_of(bytes@),
        is_base64_text(text@),
{
    STANDARD.encode(bytes)
}

/// Encodes the markup of the original page as the payload of the rendered one.
pub fn encode_original(original_html: &str) -> (payload: String)
    requires
        can_encode(encode_utf8(original_html@).len()),
    ensures
        payload@ == base64_of(encode_utf8(original_html@)),
        is_base64_text(payload@),
{
    encode_standard(original_html.as_bytes())
}

/// Makes the page that is written out from the markup of the original page:
/// the record is extracted and rendered, with the original as its payload.
pub fn convert_page(original_html: &str) -> (page: String)
    requires
        can_parse(encode_utf8(original_html@).len()),
    ensures
        page@ == rendered(
            case_of(outline_of(original_html@)),
            base64_of(encode_utf8(original_html@)),
        ),
        is_base64_text(base64_of(encode_utf8(original_html@))),
{
    let details = extract_case_info(original_html);
    let payload = encode_original(original_html);
    build_toggleable_html(&details, payload.as_str())
}

/// No base64 text holds a quote, so none ends the script's string early.
pub proof fn base64_text_has_no_quote(text: Seq<char>)
    requires
        is_base64_text(text),
    ensures
        forall|i: int| 0 <= i < text.len() ==> text[i] != '\'',
{
    assert forall|i: int| 0 <= i < text.len() implies text[i] != '\'' by {
        assert(is_base64_char(text[i]));
    }
}

} // verus!
