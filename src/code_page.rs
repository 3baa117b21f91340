//! File names in a Windows ANSI code page, for engines that open files
//! through narrow-character paths.

use vstd::prelude::*;

verus! {

#[verifier::external_type_specification]
#[verifier::external_body]
pub struct ExEncoding(encoding_rs::Encoding);

/// The Windows code pages that have a character encoding.
pub open spec fn supported_code_pages() -> Seq<u16> {
    seq![
        65001u16, 1200, 1252, 1251, 936, 932, 949, 1250, 1256, 1254, 950, 874, 1255, 1253, 1257,
        1258, 20932, 28592, 28605, 28597, 20866, 54936, 28595, 38598, 28594, 28596, 50221, 21866,
        28603, 28593, 1201, 866, 28600, 28598, 10000, 10017, 28604, 28606, 951, 10007, 20936,
        20949, 21010, 28591, 28599, 28601, 50220, 50222, 50225, 50227, 51936, 51949, 52936,
    ]
}

/// ASCII text that every encoding writes byte for byte: no character at or
/// above U+0080, and none of the ISO-2022-JP escape and shift controls.
pub open spec fn plain_ascii(s: Seq<char>) -> bool {
    forall|i: int|
        0 <= i < s.len() ==> (#[trigger] s[i] as u32) < 0x80 && s[i] != '\u{1b}' && s[i] != '\u{e}'
            && s[i] != '\u{f}'
}

/// The bytes of ASCII text.
pub open spec fn ascii_bytes(s: Seq<char>) -> Seq<u8> {
    s.map_values(|c: char| c as u8)
}

/// The longest text (in characters) whose encoding stays within the sizes
/// that the encoder computes without overflow.
pub const MAX_ENCODED_CHARS: usize = 0x100_0000;

/// Relies on codepage::to_encoding: a code page has an encoding exactly
/// when it is in the crate's table of 53 code pages.
pub assume_specification[ codepage::to_encoding ](code_page: u16) -> (r: Option<
    &'static encoding_rs::Encoding,
>)
    ensures
        r is Some <==> supported_code_pages().contains(code_page),
;

/// Relies on encoding_rs::Encoding::encode: the encoded bytes and whether
/// some character had no mapping. Plain ASCII text comes out unchanged and
/// without unmappable characters.
#[verifier::external_body]
fn encode_text(encoding: &'static encoding_rs::Encoding, s: &str) -> (r: (Vec<u8>, bool))
    requires
        s@.len() <= MAX_ENCODED_CHARS,
    ensures
        plain_ascii(s@) ==> r.0@ == ascii_bytes(s@) && !r.1,
{
    let (bytes, _, had_errors) = encoding.encode(s);
    (bytes.into_owned(), had_errors)
}

/// Encodes `s` in the Windows code page `code_page`. `None` when the code
/// page has no encoding, or when some character of `s` cannot be written
/// in it.
pub fn acp_encode(code_page: u16, s: &str) -> (r: Option<Vec<u8>>)
    requires
        s@.len() <= MAX_ENCODED_CHARS,
    ensures
        !supported_code_pages().contains(code_page) ==> r is None,
        supported_code_pages().contains(code_page) && plain_ascii(s@) ==> (r matches Some(
            v,
        ) && v@ == ascii_bytes(s@)),
{
    let e = match codepage::to_encoding(code_page) {
        Some(e) => e,
        None => return None,
    };
    let (res, has_error) = encode_text(e, s);
    if !has_error {
        Some(res)
    } else {
        None
    }
}

} // verus!
