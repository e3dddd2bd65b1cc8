//! The bytes of local text files: a UTF-8 byte order mark is taken off when
//! a file is opened (the sheet remembers to write it back) and put in front
//! when it is saved.

use vstd::prelude::*;
use vstd::utf8::{decode_utf8, encode_utf8, valid_utf8};

verus! {

/// The UTF-8 byte order mark.
pub open spec fn bom() -> Seq<u8> {
    seq![0xEFu8, 0xBBu8, 0xBFu8]
}

/// Whether `b` opens with the UTF-8 byte order mark.
pub open spec fn starts_with_bom(b: Seq<u8>) -> bool {
    b.len() >= 3 && b[0] == 0xEF && b[1] == 0xBB && b[2] == 0xBF
}

/// Whether the bytes open with a UTF-8 byte order mark.
pub fn has_utf8_bom(bytes: &[u8]) -> (r: bool)
    ensures
        r == starts_with_bom(bytes@),
{
    bytes.len() >= 3 && bytes[0] == 0xEF && bytes[1] == 0xBB && bytes[2] == 0xBF
}

/// What `String::from_utf8_lossy` reads from bytes: their text, with each
/// ill-formed part replaced by U+FFFD.
pub uninterp spec fn lossy_utf8(b: Seq<u8>) -> Seq<char>;

/// `std::str::from_utf8`. Claimed, as its documentation says: it succeeds
/// exactly on valid UTF-8, and then gives the text the bytes encode.
#[verifier::external_body]
fn utf8_text(bytes: &[u8]) -> (r: Option<String>)
    ensures
        r is Some <==> valid_utf8(bytes@),
        r matches Some(s) ==> s@ == decode_utf8(bytes@),
{
    match std::str::from_utf8(bytes) {
        Ok(s) => Some(s.to_string()),
        Err(_) => None,
    }
}

/// `String::from_utf8_lossy`. Claimed: the result is `lossy_utf8` of the
/// bytes, which on valid UTF-8 is the text they encode (its documentation:
/// valid input is returned as it is).
#[verifier::external_body]
fn lossy_text(bytes: &[u8]) -> (r: String)
    ensures
        r@ == lossy_utf8(bytes@),
        valid_utf8(bytes@) ==> r@ == decode_utf8(bytes@),
{
    String::from_utf8_lossy(bytes).into_owned()
}

/// The bytes of a file without its byte order mark, if it has one.
pub open spec fn without_bom(b: Seq<u8>) -> Seq<u8> {
    if starts_with_bom(b) { b.skip(3) } else { b }
}

/// The text of a file: its bytes after any byte order mark, read as UTF-8,
/// or read lossily when they are not valid UTF-8.
pub open spec fn file_text(b: Seq<u8>) -> Seq<char> {
    let p = without_bom(b);
    if valid_utf8(p) { decode_utf8(p) } else { lossy_utf8(p) }
}

/// Reads the text of an opened file.
pub fn read_file_text(bytes: &[u8]) -> (r: String)
    ensures
        r@ == file_text(bytes@),
{
    let body: &[u8] = if has_utf8_bom(bytes) {
        vstd::slice::slice_subrange(bytes, 3, bytes.len())
    } else {
        bytes
    };
    assert(body@ =~= without_bom(bytes@));
    match utf8_text(body) {
        Some(s) => s,
        None => lossy_text(body),
    }
}

/// The bytes a sheet is saved as: the byte order mark when the sheet needs
/// one, then its text in UTF-8.
pub open spec fn file_bytes(content: Seq<char>, needs_bom: bool) -> Seq<u8> {
    if needs_bom { bom() + encode_utf8(content) } else { encode_utf8(content) }
}

/// Builds the bytes a sheet is saved as.
pub fn encode_file(content: &str, needs_bom: bool) -> (r: Vec<u8>)
    ensures
        r@ == file_bytes(content@, needs_bom),
{
    let mut data: Vec<u8> = Vec::new();
    if needs_bom {
        data.push(0xEF);
        data.push(0xBB);
        data.push(0xBF);
    }
    let mut text = vstd::slice::slice_to_vec(content.as_bytes());
    let ghost before = data@;
    data.append(&mut text);
    assert(data@ =~= file_bytes(content@, needs_bom));
    data
}

/// The name shown for an opened file, or `unknown` when the path has none.
pub fn file_name_or_unknown(name: Option<String>) -> (r: String)
    ensures
        r@ == (match name {
            Some(n) => n@,
            None => "unknown"@,
        }),
{
    match name {
        Some(n) => n,
        None => "unknown".to_owned(),
    }
}

proof fn lemma_bom_means_feff(c: Seq<char>)
    requires
        starts_with_bom(encode_utf8(c)),
    ensures
        c.len() > 0 && c[0] == '\u{feff}',
{
    if c.len() == 0 {
        assert(encode_utf8(c) =~= Seq::<u8>::empty());
    } else {
        vstd::utf8::encode_utf8_first_scalar(c);
        let b = encode_utf8(c);
        let (b0, b1, b2) = (b[0], b[1], b[2]);
        assert(b0 == 0xEF && b1 == 0xBB && b2 == 0xBF);
        assert(vstd::utf8::decode_first_scalar(b) == vstd::utf8::codepoint_width_3(b0, b1, b2));
        assert(((((0xEFu8 & 0x0F) as u32) << 12) | (((0xBBu8 & 0x3f) as u32) << 6) | ((0xBFu8 & 0x3f) as u32)) == 0xFEFFu32) by (bit_vector);
        vstd::utf8::char_u32_cast(c[0], 0xFEFF);
    }
}

/// Saving a sheet and opening the file again gives its text back, unless
/// the sheet is saved without a byte order mark while its text starts with
/// U+FEFF (which then reads as one).
pub proof fn lemma_save_then_open(content: Seq<char>, needs_bom: bool)
    requires
        needs_bom || content.len() == 0 || content[0] != '\u{feff}',
    ensures
        file_text(file_bytes(content, needs_bom)) == content,
{
    vstd::utf8::encode_utf8_valid_utf8(content);
    vstd::utf8::encode_utf8_decode_utf8(content);
    let e = encode_utf8(content);
    if needs_bom {
        assert((bom() + e).skip(3) =~= e);
    } else {
        if starts_with_bom(e) {
            lemma_bom_means_feff(content);
        }
    }
}

} // verus!
