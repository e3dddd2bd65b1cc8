//! The character-code panel: the codes of the character under the cursor
//! in JIS, Shift_JIS, EUC-JP, UTF-8 and as a Unicode scalar.

use vstd::prelude::*;
use vstd::utf8::{encode_utf8, is_ascii_chars};
use crate::text::{decimal, push_char, push_decimal};

verus! {

/// The Japanese encodings the panel shows.
#[derive(Clone, Copy, Debug, PartialEq, Eq, Structural)]
pub enum JpEncoding {
    ShiftJis,
    EucJp,
    Iso2022Jp,
}

/// What `encoding_rs::Encoding::encode` returns for a text: the bytes, and
/// whether some character could not be encoded.
pub uninterp spec fn jp_encoded(enc: JpEncoding, s: Seq<char>) -> (Seq<u8>, bool);

/// The characters `encoding_rs` copies through unchanged for an encoding:
/// ASCII, and for ISO-2022-JP not its shift and escape bytes.
pub open spec fn copied_through(enc: JpEncoding, s: Seq<char>) -> bool {
    is_ascii_chars(s) && (enc == JpEncoding::Iso2022Jp ==> forall|i: int|
        0 <= i < s.len() ==> #[trigger] s[i] != '\u{e}' && s[i] != '\u{f}' && s[i] != '\u{1b}')
}

/// `encoding_rs::Encoding::encode` with Shift_JIS, EUC-JP or ISO-2022-JP.
/// Claimed: the bytes and the error flag are `jp_encoded` of the text; a
/// text the encoding copies through (see `copied_through`) comes back as
/// its own bytes without error, as the crate's source returns it borrowed.
/// The source sizes a buffer from the input length and panics when that
/// overflows, so very long texts are left out.
#[verifier::external_body]
fn encode_in(enc: JpEncoding, s: &str) -> (r: (Vec<u8>, bool))
    requires
        encode_utf8(s@).len() <= 0x0800_0000,
    ensures
        r.0@ == jp_encoded(enc, s@).0,
        r.1 == jp_encoded(enc, s@).1,
        copied_through(enc, s@) ==> r.0@ == encode_utf8(s@) && !r.1,
{
    let encoding = match enc {
        JpEncoding::ShiftJis => encoding_rs::SHIFT_JIS,
        JpEncoding::EucJp => encoding_rs::EUC_JP,
        JpEncoding::Iso2022Jp => encoding_rs::ISO_2022_JP,
    };
    let (bytes, _, had_errors) = encoding.encode(s);
    (bytes.into_owned(), had_errors)
}

/// The bytes of `s` in the encoding, or `None` when some character cannot
/// be encoded.
pub open spec fn encode_safe_spec(enc: JpEncoding, s: Seq<char>) -> Option<Seq<u8>> {
    if jp_encoded(enc, s).1 { None } else { Some(jp_encoded(enc, s).0) }
}

/// Encodes `s`, refusing texts with characters the encoding lacks.
pub fn encode_safe(enc: JpEncoding, s: &str) -> (r: Option<Vec<u8>>)
    requires
        encode_utf8(s@).len() <= 0x0800_0000,
    ensures
        match r {
            Some(b) => encode_safe_spec(enc, s@) == Some(b@),
            None => encode_safe_spec(enc, s@) is None,
        },
{
    let (bytes, had_errors) = encode_in(enc, s);
    if had_errors { None } else { Some(bytes) }
}

/// The JIS code read off an ISO-2022-JP encoding: a single byte as it is;
/// for `ESC $ ...` the two code bytes after the escape sequence; nothing
/// otherwise.
pub open spec fn jis_from_iso(b: Seq<u8>) -> Option<Seq<u8>> {
    if b.len() == 1 {
        Some(b)
    } else if b.len() >= 5 && b[0] == 0x1B && b[1] == 0x24 {
        Some(seq![b[3], b[4]])
    } else {
        None
    }
}

/// Reads the JIS code off ISO-2022-JP bytes.
pub fn jis_bytes_from_iso(b: &Vec<u8>) -> (r: Option<Vec<u8>>)
    ensures
        match r {
            Some(v) => jis_from_iso(b@) == Some(v@),
            None => jis_from_iso(b@) is None,
        },
{
    if b.len() == 1 {
        let mut v: Vec<u8> = Vec::new();
        v.push(b[0]);
        assert(v@ =~= b@);
        return Some(v);
    }
    if b.len() >= 5 && b[0] == 0x1B && b[1] == 0x24 {
        let mut v: Vec<u8> = Vec::new();
        v.push(b[3]);
        v.push(b[4]);
        assert(v@ =~= seq![b@[3], b@[4]]);
        return Some(v);
    }
    None
}

/// The JIS X 0208 code of `s`, from its ISO-2022-JP encoding.
pub fn get_jis_bytes(s: &str) -> (r: Option<Vec<u8>>)
    requires
        encode_utf8(s@).len() <= 0x0800_0000,
    ensures
        match r {
            Some(v) => !jp_encoded(JpEncoding::Iso2022Jp, s@).1
                && jis_from_iso(jp_encoded(JpEncoding::Iso2022Jp, s@).0) == Some(v@),
            None => jp_encoded(JpEncoding::Iso2022Jp, s@).1
                || jis_from_iso(jp_encoded(JpEncoding::Iso2022Jp, s@).0) is None,
        },
{
    let (bytes, had_errors) = encode_in(JpEncoding::Iso2022Jp, s);
    if had_errors {
        return None;
    }
    jis_bytes_from_iso(&bytes)
}

/// The upper-case hexadecimal digit for a value below sixteen.
pub open spec fn hex_digit(d: int) -> char {
    if d == 0 { '0' }
    else if d == 1 { '1' }
    else if d == 2 { '2' }
    else if d == 3 { '3' }
    else if d == 4 { '4' }
    else if d == 5 { '5' }
    else if d == 6 { '6' }
    else if d == 7 { '7' }
    else if d == 8 { '8' }
    else if d == 9 { '9' }
    else if d == 10 { 'A' }
    else if d == 11 { 'B' }
    else if d == 12 { 'C' }
    else if d == 13 { 'D' }
    else if d == 14 { 'E' }
    else { 'F' }
}

fn hex_digit_char(d: u32) -> (c: char)
    requires
        d < 16,
    ensures
        c == hex_digit(d as int),
{
    if d == 0 { '0' }
    else if d == 1 { '1' }
    else if d == 2 { '2' }
    else if d == 3 { '3' }
    else if d == 4 { '4' }
    else if d == 5 { '5' }
    else if d == 6 { '6' }
    else if d == 7 { '7' }
    else if d == 8 { '8' }
    else if d == 9 { '9' }
    else if d == 10 { 'A' }
    else if d == 11 { 'B' }
    else if d == 12 { 'C' }
    else if d == 13 { 'D' }
    else if d == 14 { 'E' }
    else { 'F' }
}

/// A byte as two upper-case hexadecimal digits (`{:02X}`).
pub open spec fn hex_byte(b: u8) -> Seq<char> {
    seq![hex_digit(b as int / 16), hex_digit(b as int % 16)]
}

/// The bytes as two-digit hexadecimal numbers separated by single spaces.
pub open spec fn hex_join(b: Seq<u8>) -> Seq<char>
    decreases b.len(),
{
    if b.len() == 0 {
        Seq::<char>::empty()
    } else if b.len() == 1 {
        hex_byte(b[0])
    } else {
        hex_join(b.drop_last()) + seq![' '] + hex_byte(b.last())
    }
}

fn push_hex_byte(s: &mut String, b: u8)
    ensures
        final(s)@ == old(s)@ + hex_byte(b),
{
    let hi = hex_digit_char((b / 16) as u32);
    let lo = hex_digit_char((b % 16) as u32);
    push_char(s, hi);
    push_char(s, lo);
    assert(s@ =~= old(s)@ + hex_byte(b));
}

/// The bytes in hexadecimal, separated by spaces (`"E3 81 82"`).
pub fn bytes_to_hex(bytes: &[u8]) -> (r: String)
    ensures
        r@ == hex_join(bytes@),
{
    let mut s = String::new();
    let mut i: usize = 0;
    assert(bytes@.take(0) =~= Seq::<u8>::empty());
    while i < bytes.len()
        invariant
            i <= bytes@.len(),
            s@ == hex_join(bytes@.take(i as int)),
        decreases bytes@.len() - i,
    {
        let ghost before = s@;
        if i > 0 {
            push_char(&mut s, ' ');
        }
        push_hex_byte(&mut s, bytes[i]);
        proof {
            let t = bytes@.take(i + 1);
            assert(t.drop_last() =~= bytes@.take(i as int));
            assert(t.last() == bytes@[i as int]);
            if i == 0 {
                assert(s@ =~= hex_byte(bytes@[0]));
            } else {
                assert(s@ =~= before + seq![' '] + hex_byte(bytes@[i as int]));
            }
        }
        i = i + 1;
    }
    assert(bytes@.take(bytes@.len() as int) =~= bytes@);
    s
}

/// The hexadecimal spelling of `n`, upper case, without leading zeros.
pub open spec fn hex(n: nat) -> Seq<char>
    decreases n,
{
    if n < 16 {
        seq![hex_digit(n as int)]
    } else {
        hex(n / 16).push(hex_digit((n % 16) as int))
    }
}

/// `s` preceded by zeros up to four characters (`{:04X}` of a number).
pub open spec fn pad4(s: Seq<char>) -> Seq<char> {
    if s.len() >= 4 {
        s
    } else {
        Seq::new((4 - s.len()) as nat, |i: int| '0') + s
    }
}

fn push_hex(s: &mut String, n: u32)
    ensures
        final(s)@ == old(s)@ + hex(n as nat),
    decreases n,
{
    if n < 16 {
        let c = hex_digit_char(n);
        push_char(s, c);
        assert(s@ =~= old(s)@ + hex(n as nat));
    } else {
        push_hex(s, n / 16);
        let c = hex_digit_char(n % 16);
        push_char(s, c);
        assert(s@ =~= old(s)@ + hex(n as nat));
    }
}

/// `n` in upper-case hexadecimal, at least four digits (`{:04X}`).
pub fn hex4(n: u32) -> (r: String)
    ensures
        r@ == pad4(hex(n as nat)),
{
    let mut digits = String::new();
    push_hex(&mut digits, n);
    let len = digits.as_str().unicode_len();
    if len >= 4 {
        assert(digits@ =~= pad4(hex(n as nat)));
        return digits;
    }
    let mut s = String::new();
    let mut k: usize = len;
    while k < 4
        invariant
            len <= k <= 4,
            len == digits@.len(),
            s@ == Seq::new((k - len) as nat, |i: int| '0'),
        decreases 4 - k,
    {
        push_char(&mut s, '0');
        k = k + 1;
        assert(s@ =~= Seq::new((k - len) as nat, |i: int| '0'));
    }
    s.append(digits.as_str());
    assert(s@ =~= pad4(hex(n as nat)));
    s
}

/// The scalar line of the panel: `U+` and the code in hexadecimal, then
/// the code in decimal in parentheses (`U+3042  (12354)`).
pub open spec fn ucs4_label(n: u32) -> Seq<char> {
    "U+"@ + pad4(hex(n as nat)) + "  ("@ + decimal(n as nat) + ")"@
}

/// Builds the scalar line of the panel.
pub fn ucs4_line(n: u32) -> (r: String)
    ensures
        r@ == ucs4_label(n),
{
    let mut s = "U+".to_owned();
    let h = hex4(n);
    s.append(h.as_str());
    s.append("  (");
    push_decimal(&mut s, n as u64);
    s.append(")");
    s
}

/// The JIS line of the panel: a one-byte code is marked ASCII.
pub open spec fn jis_label(b: Seq<u8>) -> Seq<char> {
    if b.len() == 1 { hex_byte(b[0]) + "  (ASCII)"@ } else { hex_join(b) }
}

/// Builds the JIS line of the panel.
pub fn jis_line(b: &Vec<u8>) -> (r: String)
    ensures
        r@ == jis_label(b@),
{
    if b.len() == 1 {
        let mut s = String::new();
        push_hex_byte(&mut s, b[0]);
        s.append("  (ASCII)");
        s
    } else {
        bytes_to_hex(b.as_slice())
    }
}

/// The codes the panel shows for a character; `None` where the encoding
/// has no code for it.
pub struct CharCodes {
    pub jis: Option<String>,
    pub shift_jis: Option<String>,
    pub euc_jp: Option<String>,
    pub utf8: String,
    pub ucs4: String,
}

/// The character the panel describes: the first of the text, or U+0000.
pub open spec fn first_char(s: Seq<char>) -> char {
    if s.len() > 0 { s[0] } else { '\u{0}' }
}

/// The codes of the character under the cursor. The Japanese encodings
/// are of the whole text handed over (a character, which the editor gives
/// as one or two UTF-16 units); UTF-8 and the scalar are of its first
/// character.
pub fn char_codes(ch_str: &str) -> (r: CharCodes)
    requires
        encode_utf8(ch_str@).len() <= 0x0800_0000,
    ensures
        match r.jis {
            Some(t) => !jp_encoded(JpEncoding::Iso2022Jp, ch_str@).1
                && (jis_from_iso(jp_encoded(JpEncoding::Iso2022Jp, ch_str@).0) matches Some(b) && t@ == jis_label(b)),
            None => jp_encoded(JpEncoding::Iso2022Jp, ch_str@).1
                || jis_from_iso(jp_encoded(JpEncoding::Iso2022Jp, ch_str@).0) is None,
        },
        match r.shift_jis {
            Some(t) => encode_safe_spec(JpEncoding::ShiftJis, ch_str@) matches Some(b) && t@ == hex_join(b),
            None => encode_safe_spec(JpEncoding::ShiftJis, ch_str@) is None,
        },
        match r.euc_jp {
            Some(t) => encode_safe_spec(JpEncoding::EucJp, ch_str@) matches Some(b) && t@ == hex_join(b),
            None => encode_safe_spec(JpEncoding::EucJp, ch_str@) is None,
        },
        r.utf8@ == hex_join(encode_utf8(seq![first_char(ch_str@)])),
        r.ucs4@ == ucs4_label(first_char(ch_str@) as u32),
{
    let ch: char = if ch_str.unicode_len() > 0 { ch_str.get_char(0) } else { '\0' };
    let mut one = String::new();
    push_char(&mut one, ch);
    assert(one@ =~= seq![ch]);
    let utf8 = bytes_to_hex(one.as_str().as_bytes());
    let ucs4 = ucs4_line(ch as u32);
    let jis = match get_jis_bytes(ch_str) {
        Some(b) => Some(jis_line(&b)),
        None => None,
    };
    let shift_jis = match encode_safe(JpEncoding::ShiftJis, ch_str) {
        Some(b) => Some(bytes_to_hex(b.as_slice())),
        None => None,
    };
    let euc_jp = match encode_safe(JpEncoding::EucJp, ch_str) {
        Some(b) => Some(bytes_to_hex(b.as_slice())),
        None => None,
    };
    CharCodes { jis, shift_jis, euc_jp, utf8, ucs4 }
}

} // verus!
