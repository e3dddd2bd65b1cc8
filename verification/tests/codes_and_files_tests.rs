use leaf::char_code::{bytes_to_hex, char_codes, encode_safe, get_jis_bytes, hex4, jis_line, ucs4_line, JpEncoding};
use leaf::file_content::{encode_file, file_name_or_unknown, has_utf8_bom, read_file_text};

#[test]
fn hex_formatting() {
    assert_eq!(bytes_to_hex(&[0xE3, 0x81, 0x82]), "E3 81 82");
    assert_eq!(bytes_to_hex(&[0x0A]), "0A");
    assert_eq!(bytes_to_hex(&[]), "");
    assert_eq!(hex4(0x3042), "3042");
    assert_eq!(hex4(0x41), "0041");
    assert_eq!(hex4(0), "0000");
    assert_eq!(hex4(0x1F600), "1F600");
    for n in [0u32, 15, 16, 255, 4096, 65535, 0x10FFFF] {
        assert_eq!(hex4(n), format!("{:04X}", n));
    }
    assert_eq!(ucs4_line(0x3042), "U+3042  (12354)");
    assert_eq!(jis_line(&vec![0x41]), "41  (ASCII)");
    assert_eq!(jis_line(&vec![0x24, 0x22]), "24 22");
}

#[test]
fn codes_of_hiragana_a() {
    let c = char_codes("あ");
    assert_eq!(c.utf8, "E3 81 82");
    assert_eq!(c.ucs4, "U+3042  (12354)");
    assert_eq!(c.shift_jis.as_deref(), Some("82 A0"));
    assert_eq!(c.euc_jp.as_deref(), Some("A4 A2"));
    assert_eq!(c.jis.as_deref(), Some("24 22"));
}

#[test]
fn codes_of_ascii_letter() {
    let c = char_codes("A");
    assert_eq!(c.utf8, "41");
    assert_eq!(c.ucs4, "U+0041  (65)");
    assert_eq!(c.shift_jis.as_deref(), Some("41"));
    assert_eq!(c.euc_jp.as_deref(), Some("41"));
    assert_eq!(c.jis.as_deref(), Some("41  (ASCII)"));
}

#[test]
fn codes_of_emoji_lack_japanese_encodings() {
    let c = char_codes("😀");
    assert_eq!(c.utf8, "F0 9F 98 80");
    assert_eq!(c.ucs4, "U+1F600  (128512)");
    assert_eq!(c.shift_jis, None);
    assert_eq!(c.euc_jp, None);
    assert_eq!(c.jis, None);
}

#[test]
fn codes_of_nothing() {
    let c = char_codes("");
    assert_eq!(c.utf8, "00");
    assert_eq!(c.ucs4, "U+0000  (0)");
    assert_eq!(c.jis, None);
    assert_eq!(c.shift_jis.as_deref(), Some(""));
}

#[test]
fn encodings_directly() {
    assert_eq!(encode_safe(JpEncoding::ShiftJis, "漢"), Some(vec![0x8A, 0xBF]));
    assert_eq!(encode_safe(JpEncoding::EucJp, "漢"), Some(vec![0xB4, 0xC1]));
    assert_eq!(get_jis_bytes("漢"), Some(vec![0x34, 0x41]));
    assert_eq!(get_jis_bytes("z"), Some(vec![b'z']));
    assert_eq!(get_jis_bytes("ab"), None);
}

#[test]
fn byte_order_mark_taken_off() {
    let bytes = [0xEF, 0xBB, 0xBF, b'h', b'i'];
    assert!(has_utf8_bom(&bytes));
    assert!(!has_utf8_bom(b"hi"));
    assert!(!has_utf8_bom(&[0xEF, 0xBB]));
    assert_eq!(read_file_text(&bytes), "hi");
    assert_eq!(read_file_text(b"plain"), "plain");
    assert_eq!(read_file_text(&[0xFF, b'a']), "\u{FFFD}a");
    assert_eq!(read_file_text(&[0xEF, 0xBB, 0xBF]), "");
}

#[test]
fn byte_order_mark_put_back() {
    assert_eq!(encode_file("hi", true), vec![0xEF, 0xBB, 0xBF, b'h', b'i']);
    assert_eq!(encode_file("hi", false), vec![b'h', b'i']);
    assert_eq!(encode_file("", true), vec![0xEF, 0xBB, 0xBF]);
}

#[test]
fn saved_text_reads_back() {
    for text in ["", "hello", "日本語\nテキスト", "\u{feff}x"] {
        assert_eq!(read_file_text(&encode_file(text, true)), text);
    }
    for text in ["", "hello", "日本語"] {
        assert_eq!(read_file_text(&encode_file(text, false)), text);
    }
    assert_eq!(read_file_text(&encode_file("\u{feff}x", false)), "x");
}

#[test]
fn file_names() {
    assert_eq!(file_name_or_unknown(Some("a.txt".to_string())), "a.txt");
    assert_eq!(file_name_or_unknown(None), "unknown");
}
