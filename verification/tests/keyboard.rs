//! Keys, characters and text on concrete values.

use rust_terminal::input::{
    char_bytes, key_bytes, modifier_mask, Modifiers, VK_BACK, VK_DELETE, VK_DOWN, VK_END, VK_ESCAPE,
    VK_F1, VK_F12, VK_HOME, VK_INSERT, VK_LEFT, VK_NEXT, VK_PRIOR, VK_RIGHT, VK_TAB, VK_UP,
};
use rust_terminal::text::{
    contains, ends_with, is_blank, is_whitespace, trimmed, with_carriage_returns,
};
use rust_terminal::utf16::{decode_utf16, encode_utf16, wide};

const NONE: Modifiers = Modifiers { shift: false, alt: false, ctrl: false };

fn key(vk: u16) -> Option<Vec<u8>> {
    key_bytes(vk, false, NONE)
}

#[test]
fn characters_become_utf8() {
    assert_eq!(char_bytes(0x61), b"a".to_vec());
    assert_eq!(char_bytes(0x03), vec![3]);
    assert_eq!(char_bytes(0xe9), vec![0xc3, 0xa9]);
    assert_eq!(char_bytes(0x4e2d), "\u{4e2d}".as_bytes().to_vec());
    assert_eq!(char_bytes(0xd83d), Vec::<u8>::new());
    assert_eq!(char_bytes(0xdfff), Vec::<u8>::new());
    assert_eq!(char_bytes(0xe000), "\u{e000}".as_bytes().to_vec());
}

#[test]
fn modifiers_are_told_apart() {
    let mut seen = Vec::new();
    for bits in 0..8u8 {
        let m = Modifiers { shift: bits & 1 != 0, alt: bits & 2 != 0, ctrl: bits & 4 != 0 };
        assert_eq!(modifier_mask(m), if bits == 0 { 0 } else { 1 + bits });
        seen.push(key_bytes(VK_UP, false, m).unwrap());
    }
    seen.sort();
    seen.dedup();
    assert_eq!(seen.len(), 8);
}

#[test]
fn cursor_keys() {
    assert_eq!(key(VK_UP).unwrap(), b"\x1b[A".to_vec());
    assert_eq!(key(VK_DOWN).unwrap(), b"\x1b[B".to_vec());
    assert_eq!(key(VK_RIGHT).unwrap(), b"\x1b[C".to_vec());
    assert_eq!(key(VK_LEFT).unwrap(), b"\x1b[D".to_vec());
    assert_eq!(key(VK_HOME).unwrap(), b"\x1b[H".to_vec());
    assert_eq!(key(VK_END).unwrap(), b"\x1b[F".to_vec());
    assert_eq!(key_bytes(VK_UP, true, NONE).unwrap(), b"\x1bOA".to_vec());
    let ctrl_shift = Modifiers { shift: true, alt: false, ctrl: true };
    assert_eq!(key_bytes(VK_LEFT, true, ctrl_shift).unwrap(), b"\x1b[1;6D".to_vec());
}

#[test]
fn editing_keys() {
    assert_eq!(key(VK_INSERT).unwrap(), b"\x1b[2~".to_vec());
    assert_eq!(key(VK_DELETE).unwrap(), b"\x1b[3~".to_vec());
    assert_eq!(key(VK_PRIOR).unwrap(), b"\x1b[5~".to_vec());
    assert_eq!(key(VK_NEXT).unwrap(), b"\x1b[6~".to_vec());
    let alt = Modifiers { shift: false, alt: true, ctrl: false };
    assert_eq!(key_bytes(VK_DELETE, false, alt).unwrap(), b"\x1b[3;3~".to_vec());
    assert_eq!(key_bytes(VK_DELETE, true, NONE), key(VK_DELETE));
}

#[test]
fn function_keys() {
    let expected: [&[u8]; 12] = [
        b"\x1bOP", b"\x1bOQ", b"\x1bOR", b"\x1bOS", b"\x1b[15~", b"\x1b[17~", b"\x1b[18~",
        b"\x1b[19~", b"\x1b[20~", b"\x1b[21~", b"\x1b[23~", b"\x1b[24~",
    ];
    for (i, e) in expected.iter().enumerate() {
        assert_eq!(key(VK_F1 + i as u16).unwrap(), e.to_vec());
    }
    let ctrl = Modifiers { shift: false, alt: false, ctrl: true };
    assert_eq!(key_bytes(VK_F1, true, ctrl), key(VK_F1));
    assert_eq!(key(VK_F12 + 1), None);
}

#[test]
fn backspace_keys() {
    assert_eq!(key(VK_BACK).unwrap(), vec![0x7f]);
    let ctrl = Modifiers { shift: false, alt: false, ctrl: true };
    assert_eq!(key_bytes(VK_BACK, false, ctrl).unwrap(), vec![0x08]);
}

#[test]
fn other_keys_arrive_as_characters() {
    assert_eq!(key(0x41), None);
    assert_eq!(key(VK_TAB), None);
    assert_eq!(key(VK_ESCAPE), None);
    assert_eq!(key(0x0d), None);
}

#[test]
fn keys_are_told_apart() {
    for app in [false, true] {
        let mut seen: Vec<Vec<u8>> = (0..=255u16).filter_map(|vk| key_bytes(vk, app, NONE)).collect();
        let n = seen.len();
        assert_eq!(n, 23);
        seen.sort();
        seen.dedup();
        assert_eq!(seen.len(), n);
    }
}

#[test]
fn whitespace_is_unicode_whitespace() {
    for u in 0..0x3100u32 {
        if let Some(c) = char::from_u32(u) {
            assert_eq!(is_whitespace(c), c.is_whitespace());
        }
    }
}

#[test]
fn trimming() {
    assert_eq!(trimmed(" \t a b \u{a0}\r\n"), "a b");
    assert_eq!(trimmed(""), "");
    assert_eq!(trimmed("\u{3000}"), "");
    assert!(is_blank(""));
    assert!(is_blank(" \t"));
    assert!(!is_blank(" x "));
}

#[test]
fn searching() {
    assert!(contains("powershell.exe", "shell"));
    assert!(contains("abc", ""));
    assert!(contains("abc", "abc"));
    assert!(!contains("ab", "abc"));
    assert!(!contains("powershel", "shell"));
    assert!(ends_with("a.exe", ".exe"));
    assert!(!ends_with("a.exe ", ".exe"));
    assert!(!ends_with("exe", ".exe"));
}

#[test]
fn line_ends_become_carriage_returns() {
    assert_eq!(with_carriage_returns("a\r\nb\nc\rd"), "a\rb\rc\rd");
    assert_eq!(with_carriage_returns("\r\r\n\n\n"), "\r\r\r\r");
    assert_eq!(with_carriage_returns("plain"), "plain");
    for s in ["\n\r\n", "a\n\r\nb", "\r\n\r\n", "\n"] {
        let expected = s.replace("\r\n", "\r").replace('\n', "\r");
        assert_eq!(with_carriage_returns(s), expected);
        assert!(!with_carriage_returns(s).contains('\n'));
    }
}

#[test]
fn utf16_round_trip() {
    for s in ["", "abc", "h\u{e9}llo", "\u{1f600}x\u{10ffff}", "\u{ffff}\u{10000}"] {
        assert_eq!(encode_utf16(s), s.encode_utf16().collect::<Vec<u16>>());
        assert_eq!(decode_utf16(&encode_utf16(s)), s);
    }
}

#[test]
fn broken_pairs_are_replaced() {
    for u in [
        vec![0xd83d],
        vec![0xde00, 0x61],
        vec![0xd83d, 0xd83d, 0xde00],
        vec![0x61, 0xd83d, 0x62],
        vec![0xdc00, 0xd800],
    ] {
        assert_eq!(decode_utf16(&u), String::from_utf16_lossy(&u));
    }
    assert_eq!(decode_utf16(&vec![0xd83d, 0x41]), "\u{fffd}A");
}

#[test]
fn wide_strings_end_in_nul() {
    assert_eq!(wide("ab"), vec![0x61, 0x62, 0]);
    let w = wide("\u{1f600}");
    assert_eq!(w.iter().position(|u| *u == 0), Some(2));
}
