use rust_box::path::{extension, file_stem};
use rust_box::text::{
    characters, decimal_text, ends_with, find_char, has_char, has_part, join_lines, parse_number,
    same_text, split_bytes, split_text, starts_with, trim, white_space, wide_text,
};

#[test]
fn trimming_is_that_of_std() {
    for s in ["", " ", "a", " a ", "\t\u{85}a b\u{2003}\u{2028}\r\n", "\u{200b}a\u{200b}", "\u{feff}"] {
        assert_eq!(trim(s), s.trim());
        assert_eq!(trim(trim(s)), trim(s));
    }
}

#[test]
fn white_space_is_that_of_std() {
    for v in 0..=0x10ffffu32 {
        if let Some(c) = char::from_u32(v) {
            assert_eq!(white_space(c), c.is_whitespace(), "{:x}", v);
        }
    }
}

#[test]
fn lines_are_those_of_std() {
    for s in ["", "\n", "a", "a\n", "a\r\nb\r", "\r\n\n\r", "\u{e9}\n\nx\r\r\n"] {
        let expected: Vec<String> = s.lines().map(|l| l.to_string()).collect();
        assert_eq!(split_text(s), expected);
        let bytes: Vec<Vec<u8>> = expected.iter().map(|l| l.as_bytes().to_vec()).collect();
        assert_eq!(split_bytes(s.as_bytes()), bytes);
        assert_eq!(join_lines(&expected), expected.join("\n"));
    }
}

#[test]
fn searching_in_texts() {
    assert!(starts_with("cfg_path=x", "cfg_path="));
    assert!(!starts_with("cfg", "cfg_path="));
    assert!(starts_with("x", ""));
    assert!(ends_with("a.exe", ".exe"));
    assert!(!ends_with("exe", ".exe"));
    assert!(has_char("a\\b", '\\'));
    assert!(!has_char("", 'a'));
    assert!(has_part("xx 123 yy", "123"));
    assert!(!has_part("12 3", "123"));
    assert!(has_part("", ""));
    assert_eq!(find_char("\u{e9}=b=", '='), Some(1));
    assert_eq!(find_char("ab", '='), None);
    assert!(same_text("ab", "ab"));
    assert!(!same_text("ab", "aB"));
    assert_eq!(characters("a\u{1f600}"), vec!['a', '\u{1f600}']);
}

#[test]
fn numbers_in_decimal() {
    for n in [0u32, 7, 10, 99, 100, 4096, u32::MAX] {
        assert_eq!(decimal_text(n), n.to_string());
        assert_eq!(parse_number(&decimal_text(n)), Some(n));
    }
    for s in ["", "+", "+7", "-7", "007", "4294967295", "4294967296", "99999999999", "1 ", "1a", "++1"] {
        assert_eq!(parse_number(s), s.parse::<u32>().ok(), "{}", s);
    }
}

#[test]
fn utf16_ends_in_zero() {
    for s in ["", "abc", "\u{25b6} Start", "\u{1f600}x\u{10ffff}"] {
        let expected: Vec<u16> = s.encode_utf16().chain(Some(0)).collect();
        assert_eq!(wide_text(s), expected);
    }
}

#[test]
fn names_have_stems_and_extensions() {
    for name in ["a", "a.exe", "a.b.exe", ".hidden", ".a.b", "a.", "sing-box"] {
        let path = std::path::Path::new(name);
        assert_eq!(file_stem(name), path.file_stem().unwrap().to_str().unwrap());
        assert_eq!(extension(name), path.extension().map(|e| e.to_str().unwrap().to_string()));
    }
}
