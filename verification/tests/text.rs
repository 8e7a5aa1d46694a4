use ledger_boot::text::{followed_by, is_white_space, split_trimmed, to_decimal, trim};

#[test]
fn white_space_is_that_of_unicode() {
    for code in 0..=0x10FFFFu32 {
        if let Some(c) = char::from_u32(code) {
            assert_eq!(is_white_space(c), c.is_whitespace(), "{:x}", code);
        }
    }
}

#[test]
fn trimming_removes_white_space_at_both_ends() {
    assert_eq!(trim("  a b\t\r\n"), "a b");
    assert_eq!(trim("\u{3000}x\u{a0}"), "x");
    assert_eq!(trim("none"), "none");
    assert_eq!(trim(" \t "), "");
    assert_eq!(trim(""), "");
    assert_eq!(trim(" \u{e9}\u{2003}\u{1f600} "), "\u{e9}\u{2003}\u{1f600}");
}

#[test]
fn trimming_is_that_of_std() {
    for text in ["  a  ", "", " ", "a", "\u{2028}b c\u{205f}"] {
        assert_eq!(trim(text), text.trim());
    }
}

#[test]
fn splitting_keeps_empty_pieces() {
    assert_eq!(split_trimmed("a,,b", ','), vec!["a", "", "b"]);
    assert_eq!(split_trimmed("", ','), vec![""]);
    assert_eq!(split_trimmed(",", ','), vec!["", ""]);
    assert_eq!(split_trimmed("a;b", ','), vec!["a;b"]);
    assert_eq!(split_trimmed(" a ; b c ;", ';'), vec!["a", "b c", ""]);
    assert_eq!(split_trimmed("\u{fc},\u{4e2d} ", ','), vec!["\u{fc}", "\u{4e2d}"]);
}

#[test]
fn pieces_join_to_the_text() {
    for text in ["", "a", ",", "a,b", ",a,,b,", "x,y,z"] {
        assert_eq!(split_trimmed(text, ',').join(","), text);
    }
}

#[test]
fn numbers_are_written_in_decimal() {
    for n in [0usize, 1, 9, 10, 42, 99, 100, 1234567890, usize::MAX] {
        assert_eq!(to_decimal(n), n.to_string());
    }
}

#[test]
fn texts_are_concatenated() {
    assert_eq!(followed_by("a", "b"), "ab");
    assert_eq!(followed_by("", ""), "");
}
