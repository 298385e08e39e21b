use way_pad::text::{
    comes_before, contains, decimal_text, is_white_space, join, pad_right, same_text, signed_text, trim,
};

#[test]
fn numbers_are_written_in_decimal() {
    for n in [0u64, 7, 9, 10, 99, 100, 1500, u32::MAX as u64, u64::MAX] {
        assert_eq!(decimal_text(n), n.to_string());
    }
    for n in [0i64, -1, 9, -10, 42, i64::MIN, i64::MAX] {
        assert_eq!(signed_text(n), n.to_string());
    }
}

#[test]
fn notations_differ_where_numbers_do() {
    let mut seen = std::collections::BTreeSet::new();
    for n in -300i64..300 {
        assert!(seen.insert(signed_text(n)));
    }
}

#[test]
fn lists_are_joined() {
    let list = |v: &[&str]| v.iter().map(|s| s.to_string()).collect::<Vec<String>>();
    assert_eq!(join(&list(&[]), ", "), "");
    assert_eq!(join(&list(&["a"]), ", "), "a");
    assert_eq!(join(&list(&["a", "", "窗口"]), ", "), "a, , 窗口");
}

#[test]
fn texts_are_padded_by_characters() {
    assert_eq!(pad_right("ab", 4), "ab  ");
    assert_eq!(pad_right("窗口", 4), "窗口  ");
    assert_eq!(pad_right("abcd", 4), "abcd");
    assert_eq!(pad_right("abcde", 4), "abcde");
    assert_eq!(pad_right("", 0), "");
}

#[test]
fn substrings_are_found() {
    for (hay, needle) in [
        ("cannot move a fullscreen window", "fullscreen"),
        ("fullscree", "fullscreen"),
        ("fullfullscreen", "fullscreen"),
        ("全屏 fullscreen", "fullscreen"),
        ("", ""),
        ("", "a"),
        ("aab", "ab"),
    ] {
        assert_eq!(contains(hay, needle), hay.contains(needle), "{hay} {needle}");
    }
}

#[test]
fn white_space_is_that_of_unicode() {
    for c in '\0'..=char::MAX {
        assert_eq!(is_white_space(c), c.is_whitespace(), "{c:?}");
    }
}

#[test]
fn both_ends_are_trimmed() {
    for s in ["", " ", " a ", "\t a b\n", "\u{3000}x\u{a0}", "x"] {
        assert_eq!(trim(s), s.trim());
    }
}

#[test]
fn same_texts_are_the_same() {
    assert!(same_text("窗", "窗"));
    assert!(!same_text("a", "A"));
    assert!(!same_text("a", ""));
}

#[test]
fn texts_are_ordered_as_in_the_standard_library() {
    let texts = ["", "a", "ab", "b", "B", "9", "10", "é", "窗", "窗口", "\u{ffff}", "\u{10000}"];
    for a in texts {
        for b in texts {
            assert_eq!(comes_before(a, b), a < b, "{a} {b}");
            assert!(!(comes_before(a, b) && comes_before(b, a)));
        }
    }
}
