//! Texts and paths.

use facelock::paths::{absolute, components_of, file_name_of, joined_path, same_path, under};
use facelock::text::{
    comes_first, cut_at, decimal_of, end_trimmed, ends_with, holds, joined, lines_of, lower,
    octal_of, parted, pieces_of, same_ignore_case, sorted, start_trimmed, starts_with,
    strip_prefix, trimmed, u32_of, words_of, yes_or_no,
};

#[test]
fn lines_end_as_std_ends_them() {
    for text in ["", "\n", "a", "a\n", "a\nb", "a\r\nb\r\n", "a\r\rb\n\n", "\r\n", "a\r"] {
        let expected: Vec<&str> = text.lines().collect();
        assert_eq!(lines_of(text), expected, "{text:?}");
    }
}

#[test]
fn trimming_is_stds() {
    for text in ["", "  ", " a b ", "\t\na\u{a0}", "\u{3000}x\u{2028}", "é"] {
        assert_eq!(trimmed(text), text.trim(), "{text:?}");
        assert_eq!(start_trimmed(text), text.trim_start(), "{text:?}");
        assert_eq!(end_trimmed(text), text.trim_end(), "{text:?}");
    }
}

#[test]
fn words_and_pieces_are_stds() {
    for text in ["", " ", "a", " a  b\tc\n", "one two"] {
        let expected: Vec<&str> = text.split_whitespace().collect();
        assert_eq!(words_of(text), expected, "{text:?}");
    }
    for text in ["", ",", "a,b", ",a,,b,"] {
        let expected: Vec<&str> = text.split(',').collect();
        assert_eq!(pieces_of(text, ","), expected, "{text:?}");
    }
    assert_eq!(cut_at("a=>b=>c", "=>"), Some(("a".to_string(), "b=>c".to_string())));
    assert_eq!(cut_at("abc", "=>"), None);
    assert_eq!(parted("k=v=w", '='), Some(("k".to_string(), "v=w".to_string())));
    assert_eq!(parted("k", '='), None);
}

#[test]
fn occurrences_are_found() {
    assert!(holds("abcabd", "abd") && !holds("abcab", "abd") && holds("", ""));
    assert!(starts_with("abc", "ab") && !starts_with("ab", "abc"));
    assert!(ends_with("abc", "bc") && !ends_with("bc", "abc"));
    assert_eq!(strip_prefix("device:x", "device:"), Some("x".to_string()));
    assert_eq!(strip_prefix("x", "device:"), None);
}

#[test]
fn numbers_are_written_and_read() {
    for n in [0, 7, 10, 99, 100, 4294967295, u64::MAX] {
        assert_eq!(decimal_of(n), n.to_string());
        assert_eq!(octal_of(n), format!("{n:o}"));
    }
    for text in ["0", "007", "+5", "4294967295", "4294967296", "", "+", "-1", "1 ", "x"] {
        assert_eq!(u32_of(text), text.parse::<u32>().ok(), "{text:?}");
    }
}

#[test]
fn texts_are_ordered_and_folded() {
    let v = vec!["b".to_string(), "a".to_string(), "ab".to_string(), "".to_string()];
    assert_eq!(sorted(v), vec!["", "a", "ab", "b"]);
    assert!(comes_first("a", "b") && !comes_first("b", "a"));
    assert_eq!(lower("AbC-É"), "abc-É");
    assert!(same_ignore_case("AbC", "aBc") && !same_ignore_case("a", "b"));
    assert_eq!(joined(&vec!["a".to_string(), "b".to_string()], ", "), "a, b");
    assert_eq!(yes_or_no(true), "yes");
    assert_eq!(yes_or_no(false), "no");
}

#[test]
fn paths_are_read_by_component() {
    assert_eq!(components_of("/etc//pam.d/./sudo/"), vec!["etc", "pam.d", "sudo"]);
    assert_eq!(joined_path("/etc/pam.d", "sudo"), "/etc/pam.d/sudo");
    assert_eq!(joined_path("/", "sudo"), "/sudo");
    assert!(absolute("/a") && !absolute("a") && !absolute(""));
    assert!(under("/etc/pam.d/x", "/etc/pam.d") && !under("/etc/pam.d.x", "/etc/pam.d"));
    assert!(same_path("/a/b/", "/a//b") && !same_path("/a/b", "/a/c"));
    assert_eq!(file_name_of("/a/b.onnx"), "b.onnx");
    assert_eq!(file_name_of("/a/.."), "");
}

#[test]
fn a_plain_name_stays_in_its_directory() {
    for base in ["/run/user/1", "/run/user/1/", "/"] {
        for name in ["wayland-0", "..x", "a b"] {
            let path = joined_path(base, name);
            assert!(under(&path, base), "{path}");
            assert_eq!(components_of(&path).len(), components_of(base).len() + 1);
            assert_eq!(file_name_of(&path), name);
        }
    }
}
