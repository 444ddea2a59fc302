//! Text and path functions beside those of the standard library.

use std::path::Path;

use nix_agent::paths::{file_name, join_path, parent_dir, with_suffix};
use nix_agent::text::{
    append_decimal, begins_with, chars_of, find, finishes_with, has_char, has_text,
    is_ascii_letter, is_ascii_letter_or_digit, is_white_space, join, lines, same_text, trim,
    unbroken, words,
};

const SAMPLES: [&str; 14] = [
    "",
    " ",
    "a",
    " a b\tc ",
    "\u{3000}é\u{2028}ö\u{85}",
    "a\nb",
    "a\n",
    "\n\na\r\n\r\nb\r",
    "\r\n",
    "\r",
    "./a/b",
    "x[y]z",
    "pkgs.pkgs",
    "a\u{200b}b \u{feff}",
];

#[test]
fn white_space_is_that_of_unicode() {
    for n in 0..0x110000u32 {
        if let Some(c) = char::from_u32(n) {
            assert_eq!(is_white_space(c), c.is_whitespace(), "{:x}", n);
            assert_eq!(is_ascii_letter(c), c.is_ascii_alphabetic());
            assert_eq!(is_ascii_letter_or_digit(c), c.is_ascii_alphanumeric());
        }
    }
}

#[test]
fn texts_are_cut_like_those_of_std() {
    for s in SAMPLES {
        assert_eq!(trim(s), s.trim());
        assert_eq!(lines(s), s.lines().map(|l| l.to_owned()).collect::<Vec<_>>());
        assert_eq!(words(s), s.split_whitespace().map(|w| w.to_owned()).collect::<Vec<_>>());
        for c in ['a', ' ', ']', 'é'] {
            assert_eq!(has_char(s, c), s.contains(c));
        }
        assert_eq!(unbroken(s), s.replace('\n', " "));
        assert_eq!(chars_of(s), s.chars().collect::<Vec<char>>());
        for t in SAMPLES {
            assert_eq!(same_text(s, t), s == t);
            assert_eq!(has_text(s, t), s.contains(t));
            assert_eq!(begins_with(s, t), s.starts_with(t));
            assert_eq!(finishes_with(s, t), s.ends_with(t));
        }
    }
}

#[test]
fn searching_counts_characters() {
    let v = chars_of("éabab");
    let p = chars_of("ab");
    assert_eq!(find(&v, &p, 0), Some(1));
    assert_eq!(find(&v, &p, 2), Some(3));
    assert_eq!(find(&v, &p, 4), None);
    assert_eq!(find(&v, &chars_of(""), 5), Some(5));
    assert_eq!(find(&v, &chars_of(""), 6), None);
}

#[test]
fn texts_are_joined_and_numbers_written() {
    let parts = vec!["a".to_owned(), "b".to_owned(), "c".to_owned()];
    assert_eq!(join(&parts, 0, ", "), "a, b, c");
    assert_eq!(join(&parts, 2, ", "), "c");
    assert_eq!(join(&parts, 3, ", "), "");
    for n in [0u64, 7, 10, 99, 100, 1203, 4294967295, u64::MAX] {
        let mut out = "n=".to_owned();
        append_decimal(&mut out, n);
        assert_eq!(out, format!("n={}", n));
    }
}

const PATHS: [&str; 26] = [
    "", "/", "//", ".", "..", "./", "../", "a", "a/", "a//", "a/b", "a//b", "/a", "/a/", "//a",
    "/a/b.nix", "a/.", "a/./", "a/..", "./a", "/.", "/..", "a/./.", "a.", "a/b.", ".a",
];

#[test]
fn paths_are_like_those_of_std() {
    for p in PATHS {
        let std_name = Path::new(p).file_name().map(|n| n.to_str().unwrap().to_owned());
        assert_eq!(file_name(p), std_name, "{}", p);
        let std_parent = Path::new(p).parent().map(|d| d.to_str().unwrap().to_owned());
        assert_eq!(parent_dir(p), std_parent, "{}", p);
        for q in PATHS {
            assert_eq!(join_path(p, q), Path::new(p).join(q).to_str().unwrap(), "{} {}", p, q);
        }
    }
    assert_eq!(with_suffix("/a/default.nix", ".bak"), "/a/default.nix.bak");
}
