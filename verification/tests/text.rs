use rumpelpod::paths::join;
use rumpelpod::text::chars_of;
use rumpelpod::text::contains;
use rumpelpod::text::decimal_text;
use rumpelpod::text::find_from;
use rumpelpod::text::in_order;
use rumpelpod::text::is_white_space;
use rumpelpod::text::same_text;
use rumpelpod::text::signed_decimal_text;
use rumpelpod::text::split_lines;
use rumpelpod::text::strip_prefix;
use rumpelpod::text::trim;
use rumpelpod::text::trim_end_of;

const SAMPLES: [&str; 12] = [
    "",
    " ",
    "plain",
    "  both ends\t\n",
    "\u{a0}no-break\u{2003}",
    "line one\nline two",
    "line one\r\nline two\r\n",
    "\n\n",
    "a\rb\n",
    "tail\r",
    "grün\u{3000}",
    "data: {\"x\": 1}\n",
];

#[test]
fn white_space_is_that_of_std() {
    for code in 0u32..=0x10ffff {
        if let Some(c) = char::from_u32(code) {
            assert_eq!(is_white_space(c), c.is_whitespace(), "{code:x}");
        }
    }
}

#[test]
fn trimming_and_splitting_agree_with_std() {
    for sample in SAMPLES {
        assert_eq!(trim(sample), sample.trim());
        let lines: Vec<String> = sample.lines().map(String::from).collect();
        assert_eq!(split_lines(sample), lines, "{sample:?}");
        assert_eq!(chars_of(sample), sample.chars().collect::<Vec<char>>());
    }
}

#[test]
fn separators_are_trimmed_at_the_end_only() {
    assert_eq!(trim_end_of("/a/b///", '/'), "/a/b");
    assert_eq!(trim_end_of("///", '/'), "");
    assert_eq!(trim_end_of("", '/'), "");
}

#[test]
fn prefixes_are_stripped_where_they_stand() {
    assert_eq!(strip_prefix("data: x", "data: "), Some("x"));
    assert_eq!(strip_prefix("data: ", "data: "), Some(""));
    assert_eq!(strip_prefix("data:", "data: "), None);
    assert_eq!(strip_prefix("xdata: ", "data: "), None);
}

#[test]
fn parts_are_found_anywhere() {
    assert!(contains("git: 'lfs' is not a git command.", "is not a git command"));
    assert!(contains("abc", ""));
    assert!(contains("abc", "c"));
    assert!(!contains("abc", "ca"));
    assert!(!contains("ab", "abc"));
}

#[test]
fn characters_are_found_from_an_index_on() {
    let chars = chars_of("a\tb\tc");
    assert_eq!(find_from(&chars, 0, '\t'), 1);
    assert_eq!(find_from(&chars, 2, '\t'), 3);
    assert_eq!(find_from(&chars, 4, '\t'), 5);
}

#[test]
fn texts_are_compared_by_content() {
    assert!(same_text("ab", "ab"));
    assert!(!same_text("ab", "aB"));
}

#[test]
fn numbers_are_written_in_decimal() {
    for n in [0u64, 7, 9, 10, 99, 100, 4294967295, u64::MAX] {
        assert_eq!(decimal_text(n), n.to_string());
    }
    for n in [0i32, 5, -5, 12345, i32::MAX, i32::MIN] {
        assert_eq!(signed_decimal_text(n), n.to_string());
    }
}

#[test]
fn the_order_of_texts_is_that_of_strings() {
    let texts = ["", "A", "a", "aa", "b", "host", "origin", "ß", "\u{10000}", "\u{ffff}"];
    for a in texts {
        for b in texts {
            assert_eq!(in_order(a, b), a <= b, "{a:?} {b:?}");
        }
    }
}

#[test]
fn paths_are_joined_with_one_separator() {
    assert_eq!(join("/tmp/x", "podman.sock"), "/tmp/x/podman.sock");
    assert_eq!(join("/", "etc"), "/etc");
    assert_eq!(join("", "etc"), "etc");
}
