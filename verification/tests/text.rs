use lethe::clock::Timestamp;
use lethe::order::{sort_unique, text_before_text};
use lethe::text::{
    align_right, around, cap_text, chars_of, collapse, decimal_text, find_first, find_past_last, is_blank, join_texts,
    parse_u16, same_text, split_lines, split_words, starts_with, take_bytes, take_chars, text_before, trim, white,
};

fn owned(texts: &[&str]) -> Vec<String> {
    texts.iter().map(|t| t.to_string()).collect()
}

const SAMPLES: [&str; 14] = [
    "",
    " ",
    "a",
    " a b ",
    "\r\n",
    "a\nb",
    "a\r\nb\r\n",
    "a\rb",
    "\n\na",
    "é ü\u{2003}ß",
    "\u{feff}x\u{200b}",
    "a\n\r\n",
    "\u{85}q\u{3000}",
    "😀 {x} {y}",
];

#[test]
fn white_space_is_white_space() {
    for n in 0..=0x10ffffu32 {
        if let Some(c) = char::from_u32(n) {
            assert_eq!(white(c), c.is_whitespace(), "{n:x}");
        }
    }
}

#[test]
fn texts_are_taken_apart_as_usual() {
    for s in SAMPLES {
        assert_eq!(trim(s), s.trim());
        assert_eq!(is_blank(s), s.trim().is_empty());
        assert_eq!(split_words(s), s.split_whitespace().map(str::to_string).collect::<Vec<_>>());
        assert_eq!(split_lines(s), s.lines().map(str::to_string).collect::<Vec<_>>());
        assert_eq!(collapse(s), s.split_whitespace().collect::<Vec<_>>().join(" "));
        assert_eq!(chars_of(s), s.chars().collect::<Vec<_>>());
        for n in 0..6 {
            assert_eq!(take_chars(s, n), s.chars().take(n).collect::<String>());
            assert_eq!(
                take_bytes(s, n).as_deref(),
                s.get(..s.len().min(n)),
                "{s:?} {n}"
            );
        }
        for t in SAMPLES {
            assert_eq!(same_text(s, t), s == t);
            assert_eq!(starts_with(s, t), s.starts_with(t));
            assert_eq!(text_before_text(s, t), s < t);
            assert_eq!(text_before(s, t).as_deref(), s.split_once(t).map(|(before, _)| before));
        }
    }
}

#[test]
fn marks_are_found() {
    assert_eq!(find_first("a{b{", '{'), 1);
    assert_eq!(find_first("ab", '{'), 2);
    assert_eq!(find_past_last("a}b}c", '}'), 4);
    assert_eq!(find_past_last("ab", '}'), 0);
}

#[test]
fn texts_are_put_together() {
    assert_eq!(join_texts(&owned(&["a", "", "b"]), ", "), "a, , b");
    assert_eq!(join_texts(&Vec::new(), ","), "");
    assert_eq!(around("<", "x", ">"), "<x>");
    assert_eq!(cap_text("abcd", 3, "!"), "abc!");
    assert_eq!(cap_text("abc", 3, "!"), "abc");
    assert_eq!(align_right("é", 4), format!("{:>4}", "é"));
    assert_eq!(align_right("abcde", 4), format!("{:>4}", "abcde"));
}

#[test]
fn numbers_are_written_and_read() {
    for n in [0, 9, 10, 99, 100, 65535, u64::MAX] {
        assert_eq!(decimal_text(n), n.to_string());
    }
    for s in ["0", "65535", "65536", "+7", "-7", "", "+", "007", "1 ", "９", "99999999999999999999999"] {
        assert_eq!(parse_u16(s), s.parse::<u16>().ok(), "{s}");
    }
}

#[test]
fn sorting_orders_and_removes_repeats() {
    let texts = owned(&["b", "a", "é", "b", "", "ab", "a", "Z", "\u{10000}", "\u{ffff}"]);
    let mut expected = texts.clone();
    expected.sort();
    expected.dedup();
    assert_eq!(sort_unique(&texts), expected);
    assert_eq!(sort_unique(&Vec::new()), Vec::<String>::new());
}

#[test]
fn instants_have_their_notation() {
    assert_eq!(Timestamp::new(0, 0).unwrap().to_rfc3339(), "1970-01-01T00:00:00+00:00");
    assert_eq!(
        Timestamp::new(1_700_000_000, 123_000_000).unwrap().to_rfc3339(),
        "2023-11-14T22:13:20.123+00:00"
    );
    assert_eq!(Timestamp::new(i64::MAX, 0), None);
    assert_eq!(Timestamp::new(0, 2_000_000_000), None);
    assert_eq!(Timestamp::new(7, 0).unwrap().seconds(), 7);
    let now = Timestamp::now();
    assert!(Timestamp::new(now.seconds(), 0).is_some());
}

#[test]
fn splitting_undoes_joining() {
    let lines = owned(&["- a — x", "- b — y\rz", "c"]);
    assert_eq!(split_lines(&join_texts(&lines, "\n")), lines);
}
