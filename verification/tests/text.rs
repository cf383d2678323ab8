use goose_gateway::text::{
    begins_with, chars_of, count_before, final_line, has_text, integer_text, is_before, is_white,
    join, natural_text, read_u16, same, split_first, split_on, split_words, to_lower, to_lower_char,
    trim, trim_trailing,
};

const SAMPLES: [&str; 14] = [
    "",
    " ",
    "a",
    " a b ",
    "\u{a0}x\u{2003}y\u{3000}",
    "one\ntwo\n",
    "one\n\ntwo",
    "\n",
    "é,É,ß",
    "Aé\u{1f600}Z",
    ",a,,b,",
    "aaa",
    "///",
    "x/",
];

#[test]
fn characters_agree_with_the_standard_library() {
    for n in 0..=0x10ffffu32 {
        if let Some(c) = char::from_u32(n) {
            assert_eq!(is_white(c), c.is_whitespace(), "{n:x}");
            assert_eq!(to_lower_char(c), c.to_ascii_lowercase(), "{n:x}");
        }
    }
}

#[test]
fn texts_agree_with_the_standard_library() {
    for s in SAMPLES {
        assert_eq!(trim(s), s.trim());
        assert_eq!(to_lower(s), s.to_ascii_lowercase());
        assert_eq!(trim_trailing(s, '/'), s.trim_end_matches('/'));
        assert_eq!(split_on(s, ','), s.split(',').collect::<Vec<_>>());
        assert_eq!(split_words(s), s.split_whitespace().collect::<Vec<_>>());
        assert_eq!(final_line(s).as_deref(), s.lines().last());
        let until = s.chars().take_while(|c| *c != 'b').count();
        assert_eq!(count_before(&chars_of(s), 'b'), until);
        for t in SAMPLES {
            assert_eq!(same(s, t), s == t);
            assert_eq!(begins_with(s, t), s.starts_with(t));
            assert_eq!(has_text(s, t), s.contains(t));
            assert_eq!(is_before(s, t), s < t);
            let split = split_first(s, t);
            let expected = s.split_once(t).map(|(a, b)| (a.to_owned(), b.to_owned()));
            assert_eq!(split, expected, "{s:?} {t:?}");
        }
    }
}

#[test]
fn numbers_agree_with_the_standard_library() {
    for n in [0u64, 7, 10, 99, 100, 8791, u64::MAX] {
        assert_eq!(natural_text(n), n.to_string());
    }
    for n in [0i64, -1, 10, -10, i64::MAX, i64::MIN] {
        assert_eq!(integer_text(n), n.to_string());
    }
    for s in ["0", "00", "65535", "65536", "+1", "-1", "", "+", "1a", "٣"] {
        assert_eq!(read_u16(s), s.parse::<u16>().ok(), "{s}");
    }
}

#[test]
fn texts_are_joined() {
    let parts = |all: &[&str]| all.iter().map(|s| s.to_string()).collect::<Vec<_>>();
    assert_eq!(join(&parts(&[]), "\n"), "");
    assert_eq!(join(&parts(&["a"]), "\n"), "a");
    assert_eq!(join(&parts(&["a", "", "b"]), "\n"), "a\n\nb");
}
