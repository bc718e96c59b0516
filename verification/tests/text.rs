use missions::text::contains_text;
use missions::text::decimal_text;
use missions::text::join;
use missions::text::less;
use missions::text::signed_decimal_text;
use missions::text::starts_with;
use missions::text::trim;
use missions::text::trim_nonempty;
use missions::text::white_space;

const SAMPLES: [&str; 12] = [
    "", " ", "a", "ab", "b", "a b ", "\u{a0}x\u{3000}", "é", "e\u{301}", "Z", "\u{10ffff}", "a\nb",
];

#[test]
fn white_space_is_that_of_unicode() {
    let mut code: u32 = 0;
    while code <= 0x10ffff {
        if let Some(c) = char::from_u32(code) {
            assert_eq!(white_space(c), c.is_whitespace(), "{:?}", c);
        }
        code += 1;
    }
}

#[test]
fn trimming_takes_white_space_off_both_ends() {
    for text in SAMPLES {
        assert_eq!(trim(text), text.trim());
        let kept = text.trim();
        assert_eq!(trim_nonempty(text), if kept.is_empty() { None } else { Some(kept.to_string()) });
    }
}

#[test]
fn texts_are_ordered_and_searched_by_characters() {
    for a in SAMPLES {
        for b in SAMPLES {
            assert_eq!(less(a, b), a < b, "{:?} {:?}", a, b);
            assert_eq!(contains_text(a, b), a.contains(b), "{:?} {:?}", a, b);
            assert_eq!(starts_with(a, b), a.starts_with(b), "{:?} {:?}", a, b);
        }
    }
    assert!(contains_text("aaab", "aab"));
}

#[test]
fn numbers_are_written_in_decimal() {
    for n in [0, 9, 10, 99, 100, 12_345, u64::MAX] {
        assert_eq!(decimal_text(n), n.to_string());
    }
    for n in [0, -1, 7, i32::MIN, i32::MAX] {
        assert_eq!(signed_decimal_text(n), n.to_string());
    }
}

#[test]
fn joining_puts_a_separator_between_texts() {
    let texts: Vec<String> = vec!["a".into(), "".into(), "b".into()];
    assert_eq!(join(&texts, ", "), texts.join(", "));
    assert_eq!(join(&Vec::new(), ", "), "");
    assert_eq!(join(&vec!["x".to_string()], ", "), "x");
}
