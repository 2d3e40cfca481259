use debrep::text::{
    chars_of, count_spaces, find_char, find_str, find_sub, first_line_of, has_prefix_str,
    has_suffix_str, is_space, is_text, joined, nth_field, nth_line, nth_word, push_decimal,
    rfind_char, string_of, trim, trim_end,
};

const SAMPLES: [&str; 14] = [
    "",
    " ",
    "a",
    "  a b  ",
    "one two three",
    "\tone\ttwo\n",
    "line one\nline two\r\nline three\r",
    "\n",
    "\r\n",
    "a\n\nb",
    "no-newline\r",
    "x\u{a0}y\u{2003}z",
    "a/b//c/",
    "_lead_trail_",
];

fn chars(s: &str) -> Vec<char> {
    s.chars().collect()
}

fn text(v: &[char]) -> String {
    v.iter().collect()
}

#[test]
fn white_space_is_what_the_standard_library_says() {
    let mut c = 0u32;
    while c <= 0x10FFFF {
        if let Some(ch) = char::from_u32(c) {
            assert_eq!(is_space(ch), ch.is_whitespace(), "U+{:04X}", c);
        }
        c += 1;
    }
}

#[test]
fn words_lines_and_fields_are_split_as_the_standard_library_splits_them() {
    for sample in SAMPLES {
        let v = chars(sample);
        for n in 0..5 {
            assert_eq!(
                nth_word(&v, n).map(text),
                sample.split_whitespace().nth(n).map(|w| w.to_owned()),
                "word {} of {:?}",
                n,
                sample
            );
            assert_eq!(
                nth_line(&v, n).map(text),
                sample.lines().nth(n).map(|l| l.to_owned()),
                "line {} of {:?}",
                n,
                sample
            );
            for sep in ['/', '_', ' '] {
                assert_eq!(
                    nth_field(&v, sep, n).map(text),
                    sample.split(sep).nth(n).map(|f| f.to_owned()),
                    "field {} of {:?}",
                    n,
                    sample
                );
            }
        }
        assert_eq!(first_line_of(&v).map(text), sample.lines().next().map(|l| l.to_owned()));
        assert_eq!(text(trim(&v)), sample.trim());
        assert_eq!(text(trim_end(&v)), sample.trim_end());
        assert_eq!(count_spaces(&v), sample.len() - sample.trim_start().len().min(sample.len()));
    }
}

#[test]
fn texts_are_searched_as_the_standard_library_searches_them() {
    for sample in SAMPLES {
        let v = chars(sample);
        for c in ['a', '/', '_', '\n', ' '] {
            assert_eq!(find_char(&v, c), sample.chars().position(|x| x == c));
            let last = sample.chars().rev().position(|x| x == c).map(|p| v.len() - 1 - p);
            assert_eq!(rfind_char(&v, c), last);
        }
        for pattern in ["", "a", "line", "two", "//", "_", "zz"] {
            let expected = sample.find(pattern).map(|byte| sample[..byte].chars().count());
            assert_eq!(find_str(&v, pattern), expected, "{:?} in {:?}", pattern, sample);
            assert_eq!(find_sub(&v, &chars(pattern)), expected);
            assert_eq!(has_prefix_str(&v, pattern), sample.starts_with(pattern));
            assert_eq!(has_suffix_str(&v, pattern), sample.ends_with(pattern));
            assert_eq!(is_text(&v, pattern), sample == pattern);
        }
    }
}

#[test]
fn texts_are_taken_apart_and_put_together() {
    for sample in SAMPLES {
        assert_eq!(chars_of(sample), chars(sample));
        assert_eq!(string_of(&chars(sample)), sample);
        assert_eq!(joined(sample, "!"), format!("{}!", sample));
    }
    for n in [0u64, 9, 10, 99, 100, 12345, u64::MAX] {
        let mut out = vec!['#'];
        push_decimal(&mut out, n);
        assert_eq!(text(&out), format!("#{}", n));
    }
}
