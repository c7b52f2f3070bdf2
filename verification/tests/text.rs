use texpres::text::{chars_of, find_from, is_whitespace, split, stands_at, string_of, trim_bounds};

fn chars(s: &str) -> Vec<char> {
    s.chars().collect()
}

fn pieces(s: &str, d: &str) -> Vec<String> {
    let text = chars(s);
    split(&text, &chars(d))
        .into_iter()
        .map(|(from, to)| text[from..to].iter().collect())
        .collect()
}

fn trim(s: &str) -> String {
    let text = chars(s);
    let (lo, hi) = trim_bounds(&text);
    text[lo..hi].iter().collect()
}

#[test]
fn whitespace_is_what_the_standard_library_says() {
    for code in 0u32..=0x10_ffff {
        if let Some(c) = char::from_u32(code) {
            assert_eq!(is_whitespace(c), c.is_whitespace(), "U+{:04X}", code);
        }
    }
}

#[test]
fn whitespace_examples() {
    for c in [' ', '\t', '\n', '\r', '\u{b}', '\u{c}', '\u{85}', '\u{a0}', '\u{2009}', '\u{3000}'] {
        assert!(is_whitespace(c));
    }
    for c in ['a', '-', '#', '\u{0}', '\u{1f}', '\u{200b}', '\u{feff}', '\u{180e}'] {
        assert!(!is_whitespace(c));
    }
}

#[test]
fn chars_of_decodes_every_character() {
    assert_eq!(chars_of(""), Vec::<char>::new());
    assert_eq!(chars_of("a\u{e9}\u{1f600}-"), vec!['a', '\u{e9}', '\u{1f600}', '-']);
}

#[test]
fn string_of_builds_the_range() {
    let text = chars("h\u{e9}llo w\u{f6}rld");
    assert_eq!(string_of(&text, 0, text.len()), "h\u{e9}llo w\u{f6}rld");
    assert_eq!(string_of(&text, 1, 5), "\u{e9}llo");
    assert_eq!(string_of(&text, 3, 3), "");
    assert_eq!(string_of(&text, text.len(), text.len()), "");
}

#[test]
fn trim_bounds_examples() {
    assert_eq!(trim_bounds(&chars("")), (0, 0));
    assert_eq!(trim_bounds(&chars("abc")), (0, 3));
    assert_eq!(trim_bounds(&chars("  a b \n")), (2, 5));
    let (lo, hi) = trim_bounds(&chars(" \t\n "));
    assert_eq!(lo, hi);
}

#[test]
fn trim_agrees_with_the_standard_library() {
    for s in ["", " ", "a", " a", "a ", "  a  b  ", "\n\ta\u{a0}", "\u{3000}\u{2003}", "- -", " \u{200b} "] {
        assert_eq!(trim(s), s.trim(), "{:?}", s);
    }
}

#[test]
fn stands_at_examples() {
    let text = chars("ab---cd");
    let dashes = chars("---");
    assert!(stands_at(&text, &dashes, 2));
    assert!(!stands_at(&text, &dashes, 1));
    assert!(!stands_at(&text, &dashes, 3));
    assert!(!stands_at(&text, &dashes, 5));
    assert!(!stands_at(&text, &dashes, 7));
    assert!(!stands_at(&text, &dashes, 100));
    assert!(stands_at(&text, &chars(""), 7));
    assert!(!stands_at(&text, &chars(""), 8));
    assert!(stands_at(&text, &text, 0));
    assert!(!stands_at(&dashes, &text, 0));
}

#[test]
fn find_from_examples() {
    let text = chars("a---b----c");
    let dashes = chars("---");
    assert_eq!(find_from(&text, &dashes, 0), Some(1));
    assert_eq!(find_from(&text, &dashes, 1), Some(1));
    assert_eq!(find_from(&text, &dashes, 2), Some(5));
    assert_eq!(find_from(&text, &dashes, 6), Some(6));
    assert_eq!(find_from(&text, &dashes, 7), None);
    assert_eq!(find_from(&text, &dashes, 50), None);
    assert_eq!(find_from(&text, &chars("x"), 0), None);
    assert_eq!(find_from(&chars("--"), &dashes, 0), None);
    assert_eq!(find_from(&text, &chars(""), 4), Some(4));
    assert_eq!(find_from(&text, &chars(""), 10), Some(10));
    assert_eq!(find_from(&text, &chars(""), 11), None);
}

#[test]
fn split_examples() {
    assert_eq!(pieces("A---B", "---"), vec!["A", "B"]);
    assert_eq!(pieces("", "---"), vec![""]);
    assert_eq!(pieces("---", "---"), vec!["", ""]);
    assert_eq!(pieces("a---", "---"), vec!["a", ""]);
    assert_eq!(pieces("---a", "---"), vec!["", "a"]);
    assert_eq!(pieces("a------b", "---"), vec!["a", "", "b"]);
    assert_eq!(pieces("a----b", "---"), vec!["a", "-b"]);
    assert_eq!(pieces("abc", "---"), vec!["abc"]);
    assert_eq!(pieces("a\n\n\nb", "\n\n"), vec!["a", "\nb"]);
}

#[test]
fn split_on_an_empty_separator_gives_the_text_back() {
    assert_eq!(split(&chars("abc"), &chars("")), vec![(0, 3)]);
}

#[test]
fn split_gives_bounds_in_order() {
    assert_eq!(split(&chars("ab---c---"), &chars("---")), vec![(0, 2), (5, 6), (9, 9)]);
}

#[test]
fn split_agrees_with_the_standard_library() {
    let texts = ["", "-", "--", "---", "----", "a---b---c", "--a--- ---b--", "x\n\ny\n\n\n\nz", "\u{e9}---\u{1f600}"];
    for text in texts {
        for separator in ["---", "\n\n", "-", "a-"] {
            let expected: Vec<&str> = text.split(separator).collect();
            assert_eq!(pieces(text, separator), expected, "{:?} on {:?}", text, separator);
        }
    }
}

#[test]
fn joining_the_segments_gives_the_text_back() {
    for text in ["", "---", "a---b", "a----b---", "------"] {
        assert_eq!(pieces(text, "---").join("---"), text);
    }
}
