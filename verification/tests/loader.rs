use texpres::error::AppError;
use texpres::loader::{load, SLIDE_DELIMITER};

fn slides(source: &str) -> Vec<String> {
    load(source).expect("the source holds slides")
}

fn is_empty_file(source: &str) -> bool {
    matches!(load(source), Err(AppError::EmptyFile))
}

#[test]
fn delimiter_is_three_dashes() {
    assert_eq!(SLIDE_DELIMITER, "---");
}

#[test]
fn empty_source_is_refused() {
    assert!(is_empty_file(""));
}

#[test]
fn blank_source_is_refused() {
    assert!(is_empty_file("   "));
    assert!(is_empty_file(" \t\r\n \u{a0}\u{3000}"));
}

#[test]
fn lone_delimiter_is_refused() {
    assert!(is_empty_file("---"));
    assert!(is_empty_file("  ---  \n---\n"));
    assert!(is_empty_file("------"));
}

#[test]
fn two_slides() {
    assert_eq!(slides("A---B"), vec!["A".to_string(), "B".to_string()]);
}

#[test]
fn empty_middle_segment_is_dropped() {
    assert_eq!(slides("  A  ---  ---  B  "), vec!["A".to_string(), "B".to_string()]);
}

#[test]
fn single_slide_without_delimiter() {
    assert_eq!(slides("only one\n"), vec!["only one".to_string()]);
}

#[test]
fn delimiter_is_not_anchored_to_lines() {
    assert_eq!(
        slides("one --- two---three"),
        vec!["one".to_string(), "two".to_string(), "three".to_string()]
    );
}

#[test]
fn delimiters_are_matched_from_the_left_without_overlap() {
    assert_eq!(slides("a----b"), vec!["a".to_string(), "-b".to_string()]);
    assert_eq!(slides("a-----b"), vec!["a".to_string(), "--b".to_string()]);
    assert_eq!(slides("a------b"), vec!["a".to_string(), "b".to_string()]);
    assert_eq!(slides("----"), vec!["-".to_string()]);
}

#[test]
fn slide_text_is_kept_as_it_is_inside() {
    let source = "# Title\n\nBody  text\n---\n\n## Next\n\n\nlast -- line\n";
    assert_eq!(
        slides(source),
        vec!["# Title\n\nBody  text".to_string(), "## Next\n\n\nlast -- line".to_string()]
    );
}

#[test]
fn unicode_whitespace_is_trimmed() {
    assert_eq!(
        slides("\u{2003}caf\u{e9} \u{2028}---\u{feff}x\u{85}"),
        vec!["caf\u{e9}".to_string(), "\u{feff}x".to_string()]
    );
}

#[test]
fn load_agrees_with_split_trim_filter() {
    let sources = [
        "A---B",
        "  A  ---  ---  B  ",
        "---A",
        "A---",
        "-- - ---- x --- y",
        "\n\n---\n\n- - -\n---\u{3000}\n",
        "no delimiter at all",
        "\u{1f600}---\u{1f601}",
    ];
    for source in sources {
        let expected: Vec<String> = source
            .split("---")
            .map(|s| s.trim().to_string())
            .filter(|s| !s.is_empty())
            .collect();
        match load(source) {
            Ok(found) => assert_eq!(found, expected),
            Err(AppError::EmptyFile) => assert!(expected.is_empty()),
            Err(other) => panic!("unexpected error: {:?}", other),
        }
    }
}

#[test]
fn load_is_deterministic() {
    let source = " one ---\ntwo\n--- --- three";
    let first = slides(source);
    let second = slides(source);
    let third = slides(&source.to_string());
    assert_eq!(first, second);
    assert_eq!(first, third);
    assert_eq!(first, vec!["one".to_string(), "two".to_string(), "three".to_string()]);
}

#[test]
fn every_loaded_slide_is_trimmed_and_not_empty() {
    let source = " a ---\t---b\n\n---   --- c c ---";
    let found = slides(source);
    assert_eq!(found, vec!["a".to_string(), "b".to_string(), "c c".to_string()]);
    for slide in &found {
        assert!(!slide.is_empty());
        assert_eq!(slide.trim(), slide.as_str());
    }
}
