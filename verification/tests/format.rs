use texpres::format::{
    format_slide, layout_runs, Paragraph, ParagraphKind, RunStyle, TextRun, PARAGRAPH_BREAK,
    SUBTITLE_MARKER, TITLE_MARKER,
};

fn paragraph(kind: ParagraphKind, text: &str) -> Paragraph {
    Paragraph { kind, text: text.to_string() }
}

fn run(style: RunStyle, text: &str) -> TextRun {
    TextRun { text: text.to_string(), style }
}

#[test]
fn markers() {
    assert_eq!(PARAGRAPH_BREAK, "\n\n");
    assert_eq!(TITLE_MARKER, "# ");
    assert_eq!(SUBTITLE_MARKER, "## ");
}

#[test]
fn title_and_body() {
    let found = format_slide("# Title\n\nBody text");
    assert_eq!(
        found,
        vec![paragraph(ParagraphKind::Title, "Title"), paragraph(ParagraphKind::Body, "Body text")]
    );
    assert_eq!(found[0].kind.scale_percent(), 150);
    assert_eq!(found[1].kind.scale_percent(), 100);
}

#[test]
fn scales() {
    assert_eq!(ParagraphKind::Title.scale_percent(), 150);
    assert_eq!(ParagraphKind::Subtitle.scale_percent(), 120);
    assert_eq!(ParagraphKind::Body.scale_percent(), 100);
}

#[test]
fn subtitle() {
    assert_eq!(
        format_slide("## Sub\n\n# Main\n\nrest"),
        vec![
            paragraph(ParagraphKind::Subtitle, "Sub"),
            paragraph(ParagraphKind::Title, "Main"),
            paragraph(ParagraphKind::Body, "rest"),
        ]
    );
}

#[test]
fn malformed_markers_are_body_text() {
    assert_eq!(format_slide("#Title"), vec![paragraph(ParagraphKind::Body, "#Title")]);
    assert_eq!(format_slide("##Sub"), vec![paragraph(ParagraphKind::Body, "##Sub")]);
    assert_eq!(format_slide("### deep"), vec![paragraph(ParagraphKind::Body, "### deep")]);
    assert_eq!(format_slide(" # late"), vec![paragraph(ParagraphKind::Body, " # late")]);
    assert_eq!(format_slide("#"), vec![paragraph(ParagraphKind::Body, "#")]);
    assert_eq!(format_slide("##"), vec![paragraph(ParagraphKind::Body, "##")]);
}

#[test]
fn bare_markers_give_empty_headings() {
    assert_eq!(format_slide("# "), vec![paragraph(ParagraphKind::Title, "")]);
    assert_eq!(format_slide("## "), vec![paragraph(ParagraphKind::Subtitle, "")]);
    assert_eq!(format_slide("# # x"), vec![paragraph(ParagraphKind::Title, "# x")]);
}

#[test]
fn only_the_start_of_a_paragraph_counts() {
    assert_eq!(
        format_slide("first\n# not a title\n\n# title\nsecond line"),
        vec![
            paragraph(ParagraphKind::Body, "first\n# not a title"),
            paragraph(ParagraphKind::Title, "title\nsecond line"),
        ]
    );
}

#[test]
fn empty_text_is_one_empty_paragraph() {
    assert_eq!(format_slide(""), vec![paragraph(ParagraphKind::Body, "")]);
}

#[test]
fn empty_paragraphs_are_kept() {
    assert_eq!(
        format_slide("\n\na\n\n\n\nb\n\n"),
        vec![
            paragraph(ParagraphKind::Body, ""),
            paragraph(ParagraphKind::Body, "a"),
            paragraph(ParagraphKind::Body, ""),
            paragraph(ParagraphKind::Body, "b"),
            paragraph(ParagraphKind::Body, ""),
        ]
    );
}

#[test]
fn three_newlines_leave_one_with_the_next_paragraph() {
    assert_eq!(
        format_slide("a\n\n\nb"),
        vec![paragraph(ParagraphKind::Body, "a"), paragraph(ParagraphKind::Body, "\nb")]
    );
}

#[test]
fn format_slide_agrees_with_split_and_prefix() {
    for text in ["# a\n\n## b\n\nc", "#\n\n# \n\n## \n\n###", "x\n\n\n\n\ny", "\u{e9}\n\n# \u{1f600}"] {
        let expected: Vec<Paragraph> = text
            .split("\n\n")
            .map(|p| {
                if p.starts_with("# ") {
                    paragraph(ParagraphKind::Title, &p[2..])
                } else if p.starts_with("## ") {
                    paragraph(ParagraphKind::Subtitle, &p[3..])
                } else {
                    paragraph(ParagraphKind::Body, p)
                }
            })
            .collect();
        assert_eq!(format_slide(text), expected);
    }
}

#[test]
fn runs_alternate_with_breaks() {
    let runs = layout_runs(&format_slide("# T\n\n## S\n\nbody"));
    assert_eq!(
        runs,
        vec![
            run(RunStyle::Text(ParagraphKind::Title), "T"),
            run(RunStyle::Break, "\n\n"),
            run(RunStyle::Text(ParagraphKind::Subtitle), "S"),
            run(RunStyle::Break, "\n\n"),
            run(RunStyle::Text(ParagraphKind::Body), "body"),
        ]
    );
}

#[test]
fn one_paragraph_is_one_run() {
    assert_eq!(
        layout_runs(&format_slide("just this")),
        vec![run(RunStyle::Text(ParagraphKind::Body), "just this")]
    );
}

#[test]
fn no_paragraphs_no_runs() {
    assert_eq!(layout_runs(&Vec::new()), Vec::<TextRun>::new());
}

#[test]
fn runs_of_plain_text_spell_the_text() {
    let text = "one\n\ntwo\n\n\nthree\n\n";
    let spelled: String = layout_runs(&format_slide(text)).iter().map(|r| r.text.as_str()).collect();
    assert_eq!(spelled, text);
}
