//! Formatting: a slide's text is split into paragraphs on blank lines, and
//! each paragraph is classified by its heading marker.
use crate::text::{
    chars_of, cut, join_with, lemma_join_split, split, split_on, stands_at, string_of,
};
use vstd::prelude::*;
use vstd::string::StringExecFns;
use vstd::slice::slice_subrange;

verus! {

/// The blank line that separates two paragraphs of a slide.
pub const PARAGRAPH_BREAK: &'static str = "\n\n";

/// The marker that begins a title paragraph.
pub const TITLE_MARKER: &'static str = "# ";

/// The marker that begins a subtitle paragraph.
pub const SUBTITLE_MARKER: &'static str = "## ";

/// The characters of [`PARAGRAPH_BREAK`].
pub open spec fn paragraph_break() -> Seq<char> {
    seq!['\n', '\n']
}

/// The characters of [`TITLE_MARKER`].
pub open spec fn title_marker() -> Seq<char> {
    seq!['#', ' ']
}

/// The characters of [`SUBTITLE_MARKER`].
pub open spec fn subtitle_marker() -> Seq<char> {
    seq!['#', '#', ' ']
}

/// What a paragraph is, by the marker it begins with.
#[derive(Clone, Copy, Debug, PartialEq, Eq, Structural)]
pub enum ParagraphKind {
    Title,
    Subtitle,
    Body,
}

impl ParagraphKind {
    /// The size of this kind's text, in percent of the base font size.
    pub open spec fn spec_scale_percent(self) -> u32 {
        match self {
            ParagraphKind::Title => 150,
            ParagraphKind::Subtitle => 120,
            ParagraphKind::Body => 100,
        }
    }

    /// The size of this kind's text, in percent of the base font size.
    #[verifier::when_used_as_spec(spec_scale_percent)]
    pub fn scale_percent(self) -> (r: u32)
        ensures
            r == self.spec_scale_percent(),
    {
        match self {
            ParagraphKind::Title => 150,
            ParagraphKind::Subtitle => 120,
            ParagraphKind::Body => 100,
        }
    }
}

/// One paragraph of a slide: its kind, and its text without the marker.
#[derive(Clone, Debug, PartialEq, Eq)]
pub struct Paragraph {
    pub kind: ParagraphKind,
    pub text: String,
}

/// The mathematical value of a [`Paragraph`].
pub ghost struct ParagraphView {
    pub kind: ParagraphKind,
    pub text: Seq<char>,
}

impl View for Paragraph {
    type V = ParagraphView;

    open spec fn view(&self) -> ParagraphView {
        ParagraphView { kind: self.kind, text: self.text@ }
    }
}

/// The values of a list of paragraphs.
pub open spec fn paragraph_views(v: Seq<Paragraph>) -> Seq<ParagraphView> {
    Seq::new(v.len(), |k: int| v[k]@)
}

/// Classifies one paragraph: a title where it begins with the title marker,
/// else a subtitle where it begins with the subtitle marker, else body
/// text. The marker is not part of the paragraph's text.
pub open spec fn classify(raw: Seq<char>) -> ParagraphView {
    if title_marker().is_prefix_of(raw) {
        ParagraphView { kind: ParagraphKind::Title, text: raw.skip(2) }
    } else if subtitle_marker().is_prefix_of(raw) {
        ParagraphView { kind: ParagraphKind::Subtitle, text: raw.skip(3) }
    } else {
        ParagraphView { kind: ParagraphKind::Body, text: raw }
    }
}

/// The paragraphs of a slide's text: its segments between blank lines, the
/// empty ones included, each classified.
pub open spec fn paragraphs_of(text: Seq<char>) -> Seq<ParagraphView> {
    split_on(text, paragraph_break()).map_values(|raw: Seq<char>| classify(raw))
}

/// Splits a slide's text into classified paragraphs.
pub fn format_slide(text: &str) -> (out: Vec<Paragraph>)
    ensures
        paragraph_views(out@) == paragraphs_of(text@),
        out@.len() >= 1,
{
    let chars = chars_of(text);
    let brk = chars_of(PARAGRAPH_BREAK);
    let title = chars_of(TITLE_MARKER);
    let subtitle = chars_of(SUBTITLE_MARKER);
    proof {
        reveal_strlit("\n\n");
        reveal_strlit("# ");
        reveal_strlit("## ");
        assert(brk@ =~= paragraph_break());
        assert(title@ =~= title_marker());
        assert(subtitle@ =~= subtitle_marker());
        lemma_join_split(text@, paragraph_break());
    }
    let ranges = split(chars.as_slice(), brk.as_slice());
    let ghost raws = split_on(text@, paragraph_break());
    let mut out: Vec<Paragraph> = Vec::new();
    let mut k: usize = 0;
    while k < ranges.len()
        invariant
            k <= ranges@.len(),
            chars@ == text@,
            title@ == title_marker(),
            subtitle@ == subtitle_marker(),
            forall|j: int|
                0 <= j < ranges@.len() ==> (#[trigger] ranges@[j]).0 <= ranges@[j].1 <= chars@.len(),
            cut(chars@, ranges@) == raws,
            out@.len() == k,
            forall|j: int| 0 <= j < k ==> (#[trigger] out@[j])@ == classify(raws[j]),
        decreases ranges@.len() - k,
    {
        let (from, to) = ranges[k];
        let raw = slice_subrange(chars.as_slice(), from, to);
        assert(raw@ == raws[k as int]);
        let n: usize = raw.len();
        let paragraph = if stands_at(raw, title.as_slice(), 0) {
            assert(raw@.subrange(2, n as int) =~= raw@.skip(2));
            Paragraph { kind: ParagraphKind::Title, text: string_of(raw, 2, n) }
        } else if stands_at(raw, subtitle.as_slice(), 0) {
            assert(raw@.subrange(3, n as int) =~= raw@.skip(3));
            Paragraph { kind: ParagraphKind::Subtitle, text: string_of(raw, 3, n) }
        } else {
            assert(raw@.subrange(0, n as int) =~= raw@);
            Paragraph { kind: ParagraphKind::Body, text: string_of(raw, 0, n) }
        };
        out.push(paragraph);
        k += 1;
    }
    assert(paragraph_views(out@) =~= paragraphs_of(text@));
    out
}

/// How a run of laid-out text is styled.
#[derive(Clone, Copy, Debug, PartialEq, Eq, Structural)]
pub enum RunStyle {
    /// The blank line between two paragraphs, in the renderer's default
    /// format.
    Break,
    /// The text of a paragraph, at the scale of its kind.
    Text(ParagraphKind),
}

/// One run of the text that is laid out for a slide.
#[derive(Clone, Debug, PartialEq, Eq)]
pub struct TextRun {
    pub text: String,
    pub style: RunStyle,
}

/// The mathematical value of a [`TextRun`].
pub ghost struct TextRunView {
    pub text: Seq<char>,
    pub style: RunStyle,
}

impl View for TextRun {
    type V = TextRunView;

    open spec fn view(&self) -> TextRunView {
        TextRunView { text: self.text@, style: self.style }
    }
}

/// The values of a list of runs.
pub open spec fn run_views(v: Seq<TextRun>) -> Seq<TextRunView> {
    Seq::new(v.len(), |k: int| v[k]@)
}

/// The runs that lay out a list of paragraphs: the paragraphs in order, each
/// in its own style, with a blank line between each two neighbours.
pub open spec fn runs_of(paragraphs: Seq<ParagraphView>) -> Seq<TextRunView> {
    Seq::new(
        if paragraphs.len() == 0 {
            0
        } else {
            (2 * paragraphs.len() - 1) as nat
        },
        |i: int|
            if i % 2 == 0 {
                TextRunView {
                    text: paragraphs[i / 2].text,
                    style: RunStyle::Text(paragraphs[i / 2].kind),
                }
            } else {
                TextRunView { text: paragraph_break(), style: RunStyle::Break }
            },
    )
}

/// The text of a list of runs, one after the other.
pub open spec fn run_text(runs: Seq<TextRunView>) -> Seq<char>
    decreases runs.len(),
{
    if runs.len() == 0 {
        Seq::empty()
    } else {
        runs[0].text + run_text(runs.drop_first())
    }
}

/// The texts of a list of paragraphs.
pub open spec fn paragraph_texts(paragraphs: Seq<ParagraphView>) -> Seq<Seq<char>> {
    paragraphs.map_values(|p: ParagraphView| p.text)
}

/// Laying paragraphs out joins their texts with blank lines.
pub proof fn lemma_runs_join_paragraphs(paragraphs: Seq<ParagraphView>)
    ensures
        run_text(runs_of(paragraphs)) == join_with(paragraph_texts(paragraphs), paragraph_break()),
    decreases paragraphs.len(),
{
    let runs = runs_of(paragraphs);
    if paragraphs.len() == 0 {
    } else if paragraphs.len() == 1 {
        assert(runs.drop_first() =~= Seq::empty());
        assert(run_text(runs.drop_first()) =~= Seq::empty());
        assert(run_text(runs) =~= paragraphs[0].text);
    } else {
        let rest = paragraphs.drop_first();
        lemma_runs_join_paragraphs(rest);
        assert(runs.drop_first().drop_first() =~= runs_of(rest)) by {
            assert forall|i: int| 0 <= i < runs_of(rest).len() implies runs.drop_first().drop_first()[i]
                == runs_of(rest)[i] by {
                assert((i + 2) % 2 == i % 2);
                assert((i + 2) / 2 == i / 2 + 1);
            }
        }
        assert(runs.drop_first()[0].text == paragraph_break());
        assert(paragraph_texts(rest) =~= paragraph_texts(paragraphs).drop_first());
        assert(run_text(runs.drop_first()) == paragraph_break() + run_text(runs_of(rest)));
        assert(run_text(runs) == paragraphs[0].text + (paragraph_break() + run_text(
            runs_of(rest),
        )));
        assert(paragraphs[0].text + (paragraph_break() + run_text(runs_of(rest)))
            =~= paragraphs[0].text + paragraph_break() + run_text(runs_of(rest)));
    }
}

/// Lays a slide's paragraphs out as runs of text.
pub fn layout_runs(paragraphs: &Vec<Paragraph>) -> (out: Vec<TextRun>)
    ensures
        run_views(out@) == runs_of(paragraph_views(paragraphs@)),
{
    let mut out: Vec<TextRun> = Vec::new();
    let mut k: usize = 0;
    let ghost wanted = runs_of(paragraph_views(paragraphs@));
    while k < paragraphs.len()
        invariant
            k <= paragraphs@.len(),
            wanted == runs_of(paragraph_views(paragraphs@)),
            out@.len() == (if k == 0 {
                0
            } else {
                2 * k - 1
            }),
            forall|j: int| 0 <= j < out@.len() ==> (#[trigger] out@[j])@ == wanted[j],
        decreases paragraphs@.len() - k,
    {
        if k > 0 {
            out.push(TextRun { text: String::from_str(PARAGRAPH_BREAK), style: RunStyle::Break });
            proof {
                reveal_strlit("\n\n");
                assert(PARAGRAPH_BREAK@ =~= paragraph_break());
            }
        }
        let paragraph = &paragraphs[k];
        out.push(TextRun { text: paragraph.text.clone(), style: RunStyle::Text(paragraph.kind) });
        k += 1;
    }
    assert(run_views(out@) =~= wanted);
    out
}

} // verus!
