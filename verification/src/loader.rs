//! Loading: a source text is split on the slide delimiter, each segment is
//! trimmed, and the segments that are left empty are dropped.
use crate::error::AppError;
use crate::text::{
    chars_of, cut, is_blank, is_space, lemma_trimmed_edges, lemma_trimmed_empty_iff_blank,
    lemma_trimmed_fixed, occurs_at, occurs_in, split, split_on, string_of, texts, trim_bounds,
    trimmed,
};
use vstd::prelude::*;
use vstd::slice::slice_subrange;

verus! {

/// The text that separates two slides in a source.
pub const SLIDE_DELIMITER: &'static str = "---";

/// The characters of [`SLIDE_DELIMITER`].
pub open spec fn delimiter() -> Seq<char> {
    seq!['-', '-', '-']
}

/// The slides that a list of segments gives: each segment trimmed, the
/// empty ones left out, the order kept.
pub open spec fn slides_from(segments: Seq<Seq<char>>) -> Seq<Seq<char>> {
    segments.map_values(|seg: Seq<char>| trimmed(seg)).filter(|seg: Seq<char>| seg.len() > 0)
}

/// The slides of a source text.
pub open spec fn slides_of(source: Seq<char>) -> Seq<Seq<char>> {
    slides_from(split_on(source, delimiter()))
}

/// What [`load`] returns for `source`: the slides where there is at least
/// one, `EmptyFile` where there is none.
pub open spec fn load_outcome(source: Seq<char>, r: Result<Vec<String>, AppError>) -> bool {
    match r {
        Ok(slides) => slides_of(source).len() > 0 && texts(slides@) == slides_of(source),
        Err(e) => slides_of(source).len() == 0 && e == AppError::EmptyFile,
    }
}

/// One more segment adds its trimmed text to the slides, unless that text
/// is empty.
pub proof fn lemma_slides_from_push(segments: Seq<Seq<char>>, seg: Seq<char>)
    ensures
        slides_from(segments.push(seg)) == if trimmed(seg).len() > 0 {
            slides_from(segments).push(trimmed(seg))
        } else {
            slides_from(segments)
        },
{
    reveal(Seq::filter);
    let f = |seg: Seq<char>| trimmed(seg);
    assert(segments.push(seg).map_values(f).drop_last() =~= segments.map_values(f));
}

/// Every slide is a trimmed segment of the source: it is not empty, and it
/// neither begins nor ends with whitespace, so that trimming it again
/// changes nothing.
pub proof fn lemma_slides_are_trimmed(segments: Seq<Seq<char>>, k: int)
    requires
        0 <= k < slides_from(segments).len(),
    ensures
        slides_from(segments)[k].len() > 0,
        !is_space(slides_from(segments)[k][0]),
        !is_space(slides_from(segments)[k].last()),
        trimmed(slides_from(segments)[k]) == slides_from(segments)[k],
        exists|j: int|
            0 <= j < segments.len() && slides_from(segments)[k] == trimmed(#[trigger] segments[j]),
    decreases segments.len(),
{
    if segments.len() > 0 {
        let init = segments.drop_last();
        let seg = segments.last();
        assert(init.push(seg) =~= segments);
        lemma_slides_from_push(init, seg);
        if k < slides_from(init).len() {
            lemma_slides_are_trimmed(init, k);
            let j = choose|j: int|
                0 <= j < init.len() && slides_from(init)[k] == trimmed(#[trigger] init[j]);
            assert(segments[j] == init[j]);
        } else {
            lemma_trimmed_edges(seg);
            lemma_trimmed_fixed(trimmed(seg));
            assert(slides_from(segments)[k] == trimmed(segments[segments.len() - 1]));
        }
    } else {
        reveal(Seq::filter);
    }
}

/// There is a slide exactly when some segment is not blank.
pub proof fn lemma_some_slide_iff_some_text(segments: Seq<Seq<char>>)
    ensures
        slides_from(segments).len() > 0 <==> exists|j: int|
            0 <= j < segments.len() && !is_blank(#[trigger] segments[j]),
    decreases segments.len(),
{
    if segments.len() > 0 {
        let init = segments.drop_last();
        let seg = segments.last();
        assert(init.push(seg) =~= segments);
        lemma_slides_from_push(init, seg);
        lemma_some_slide_iff_some_text(init);
        lemma_trimmed_empty_iff_blank(seg);
        if slides_from(segments).len() > 0 {
            if trimmed(seg).len() > 0 {
                assert(!is_blank(segments[segments.len() - 1]));
            } else {
                let j = choose|j: int| 0 <= j < init.len() && !is_blank(#[trigger] init[j]);
                assert(segments[j] == init[j]);
            }
        }
        if exists|j: int| 0 <= j < segments.len() && !is_blank(#[trigger] segments[j]) {
            let j = choose|j: int| 0 <= j < segments.len() && !is_blank(#[trigger] segments[j]);
            if j < init.len() {
                assert(init[j] == segments[j]);
            }
        }
    } else {
        reveal(Seq::filter);
    }
}

/// Loading succeeds exactly on the sources in which some segment between
/// delimiters holds more than whitespace.
pub proof fn lemma_load_succeeds_iff(source: Seq<char>, r: Result<Vec<String>, AppError>)
    requires
        load_outcome(source, r),
    ensures
        r is Ok <==> exists|j: int|
            0 <= j < split_on(source, delimiter()).len() && !is_blank(
                #[trigger] split_on(source, delimiter())[j],
            ),
{
    lemma_some_slide_iff_some_text(split_on(source, delimiter()));
}

/// Every slide that loading returns is non-empty and trimmed.
pub proof fn lemma_loaded_slides_are_trimmed(source: Seq<char>, slides: Vec<String>, k: int)
    requires
        load_outcome(source, Ok(slides)),
        0 <= k < slides@.len(),
    ensures
        slides@[k]@.len() > 0,
        trimmed(slides@[k]@) == slides@[k]@,
{
    assert(texts(slides@)[k] == slides@[k]@);
    lemma_slides_are_trimmed(split_on(source, delimiter()), k);
}

/// A blank source, the empty one included, holds no slide.
pub proof fn lemma_blank_source_has_no_slides(source: Seq<char>)
    requires
        is_blank(source),
    ensures
        slides_of(source).len() == 0,
{
    let d = delimiter();
    if occurs_in(source, d) {
        let i = choose|i: int| occurs_at(source, d, i);
        assert(source.subrange(i, i + 3)[0] == '-');
        assert(is_space(source[i]));
    }
    assert(split_on(source, d) == seq![source]);
    lemma_some_slide_iff_some_text(seq![source]);
}

/// Loading is a function of the source text: two results for one text hold
/// the same slides in the same order, or are the same error.
pub proof fn lemma_load_deterministic(
    source: Seq<char>,
    first: Result<Vec<String>, AppError>,
    second: Result<Vec<String>, AppError>,
)
    requires
        load_outcome(source, first),
        load_outcome(source, second),
    ensures
        first is Ok <==> second is Ok,
        first is Ok ==> texts(first->Ok_0@) == texts(second->Ok_0@),
        first is Err ==> first->Err_0 == second->Err_0,
{
}

/// Parses a source text into its slides.
///
/// The text is split on [`SLIDE_DELIMITER`], wherever it stands; each
/// segment is trimmed of surrounding whitespace, and segments that are then
/// empty are dropped. A source without any slide is refused with
/// `EmptyFile`.
pub fn load(source: &str) -> (r: Result<Vec<String>, AppError>)
    ensures
        load_outcome(source@, r),
{
    let chars = chars_of(source);
    let delim = chars_of(SLIDE_DELIMITER);
    proof {
        reveal_strlit("---");
        assert(delim@ =~= delimiter());
    }
    let ranges = split(chars.as_slice(), delim.as_slice());
    let ghost segments = split_on(source@, delimiter());
    let mut slides: Vec<String> = Vec::new();
    let mut k: usize = 0;
    assert(segments.take(0) =~= Seq::empty());
    assert(slides_from(Seq::empty()) =~= Seq::empty()) by {
        reveal(Seq::filter);
    }
    assert(texts(slides@) =~= Seq::empty());
    while k < ranges.len()
        invariant
            k <= ranges@.len(),
            chars@ == source@,
            forall|j: int|
                0 <= j < ranges@.len() ==> (#[trigger] ranges@[j]).0 <= ranges@[j].1 <= chars@.len(),
            cut(chars@, ranges@) == segments,
            texts(slides@) == slides_from(segments.take(k as int)),
        decreases ranges@.len() - k,
    {
        let (from, to) = ranges[k];
        let segment = slice_subrange(chars.as_slice(), from, to);
        let (lo, hi) = trim_bounds(segment);
        proof {
            assert(segment@ == segments[k as int]);
            assert(segments.take(k as int).push(segments[k as int]) =~= segments.take(k + 1));
            lemma_slides_from_push(segments.take(k as int), segments[k as int]);
        }
        if lo < hi {
            let ghost before = slides@;
            let slide = string_of(segment, lo, hi);
            slides.push(slide);
            assert(texts(slides@) =~= texts(before).push(trimmed(segment@)));
        }
        k += 1;
    }
    assert(segments.take(k as int) =~= segments);
    if slides.len() == 0 {
        Err(AppError::EmptyFile)
    } else {
        Ok(slides)
    }
}

} // verus!
