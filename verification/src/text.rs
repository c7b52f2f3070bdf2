//! Character-level text primitives: whitespace, trimming, and splitting on a
//! literal separator. Every executable function here is specified over
//! `Seq<char>`, the view of a string.
use vstd::prelude::*;

verus! {

/// Whether `c` is whitespace, as Unicode marks it (`White_Space`).
pub open spec fn is_space(c: char) -> bool {
    let n = c as u32;
    ||| 0x09 <= n <= 0x0D
    ||| n == 0x20
    ||| n == 0x85
    ||| n == 0xA0
    ||| n == 0x1680
    ||| 0x2000 <= n <= 0x200A
    ||| n == 0x2028
    ||| n == 0x2029
    ||| n == 0x202F
    ||| n == 0x205F
    ||| n == 0x3000
}

/// Decides [`is_space`].
pub fn is_whitespace(c: char) -> (r: bool)
    ensures
        r == is_space(c),
{
    let n: u32 = c as u32;
    (0x09 <= n && n <= 0x0D) || n == 0x20 || n == 0x85 || n == 0xA0 || n == 0x1680 || (0x2000 <= n
        && n <= 0x200A) || n == 0x2028 || n == 0x2029 || n == 0x202F || n == 0x205F || n == 0x3000
}

/// Decodes a string slice into its characters.
pub fn chars_of(s: &str) -> (out: Vec<char>)
    ensures
        out@ == s@,
{
    let mut out: Vec<char> = Vec::new();
    for c in it: s.chars()
        invariant
            it.seq() == s@,
            out@ == s@.take(it.index()),
    {
        out.push(c);
    }
    out
}

/// `s` without its leading whitespace.
pub open spec fn trim_start(s: Seq<char>) -> Seq<char>
    decreases s.len(),
{
    if s.len() > 0 && is_space(s[0]) {
        trim_start(s.drop_first())
    } else {
        s
    }
}

/// `s` without its trailing whitespace.
pub open spec fn trim_end(s: Seq<char>) -> Seq<char>
    decreases s.len(),
{
    if s.len() > 0 && is_space(s.last()) {
        trim_end(s.drop_last())
    } else {
        s
    }
}

/// `s` without its leading and trailing whitespace.
pub open spec fn trimmed(s: Seq<char>) -> Seq<char> {
    trim_end(trim_start(s))
}

/// Whether `s` consists of whitespace only (the empty text included).
pub open spec fn is_blank(s: Seq<char>) -> bool {
    forall|i: int| 0 <= i < s.len() ==> is_space(#[trigger] s[i])
}

/// What is left of `s` after `trim_start` is a suffix of `s` that is empty
/// or begins with a character that is not whitespace, and everything
/// dropped was whitespace.
pub proof fn lemma_trim_start(s: Seq<char>)
    ensures
        trim_start(s).len() <= s.len(),
        trim_start(s) == s.skip(s.len() - trim_start(s).len()),
        trim_start(s).len() > 0 ==> !is_space(trim_start(s)[0]),
        is_blank(s.take(s.len() - trim_start(s).len())),
    decreases s.len(),
{
    if s.len() > 0 && is_space(s[0]) {
        let rest = s.drop_first();
        lemma_trim_start(rest);
        let k = rest.len() - trim_start(rest).len();
        assert(rest.skip(k) =~= s.skip(k + 1));
        assert forall|i: int| 0 <= i < k + 1 implies is_space(#[trigger] s.take(k + 1)[i]) by {
            if i > 0 {
                assert(s.take(k + 1)[i] == rest.take(k)[i - 1]);
            }
        }
    } else {
        assert(s.skip(0) =~= s);
    }
}

/// What is left of `s` after `trim_end` is a prefix of `s` that is empty or
/// ends with a character that is not whitespace, and everything dropped was
/// whitespace.
pub proof fn lemma_trim_end(s: Seq<char>)
    ensures
        trim_end(s).len() <= s.len(),
        trim_end(s) == s.take(trim_end(s).len() as int),
        trim_end(s).len() > 0 ==> !is_space(trim_end(s).last()),
        is_blank(s.skip(trim_end(s).len() as int)),
    decreases s.len(),
{
    if s.len() > 0 && is_space(s.last()) {
        let rest = s.drop_last();
        lemma_trim_end(rest);
        let k = trim_end(rest).len() as int;
        assert(rest.take(k) =~= s.take(k));
        assert forall|i: int| 0 <= i < s.len() - k implies is_space(#[trigger] s.skip(k)[i]) by {
            if i < rest.len() - k {
                assert(s.skip(k)[i] == rest.skip(k)[i]);
            }
        }
    } else {
        assert(s.take(s.len() as int) =~= s);
    }
}

/// A trimmed text is empty, or begins and ends with characters that are not
/// whitespace.
pub proof fn lemma_trimmed_edges(s: Seq<char>)
    ensures
        trimmed(s).len() > 0 ==> !is_space(trimmed(s)[0]) && !is_space(trimmed(s).last()),
{
    lemma_trim_start(s);
    lemma_trim_end(trim_start(s));
}

/// Trimming a text that is empty or has no whitespace at either end changes
/// nothing.
pub proof fn lemma_trimmed_fixed(s: Seq<char>)
    requires
        s.len() > 0 ==> !is_space(s[0]) && !is_space(s.last()),
    ensures
        trimmed(s) == s,
{
}

/// Trimming twice is trimming once.
pub proof fn lemma_trimmed_idempotent(s: Seq<char>)
    ensures
        trimmed(trimmed(s)) == trimmed(s),
{
    lemma_trimmed_edges(s);
    lemma_trimmed_fixed(trimmed(s));
}

/// A text trims to nothing exactly when it is blank.
pub proof fn lemma_trimmed_empty_iff_blank(s: Seq<char>)
    ensures
        trimmed(s).len() == 0 <==> is_blank(s),
{
    lemma_trim_start(s);
    let t = trim_start(s);
    lemma_trim_end(t);
    let a = s.len() - t.len();
    let b = trim_end(t).len() as int;
    if trimmed(s).len() == 0 {
        assert forall|i: int| 0 <= i < s.len() implies is_space(#[trigger] s[i]) by {
            if i < a {
                assert(s[i] == s.take(a)[i]);
            } else {
                assert(s[i] == t[i - a]);
                assert(t[i - a] == t.skip(0)[i - a]);
            }
        }
    }
    if is_blank(s) && trimmed(s).len() > 0 {
        assert(t.len() > 0);
        assert(t[0] == s[a]);
    }
}

/// Finds where the trimmed part of `s` lies: the bounds of [`trimmed`].
pub fn trim_bounds(s: &[char]) -> (r: (usize, usize))
    ensures
        r.0 <= r.1 <= s@.len(),
        s@.subrange(r.0 as int, r.1 as int) == trimmed(s@),
{
    let n: usize = s.len();
    let mut lo: usize = 0;
    assert(s@.skip(0) =~= s@);
    while lo < n && is_whitespace(s[lo])
        invariant
            n == s@.len(),
            lo <= n,
            trim_start(s@) == trim_start(s@.skip(lo as int)),
        decreases n - lo,
    {
        assert(s@.skip(lo as int).drop_first() =~= s@.skip(lo + 1));
        lo += 1;
    }
    assert(trim_start(s@) == s@.skip(lo as int));
    let mut hi: usize = n;
    assert(s@.subrange(lo as int, n as int) =~= s@.skip(lo as int));
    while hi > lo && is_whitespace(s[hi - 1])
        invariant
            n == s@.len(),
            lo <= hi <= n,
            trimmed(s@) == trim_end(s@.subrange(lo as int, hi as int)),
        decreases hi,
    {
        assert(s@.subrange(lo as int, hi as int).drop_last() =~= s@.subrange(
            lo as int,
            hi - 1,
        ));
        hi -= 1;
    }
    (lo, hi)
}

/// Whether the text `d` stands in `s` at position `i`.
pub open spec fn occurs_at(s: Seq<char>, d: Seq<char>, i: int) -> bool {
    0 <= i && i + d.len() <= s.len() && s.subrange(i, i + d.len()) == d
}

/// Whether `i` is the leftmost position at which `d` stands in `s`.
pub open spec fn is_first_occurrence(s: Seq<char>, d: Seq<char>, i: int) -> bool {
    occurs_at(s, d, i) && forall|j: int| 0 <= j < i ==> !occurs_at(s, d, j)
}

/// Whether `d` stands anywhere in `s`.
pub open spec fn occurs_in(s: Seq<char>, d: Seq<char>) -> bool {
    exists|i: int| occurs_at(s, d, i)
}

/// The leftmost position at which `d` stands in `s`, where it stands in it
/// at all.
pub open spec fn first_occurrence(s: Seq<char>, d: Seq<char>) -> int {
    choose|i: int| is_first_occurrence(s, d, i)
}

/// The segments of `s` between the occurrences of the separator `d`, found
/// from left to right without overlap. A text in which `d` does not occur
/// is its own single segment, so the result is never empty; an occurrence
/// at either end, or two in a row, give an empty segment. An empty
/// separator splits nothing.
pub open spec fn split_on(s: Seq<char>, d: Seq<char>) -> Seq<Seq<char>>
    decreases s.len(),
    via split_on_decreases
{
    if d.len() > 0 && occurs_in(s, d) {
        let i = first_occurrence(s, d);
        seq![s.take(i)] + split_on(s.skip(i + d.len()), d)
    } else {
        seq![s]
    }
}

#[via_fn]
proof fn split_on_decreases(s: Seq<char>, d: Seq<char>) {
    if d.len() > 0 && occurs_in(s, d) {
        let i = choose|i: int| occurs_at(s, d, i);
        lemma_first_occurrence_exists(s, d, i);
    }
}

/// The segments joined again, with `d` between each two neighbours.
pub open spec fn join_with(parts: Seq<Seq<char>>, d: Seq<char>) -> Seq<char>
    decreases parts.len(),
{
    if parts.len() == 0 {
        Seq::empty()
    } else if parts.len() == 1 {
        parts[0]
    } else {
        parts[0] + d + join_with(parts.drop_first(), d)
    }
}

/// Where `d` occurs in `s`, it has a leftmost occurrence.
pub proof fn lemma_first_occurrence_exists(s: Seq<char>, d: Seq<char>, i: int)
    requires
        occurs_at(s, d, i),
    ensures
        is_first_occurrence(s, d, first_occurrence(s, d)),
        first_occurrence(s, d) <= i,
    decreases i,
{
    if exists|j: int| 0 <= j < i && occurs_at(s, d, j) {
        let j = choose|j: int| 0 <= j < i && occurs_at(s, d, j);
        lemma_first_occurrence_exists(s, d, j);
    } else {
        assert(is_first_occurrence(s, d, i));
        let f = first_occurrence(s, d);
        assert(is_first_occurrence(s, d, f));
        if f > i {
            assert(!occurs_at(s, d, i));
        }
    }
}

/// One step of splitting: with the leftmost separator at `i`, the first
/// segment is what stands before it and the others come from what follows
/// it.
pub proof fn lemma_split_at_first(s: Seq<char>, d: Seq<char>, i: int)
    requires
        d.len() > 0,
        is_first_occurrence(s, d, i),
    ensures
        split_on(s, d) == seq![s.take(i)] + split_on(s.skip(i + d.len()), d),
{
    lemma_first_occurrence_exists(s, d, i);
    let f = first_occurrence(s, d);
    if f < i {
        assert(!occurs_at(s, d, f));
    }
    assert(f == i);
}

/// A text without the separator is a single segment.
pub proof fn lemma_split_without_separator(s: Seq<char>, d: Seq<char>)
    requires
        !occurs_in(s, d),
    ensures
        split_on(s, d) == seq![s],
{
}

/// Splitting loses nothing: joining the segments with the separator gives
/// the text back.
pub proof fn lemma_join_split(s: Seq<char>, d: Seq<char>)
    ensures
        split_on(s, d).len() >= 1,
        join_with(split_on(s, d), d) == s,
    decreases s.len(),
{
    if d.len() > 0 && occurs_in(s, d) {
        let w = choose|i: int| occurs_at(s, d, i);
        lemma_first_occurrence_exists(s, d, w);
        let i = first_occurrence(s, d);
        let rest = s.skip(i + d.len());
        lemma_join_split(rest, d);
        let parts = split_on(s, d);
        assert(parts == seq![s.take(i)] + split_on(rest, d));
        assert(parts.drop_first() =~= split_on(rest, d));
        assert(parts[0] == s.take(i));
        assert(s.take(i) + d + rest =~= s);
    }
}

/// No segment holds the separator.
pub proof fn lemma_segments_hold_no_separator(s: Seq<char>, d: Seq<char>, k: int)
    requires
        d.len() > 0,
        0 <= k < split_on(s, d).len(),
    ensures
        !occurs_in(split_on(s, d)[k], d),
    decreases s.len(),
{
    if occurs_in(s, d) {
        let w = choose|i: int| occurs_at(s, d, i);
        lemma_first_occurrence_exists(s, d, w);
        let i = first_occurrence(s, d);
        let rest = s.skip(i + d.len());
        let head = s.take(i);
        assert(split_on(s, d) == seq![head] + split_on(rest, d));
        if k == 0 {
            assert(split_on(s, d)[0] == head);
            if occurs_in(head, d) {
                let j = choose|j: int| occurs_at(head, d, j);
                assert(head.subrange(j, j + d.len()) =~= s.subrange(j, j + d.len()));
                assert(occurs_at(s, d, j));
            }
        } else {
            assert(split_on(s, d)[k] == split_on(rest, d)[k - 1]);
            lemma_segments_hold_no_separator(rest, d, k - 1);
        }
    }
}

/// Decides whether `d` stands in `s` at position `i`.
pub fn stands_at(s: &[char], d: &[char], i: usize) -> (r: bool)
    ensures
        r == occurs_at(s@, d@, i as int),
{
    let n: usize = s.len();
    let m: usize = d.len();
    if i > n || m > n - i {
        return false;
    }
    let mut k: usize = 0;
    while k < m
        invariant
            n == s@.len(),
            m == d@.len(),
            i + m <= n,
            k <= m,
            forall|j: int| 0 <= j < k ==> s@[i + j] == d@[j],
        decreases m - k,
    {
        if s[i + k] != d[k] {
            assert(s@.subrange(i as int, i + m)[k as int] != d@[k as int]);
            return false;
        }
        k += 1;
    }
    assert(s@.subrange(i as int, i + m) =~= d@);
    true
}

/// Finds the leftmost position at or after `start` at which `d` stands in
/// `s`.
pub fn find_from(s: &[char], d: &[char], start: usize) -> (r: Option<usize>)
    ensures
        match r {
            Some(i) => start <= i && occurs_at(s@, d@, i as int) && forall|j: int|
                start <= j < i ==> !occurs_at(s@, d@, j),
            None => forall|j: int| start <= j ==> !occurs_at(s@, d@, j),
        },
{
    let n: usize = s.len();
    let m: usize = d.len();
    if m > n {
        return None;
    }
    if m == 0 {
        assert(forall|j: int| 0 <= j <= n ==> s@.subrange(j, j) =~= d@);
        return if start <= n {
            Some(start)
        } else {
            None
        };
    }
    let mut i: usize = start;
    while i <= n - m
        invariant
            n == s@.len(),
            m == d@.len(),
            0 < m <= n,
            start <= i,
            forall|j: int| start <= j < i ==> !occurs_at(s@, d@, j),
        decreases n - i,
    {
        if stands_at(s, d, i) {
            return Some(i);
        }
        i += 1;
    }
    None
}

/// The pieces that the index ranges `ranges` cut out of `s`.
pub open spec fn cut(s: Seq<char>, ranges: Seq<(usize, usize)>) -> Seq<Seq<char>> {
    Seq::new(ranges.len(), |k: int| s.subrange(ranges[k].0 as int, ranges[k].1 as int))
}

/// An occurrence in what follows position `from` is an occurrence in the
/// whole text, `from` places further on.
pub proof fn lemma_occurs_at_skip(s: Seq<char>, d: Seq<char>, from: int, j: int)
    requires
        0 <= from <= s.len(),
        0 <= j,
    ensures
        occurs_at(s.skip(from), d, j) == occurs_at(s, d, from + j),
{
    if j + d.len() <= s.len() - from {
        assert(s.skip(from).subrange(j, j + d.len()) =~= s.subrange(from + j, from + j + d.len()));
    }
}

/// Splits `s` on the separator `d`: the result gives, in order, the bounds
/// of each segment of [`split_on`] within `s`.
pub fn split(s: &[char], d: &[char]) -> (out: Vec<(usize, usize)>)
    ensures
        forall|k: int| 0 <= k < out@.len() ==> (#[trigger] out@[k]).0 <= out@[k].1 <= s@.len(),
        cut(s@, out@) == split_on(s@, d@),
{
    let n: usize = s.len();
    let m: usize = d.len();
    let mut out: Vec<(usize, usize)> = Vec::new();
    let mut start: usize = 0;
    assert(s@.skip(0) =~= s@);
    assert(cut(s@, out@) + split_on(s@, d@) =~= split_on(s@, d@));
    while m > 0
        invariant
            n == s@.len(),
            m == d@.len(),
            start <= n,
            forall|k: int| 0 <= k < out@.len() ==> (#[trigger] out@[k]).0 <= out@[k].1 <= n,
            split_on(s@, d@) == cut(s@, out@) + split_on(s@.skip(start as int), d@),
        ensures
            start <= n,
            forall|k: int| 0 <= k < out@.len() ==> (#[trigger] out@[k]).0 <= out@[k].1 <= n,
            split_on(s@, d@) == cut(s@, out@) + seq![s@.skip(start as int)],
        decreases n - start,
    {
        let ghost tail = s@.skip(start as int);
        let ghost before = out@;
        match find_from(s, d, start) {
            Some(i) => {
                proof {
                    assert forall|j: int| 0 <= j < i - start implies !occurs_at(tail, d@, j) by {
                        lemma_occurs_at_skip(s@, d@, start as int, j);
                    }
                    lemma_occurs_at_skip(s@, d@, start as int, i - start);
                    lemma_split_at_first(tail, d@, i - start);
                    assert(tail.take(i - start) =~= s@.subrange(start as int, i as int));
                    assert(tail.skip(i - start + m) =~= s@.skip(i + m));
                }
                out.push((start, i));
                assert(cut(s@, out@) =~= cut(s@, before) + seq![
                    s@.subrange(start as int, i as int),
                ]);
                start = i + m;
            },
            None => {
                proof {
                    assert forall|j: int| !occurs_at(tail, d@, j) by {
                        if 0 <= j {
                            lemma_occurs_at_skip(s@, d@, start as int, j);
                        }
                    }
                    lemma_split_without_separator(tail, d@);
                }
                break ;
            },
        }
    }
    let ghost before = out@;
    out.push((start, n));
    assert(s@.subrange(start as int, n as int) =~= s@.skip(start as int));
    assert(cut(s@, out@) =~= cut(s@, before) + seq![s@.skip(start as int)]);
    out
}

/// Appends one character to a string: `String::push` of the standard
/// library, which adds `c` at the end and leaves the rest as it was.
#[verifier::external_body]
fn push_char(s: &mut String, c: char)
    ensures
        final(s)@ == old(s)@.push(c),
{
    s.push(c);
}

/// Builds the string that holds the characters `s[lo..hi]`.
pub fn string_of(s: &[char], lo: usize, hi: usize) -> (out: String)
    requires
        lo <= hi <= s@.len(),
    ensures
        out@ == s@.subrange(lo as int, hi as int),
{
    let mut out = String::new();
    let mut i: usize = lo;
    while i < hi
        invariant
            lo <= i <= hi <= s@.len(),
            out@ == s@.subrange(lo as int, i as int),
        decreases hi - i,
    {
        push_char(&mut out, s[i]);
        assert(s@.subrange(lo as int, i as int).push(s@[i as int]) =~= s@.subrange(
            lo as int,
            i + 1,
        ));
        i += 1;
    }
    out
}

/// The texts of a list of strings.
pub open spec fn texts(v: Seq<String>) -> Seq<Seq<char>> {
    Seq::new(v.len(), |k: int| v[k]@)
}

} // verus!
