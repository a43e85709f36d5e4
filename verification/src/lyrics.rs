//! Word timings, cropping and display segments of a lyric line.
use unicode_segmentation::UnicodeSegmentation;
use vstd::prelude::*;

use crate::model::{LyricLine, LyricWord};
use crate::options::SubtitleMode;
use crate::text::{
    chars_of, concat_all, count_char, count_occurrences, extend_chars, slice_range, string_from_chars,
    trim, trimmed,
};

verus! {

/// The extended grapheme clusters of `text` (UAX #29), as the
/// unicode-segmentation crate splits it.
pub uninterp spec fn grapheme_clusters(text: Seq<char>) -> Seq<Seq<char>>;

/// The character sequences of a list of grapheme vectors.
pub open spec fn views(gs: Seq<Vec<char>>) -> Seq<Seq<char>> {
    gs.map_values(|g: Vec<char>| g@)
}

/// `UnicodeSegmentation::graphemes(text, true)`: the extended grapheme
/// clusters of `text`, in order. The crate's iterator hands out consecutive,
/// non-empty slices from the start of the string to its end, so the clusters
/// are non-empty and together spell `text`; which boundaries it picks is left
/// to the name `grapheme_clusters`.
#[verifier::external_body]
pub(crate) fn graphemes(text: &[char]) -> (r: Vec<Vec<char>>)
    ensures
        views(r@) == grapheme_clusters(text@),
        views(r@).flatten() == text@,
        forall|i: int| 0 <= i < r@.len() ==> r@[i]@.len() > 0,
{
    let text: String = text.iter().collect();
    UnicodeSegmentation::graphemes(text.as_str(), true).map(|g| g.chars().collect()).collect()
}

/// Non-empty parts flatten to at least as many elements as there are parts.
pub proof fn lemma_flatten_len_ge_parts(parts: Seq<Seq<char>>)
    requires
        forall|i: int| 0 <= i < parts.len() ==> parts[i].len() > 0,
    ensures
        parts.flatten().len() >= parts.len(),
    decreases parts.len(),
{
    if parts.len() > 0 {
        lemma_flatten_len_ge_parts(parts.drop_first());
    }
}

/// The cluster list of a text is no longer than the text.
pub proof fn lemma_clusters_len(text: Seq<char>, gs: Seq<Vec<char>>)
    requires
        views(gs) == grapheme_clusters(text),
        views(gs).flatten() == text,
        forall|i: int| 0 <= i < gs.len() ==> gs[i]@.len() > 0,
    ensures
        grapheme_clusters(text).len() <= text.len(),
        grapheme_clusters(text).len() == 0 <==> text.len() == 0,
{
    assert forall|i: int| 0 <= i < views(gs).len() implies views(gs)[i].len() > 0 by {}
    lemma_flatten_len_ge_parts(views(gs));
    if text.len() > 0 && gs.len() == 0 {
        assert(views(gs) =~= Seq::<Seq<char>>::empty());
    }
}

/// How far a timed grapheme has been sung, as the fraction `done / total`.
#[derive(Clone, Copy)]
pub struct Progress {
    pub done: u128,
    pub total: u128,
}

impl Progress {
    pub open spec fn wf(self) -> bool {
        1 <= self.total && self.done <= self.total
    }
}

/// Two fractions are equal.
pub open spec fn same_ratio(a: int, b: int, c: int, d: int) -> bool {
    a * d == c * b
}

proof fn lemma_quotients_differ(a: int, b: int, c: int, d: int, q1: int, r1: int, q2: int, r2: int)
    by (nonlinear_arith)
    requires
        b > 0,
        d > 0,
        a == q1 * b + r1,
        c == q2 * d + r2,
        0 <= r1 < b,
        0 <= r2 < d,
        q1 < q2,
    ensures
        a * d < c * b,
{
    assert((q2 - q1) * b * d >= b * d);
    assert(r1 * d < b * d);
    assert(r2 * b >= 0);
}

proof fn lemma_same_quotient(a: int, b: int, c: int, d: int, q: int, r1: int, r2: int)
    by (nonlinear_arith)
    requires
        a == q * b + r1,
        c == q * d + r2,
    ensures
        (a * d == c * b) == (r1 * d == r2 * b),
{
}

/// Compares two fractions `a / b` and `c / d` exactly, by their continued
/// fractions, so that no product is formed.
pub fn ratio_eq(a: u128, b: u128, c: u128, d: u128) -> (r: bool)
    requires
        b > 0,
        d > 0,
    ensures
        r == same_ratio(a as int, b as int, c as int, d as int),
    decreases b + d,
{
    let q1 = a / b;
    let r1 = a % b;
    let q2 = c / d;
    let r2 = c % d;
    proof {
        vstd::arithmetic::div_mod::lemma_fundamental_div_mod(a as int, b as int);
        vstd::arithmetic::div_mod::lemma_fundamental_div_mod(c as int, d as int);
    }
    if q1 != q2 {
        proof {
            if q1 < q2 {
                lemma_quotients_differ(
                    a as int,
                    b as int,
                    c as int,
                    d as int,
                    q1 as int,
                    r1 as int,
                    q2 as int,
                    r2 as int,
                );
            } else {
                lemma_quotients_differ(
                    c as int,
                    d as int,
                    a as int,
                    b as int,
                    q2 as int,
                    r2 as int,
                    q1 as int,
                    r1 as int,
                );
            }
        }
        false
    } else {
        proof {
            lemma_same_quotient(a as int, b as int, c as int, d as int, q1 as int, r1 as int, r2 as int);
        }
        if r1 == 0 || r2 == 0 {
            proof {
                assert(r1 == 0 ==> r1 * d == 0) by (nonlinear_arith);
                assert(r2 == 0 ==> r2 * b == 0) by (nonlinear_arith);
                assert(r1 > 0 ==> r1 * d > 0) by (nonlinear_arith)
                    requires
                        d > 0,
                ;
                assert(r2 > 0 ==> r2 * b > 0) by (nonlinear_arith)
                    requires
                        b > 0,
                ;
            }
            r1 == 0 && r2 == 0
        } else {
            let r = ratio_eq(b, r1, d, r2);
            proof {
                assert((b * r2 == d * r1) == (r1 * d == r2 * b)) by (nonlinear_arith);
            }
            r
        }
    }
}

/// A grapheme as it is shown: text, whether it is active, and its progress
/// `done / total`.
pub type Shown = (Seq<char>, bool, int, int);

/// A grapheme ready for display.
pub struct DisplayGrapheme {
    pub text: Vec<char>,
    pub active: bool,
    pub progress: Progress,
}

impl DisplayGrapheme {
    pub open spec fn view(self) -> Shown {
        (self.text@, self.active, self.progress.done as int, self.progress.total as int)
    }
}

pub open spec fn shown_all(gs: Seq<DisplayGrapheme>) -> Seq<Shown> {
    gs.map_values(|g: DisplayGrapheme| g.view())
}

pub open spec fn progress_all_wf(gs: Seq<DisplayGrapheme>) -> bool {
    forall|i: int| 0 <= i < gs.len() ==> (#[trigger] gs[i]).progress.wf()
}

/// A run of equally shown graphemes, merged into one piece of text.
pub struct TextSegment {
    pub text: String,
    pub active: bool,
    pub progress: Progress,
}

impl TextSegment {
    pub open spec fn view(self) -> Shown {
        (self.text@, self.active, self.progress.done as int, self.progress.total as int)
    }

    /// The segment's text.
    pub fn as_str(&self) -> (r: &str)
        ensures
            r@ == self.text@,
    {
        self.text.as_str()
    }

    /// Whether the segment has started.
    pub fn is_active(&self) -> (r: bool)
        ensures
            r == self.active,
    {
        self.active
    }
}

pub open spec fn segments_view(s: Seq<TextSegment>) -> Seq<Shown> {
    s.map_values(|t: TextSegment| t.view())
}

/// A grapheme with its time span in milliseconds.
pub struct TimedGrapheme {
    pub text: Vec<char>,
    pub start_ms: i128,
    pub end_ms: i128,
}

pub type Timed = (Seq<char>, int, int);

pub open spec fn timed_view(t: TimedGrapheme) -> Timed {
    (t.text@, t.start_ms as int, t.end_ms as int)
}

pub open spec fn timed_all(ts: Seq<TimedGrapheme>) -> Seq<Timed> {
    ts.map_values(|t: TimedGrapheme| timed_view(t))
}

/// A machine limit: a word's text is under 2^32 characters, so that the
/// grapheme counts, indices and times computed for it fit their integer
/// types (a `String` of that many characters takes at least 4 GiB).
pub open spec fn word_fits(word: LyricWord) -> bool {
    word.word@.len() < 0x1_0000_0000
}

pub open spec fn line_fits(line: LyricLine) -> bool {
    forall|i: int| 0 <= i < line.words@.len() ==> word_fits(#[trigger] line.words@[i])
}

/// Whether every word of every line is short enough to be split into timed
/// graphemes (under 2^32 characters).
pub fn lyrics_fit(lines: &Vec<LyricLine>) -> (r: bool)
    ensures
        r == (forall|i: int| 0 <= i < lines@.len() ==> line_fits(#[trigger] lines@[i])),
{
    let mut i: usize = 0;
    while i < lines.len()
        invariant
            i <= lines@.len(),
            forall|l: int| 0 <= l < i ==> line_fits(#[trigger] lines@[l]),
        decreases lines@.len() - i,
    {
        let words = &lines[i].words;
        let mut k: usize = 0;
        while k < words.len()
            invariant
                k <= words@.len(),
                i < lines@.len(),
                words@ == lines@[i as int].words@,
                forall|w: int| 0 <= w < k ==> word_fits(#[trigger] words@[w]),
            decreases words@.len() - k,
        {
            let n = chars_of(words[k].word.as_str()).len();
            if n as u64 >= 4294967296u64 {
                assert(!word_fits(words@[k as int]));
                assert(!line_fits(lines@[i as int]));
                return false;
            }
            k = k + 1;
        }
        i = i + 1;
    }
    true
}

/// Timed graphemes whose times stay well inside `i128`.
pub open spec fn timed_bounded(ts: Seq<Timed>) -> bool {
    forall|i: int|
        0 <= i < ts.len() ==> -0x1_0000_0000_0000_0000 <= (#[trigger] ts[i]).1 && ts[i].1 < ts[i].2
            && ts[i].2 <= 0x4_0000_0000_0000_0000_0000_0000
}

/// The grapheme " " (a single space).
pub open spec fn is_space(g: Seq<char>) -> bool {
    g == seq![' ']
}

/// How many of the graphemes are not a single space.
pub open spec fn non_space_count(gs: Seq<Seq<char>>) -> int
    decreases gs.len(),
{
    if gs.len() == 0 {
        0
    } else {
        non_space_count(gs.drop_last()) + if is_space(gs.last()) {
            0int
        } else {
            1int
        }
    }
}

/// Into how many equal shares a word's duration is split: its graphemes
/// less its space characters, at least one.
pub open spec fn share_count(text: Seq<char>) -> int {
    let n = grapheme_clusters(text).len() - count_char(text, ' ');
    if n >= 1 {
        n
    } else {
        1
    }
}

/// A word's duration, never negative.
pub open spec fn word_duration(start: int, end: int) -> int {
    if end > start {
        end - start
    } else {
        0
    }
}

/// The timed graphemes of one word: each non-space grapheme takes an equal
/// share of the word's duration; a space takes none and is shown as a
/// no-break space; every grapheme lasts at least one millisecond.
pub open spec fn word_timed(text: Seq<char>, start: int, end: int) -> Seq<Timed> {
    let g = grapheme_clusters(text);
    let count = share_count(text);
    let dur = word_duration(start, end);
    Seq::new(
        g.len(),
        |k: int|
            {
                let st = start + dur * non_space_count(g.take(k)) / count;
                let en = start + dur * non_space_count(g.take(k + 1)) / count;
                (
                    if is_space(g[k]) {
                        seq!['\u{a0}']
                    } else {
                        g[k]
                    },
                    st,
                    if en > st {
                        en
                    } else {
                        st + 1
                    },
                )
            },
    )
}

/// The timed graphemes of a line: those of its words, in order.
pub open spec fn line_timed(words: Seq<LyricWord>) -> Seq<Timed>
    decreases words.len(),
{
    if words.len() == 0 {
        Seq::empty()
    } else {
        line_timed(words.drop_last()) + word_timed(
            words.last().word@,
            words.last().start_time as int,
            words.last().end_time as int,
        )
    }
}

proof fn lemma_non_space_count_bounds(gs: Seq<Seq<char>>)
    ensures
        0 <= non_space_count(gs) <= gs.len(),
    decreases gs.len(),
{
    if gs.len() > 0 {
        lemma_non_space_count_bounds(gs.drop_last());
    }
}

proof fn lemma_share_bound(dur: int, index: int, count: int)
    by (nonlinear_arith)
    requires
        0 <= dur < 0x1_0000_0000_0000_0000,
        0 <= index < 0x1_0000_0000,
        count >= 1,
    ensures
        0 <= dur * index / count <= dur * index,
        dur * index <= 0x1_0000_0000_0000_0000_0000_0000,
{
    assert(dur * index <= 0x1_0000_0000_0000_0000 * 0x1_0000_0000);
}

/// Appends the timed graphemes of one word to `result`.
pub fn append_timed_text(result: &mut Vec<TimedGrapheme>, text: &str, start_ms: i64, end_ms: i64)
    requires
        text@.len() < 0x1_0000_0000,
    ensures
        timed_all(final(result)@) == timed_all(old(result)@) + word_timed(
            text@,
            start_ms as int,
            end_ms as int,
        ),
        timed_bounded(timed_all(old(result)@)) ==> timed_bounded(timed_all(final(result)@)),
{
    let chars = chars_of(text);
    let gs = graphemes(chars.as_slice());
    proof {
        lemma_clusters_len(text@, gs@);
    }
    let spaces = count_occurrences(chars.as_slice(), ' ');
    let n = gs.len();
    let count: i128 = if n > spaces {
        (n - spaces) as i128
    } else {
        1
    };
    let duration: i128 = if end_ms > start_ms {
        end_ms as i128 - start_ms as i128
    } else {
        0
    };
    let ghost g = grapheme_clusters(text@);
    let ghost expected = word_timed(text@, start_ms as int, end_ms as int);
    let ghost before = timed_all(result@);
    assert(count == share_count(text@));
    assert(duration == word_duration(start_ms as int, end_ms as int));
    let mut index: i128 = 0;
    let mut k: usize = 0;
    while k < n
        invariant
            k <= n,
            n == gs@.len() == g.len(),
            n <= text@.len() < 0x1_0000_0000,
            views(gs@) == g,
            g == grapheme_clusters(text@),
            expected == word_timed(text@, start_ms as int, end_ms as int),
            count == share_count(text@),
            count >= 1,
            duration == word_duration(start_ms as int, end_ms as int),
            0 <= duration < 0x1_0000_0000_0000_0000,
            index == non_space_count(g.take(k as int)),
            0 <= index <= k,
            timed_all(result@) == before + expected.take(k as int),
            timed_bounded(before) ==> timed_bounded(timed_all(result@)),
        decreases n - k,
    {
        let ghost taken = g.take(k as int);
        assert(g.take(k + 1).drop_last() =~= taken);
        proof {
            lemma_share_bound(duration as int, index as int, count as int);
        }
        let start = start_ms as i128 + duration * index / count;
        let grapheme = &gs[k];
        assert(grapheme@ == g[k as int]);
        let space = grapheme.len() == 1 && grapheme[0] == ' ';
        assert(space == is_space(g[k as int])) by {
            if grapheme@.len() == 1 && grapheme@[0] == ' ' {
                assert(grapheme@ =~= seq![' ']);
            }
        }
        if !space {
            index = index + 1;
        }
        assert(index == non_space_count(g.take(k + 1)));
        proof {
            lemma_share_bound(duration as int, index as int, count as int);
        }
        let end = start_ms as i128 + duration * index / count;
        let shown_text: Vec<char> = if space {
            vec!['\u{a0}']
        } else {
            slice_range(grapheme.as_slice(), 0, grapheme.len())
        };
        let item = TimedGrapheme {
            text: shown_text,
            start_ms: start,
            end_ms: if end > start {
                end
            } else {
                start + 1
            },
        };
        assert(timed_view(item) == expected[k as int]) by {
            assert(grapheme@.subrange(0, grapheme@.len() as int) =~= grapheme@);
            if space {
                assert(shown_text@ =~= seq!['\u{a0}']);
            }
        }
        let ghost old_result = result@;
        result.push(item);
        assert(timed_all(result@) =~= timed_all(old_result).push(timed_view(item)));
        assert(expected.take(k + 1) =~= expected.take(k as int).push(expected[k as int]));
        k = k + 1;
    }
    assert(expected.take(n as int) =~= expected);
}

/// The timed graphemes of all of a line's words.
pub fn timed_graphemes(line: &LyricLine) -> (r: Vec<TimedGrapheme>)
    requires
        line_fits(*line),
    ensures
        timed_all(r@) == line_timed(line.words@),
        timed_bounded(timed_all(r@)),
{
    let mut result: Vec<TimedGrapheme> = Vec::new();
    let n = line.words.len();
    let mut k: usize = 0;
    assert(timed_all(result@) =~= Seq::<Timed>::empty());
    while k < n
        invariant
            k <= n,
            n == line.words@.len(),
            line_fits(*line),
            timed_all(result@) == line_timed(line.words@.take(k as int)),
            timed_bounded(timed_all(result@)),
        decreases n - k,
    {
        let word = &line.words[k];
        assert(word_fits(line.words@[k as int]));
        append_timed_text(&mut result, word.word.as_str(), word.start_time, word.end_time);
        assert(line.words@.take(k + 1).drop_last() =~= line.words@.take(k as int));
        k = k + 1;
    }
    assert(line.words@.take(n as int) =~= line.words@);
    result
}

/// The progress of a grapheme spanning `[start, end)` at `position`:
/// the elapsed time clamped to the grapheme's duration (at least 1).
pub open spec fn progress_of(position: int, start: int, end: int) -> (int, int) {
    let d = if end - start > 1 {
        end - start
    } else {
        1
    };
    let e = position - start;
    (
        if e < 0 {
            0
        } else if e > d {
            d
        } else {
            e
        },
        d,
    )
}

/// A grapheme's progress is the time sung of it: nothing before its start,
/// all of its duration once its end has passed, the time since its start in
/// between, and never less at a later position.
pub proof fn progress_follows_the_clock(position: int, later: int, start: int, end: int)
    requires
        start < end,
        position <= later,
    ensures
        progress_of(position, start, end).1 == end - start,
        position <= start ==> progress_of(position, start, end).0 == 0,
        end <= position ==> progress_of(position, start, end).0 == end - start,
        start <= position <= end ==> progress_of(position, start, end).0 == position - start,
        0 <= progress_of(position, start, end).0 <= progress_of(later, start, end).0,
{
}

/// How a timed grapheme is shown at `position`.
pub open spec fn timed_shown(t: Timed, position: int) -> Shown {
    let p = progress_of(position, t.1, t.2);
    (t.0, position >= t.1, p.0, p.1)
}

/// How a grapheme of an untimed line is shown: fully sung.
pub open spec fn plain_shown(g: Seq<char>) -> Shown {
    (g, true, 1, 1)
}

/// The text of a line: its own text, or else its words run together.
pub open spec fn line_chars(line: LyricLine) -> Seq<char> {
    if line.text@.len() == 0 {
        line.words@.map_values(|w: LyricWord| w.word@).flatten()
    } else {
        line.text@
    }
}

/// The timed graphemes used for display: none unless the lyrics are word-synced.
pub open spec fn synced_timed(line: LyricLine, word_synced: bool) -> Seq<Timed> {
    if word_synced {
        line_timed(line.words@)
    } else {
        Seq::empty()
    }
}

/// The graphemes of a line before cropping.
pub open spec fn display_graphemes(line: LyricLine, position: int, word_synced: bool) -> Seq<Shown> {
    let timed = synced_timed(line, word_synced);
    if timed.len() > 0 {
        timed.map_values(|t: Timed| timed_shown(t, position))
    } else {
        grapheme_clusters(line_chars(line)).map_values(|g: Seq<char>| plain_shown(g))
    }
}

/// The index of the first grapheme not yet finished at `position` (its end
/// lies after `position`), or the count of graphemes.
pub open spec fn first_unfinished(ts: Seq<Timed>, position: int) -> int
    decreases ts.len(),
{
    if ts.len() == 0 {
        0
    } else if position < ts[0].2 {
        0
    } else {
        1 + first_unfinished(ts.drop_first(), position)
    }
}

/// "…"
pub open spec fn ellipsis() -> Seq<char> {
    seq!['…']
}

/// A window of `max` graphemes around the active one, marked with an
/// ellipsis on each clipped side.
pub open spec fn crop_synced_spec(gs: Seq<Shown>, active: int, max: int) -> Seq<Shown> {
    if gs.len() <= max {
        gs
    } else {
        let half = max / 2;
        let back = if active > half {
            active - half
        } else {
            0
        };
        let first = if back < gs.len() - max {
            back
        } else {
            gs.len() - max
        };
        let window = gs.subrange(first, first + max);
        let left = if first > 0 {
            window.update(0, (ellipsis(), true, 1, 1))
        } else {
            window
        };
        if first + max < gs.len() {
            left.update(max - 1, (ellipsis(), false, 0, 1))
        } else {
            left
        }
    }
}

/// The first (or, aligned to the end, the last) `max` graphemes, with an
/// ellipsis in place of the one at the cut.
pub open spec fn crop_plain_spec(gs: Seq<Shown>, max: int, align_end: bool) -> Seq<Shown> {
    if gs.len() <= max {
        gs
    } else if align_end {
        let w = gs.skip(gs.len() - max);
        w.update(0, (ellipsis(), w[0].1, w[0].2, w[0].3))
    } else {
        let w = gs.take(max);
        w.update(max - 1, (ellipsis(), w[max - 1].1, w[max - 1].2, w[max - 1].3))
    }
}

/// Neighbouring graphemes shown alike run together into one segment.
pub open spec fn merge_spec(gs: Seq<Shown>) -> Seq<Shown>
    decreases gs.len(),
{
    if gs.len() == 0 {
        Seq::empty()
    } else {
        let prev = merge_spec(gs.drop_last());
        let g = gs.last();
        if prev.len() > 0 && prev.last().1 == g.1 && same_ratio(
            prev.last().2,
            prev.last().3,
            g.2,
            g.3,
        ) {
            prev.update(
                prev.len() - 1,
                (prev.last().0 + g.0, prev.last().1, prev.last().2, prev.last().3),
            )
        } else {
            prev.push(g)
        }
    }
}

/// The text a run of graphemes shows: their texts, in order.
pub open spec fn shown_text(gs: Seq<Shown>) -> Seq<char>
    decreases gs.len(),
{
    if gs.len() == 0 {
        Seq::empty()
    } else {
        shown_text(gs.drop_last()) + gs.last().0
    }
}

/// Two graphemes are shown alike: both active or neither, with equal progress.
pub open spec fn alike(a: Shown, b: Shown) -> bool {
    a.1 == b.1 && same_ratio(a.2, a.3, b.2, b.3)
}

/// Merging keeps the text, never lengthens the run, and leaves no two
/// neighbouring segments shown alike.
pub proof fn merge_keeps_text(gs: Seq<Shown>)
    ensures
        shown_text(merge_spec(gs)) == shown_text(gs),
        merge_spec(gs).len() <= gs.len(),
        forall|i: int|
            0 <= i && i + 1 < merge_spec(gs).len() ==> !alike(
                #[trigger] merge_spec(gs)[i],
                merge_spec(gs)[i + 1],
            ),
    decreases gs.len(),
{
    if gs.len() > 0 {
        merge_keeps_text(gs.drop_last());
        let prev = merge_spec(gs.drop_last());
        let g = gs.last();
        let m = merge_spec(gs);
        if prev.len() > 0 && alike(prev.last(), g) {
            let last = prev.len() - 1;
            assert(m.drop_last() =~= prev.drop_last());
            assert(shown_text(m) == shown_text(prev.drop_last()) + (prev.last().0 + g.0));
            assert(shown_text(prev) == shown_text(prev.drop_last()) + prev.last().0);
            assert(shown_text(m) =~= shown_text(prev) + g.0);
            assert forall|i: int| 0 <= i && i + 1 < m.len() implies !alike(
                #[trigger] m[i],
                m[i + 1],
            ) by {
                assert(m[i] == prev[i]);
                if i + 1 < last {
                    assert(m[i + 1] == prev[i + 1]);
                } else {
                    assert(!alike(prev[i], prev[i + 1]));
                }
            }
        } else {
            assert(m =~= prev.push(g));
            assert(m.drop_last() =~= prev);
            assert forall|i: int| 0 <= i && i + 1 < m.len() implies !alike(
                #[trigger] m[i],
                m[i + 1],
            ) by {
                assert(m[i] == prev[i]);
                if i + 1 < prev.len() {
                    assert(m[i + 1] == prev[i + 1]);
                }
            }
        }
    }
}

/// Cropping a plain line keeps `max` graphemes at most. Keeping the start,
/// all but the last shown are the line's first ones and the last is an
/// ellipsis; keeping the end, all but the first are its last ones and the
/// first is an ellipsis.
pub proof fn crop_plain_keeps_an_end(gs: Seq<Shown>, max: int, align_end: bool)
    requires
        max > 0,
    ensures
        crop_plain_spec(gs, max, align_end).len() == if gs.len() <= max {
            gs.len() as int
        } else {
            max
        },
        gs.len() <= max ==> crop_plain_spec(gs, max, align_end) == gs,
        gs.len() > max && !align_end ==> crop_plain_spec(gs, max, align_end)[max - 1].0
            == ellipsis() && forall|i: int|
            0 <= i < max - 1 ==> #[trigger] crop_plain_spec(gs, max, align_end)[i] == gs[i],
        gs.len() > max && align_end ==> crop_plain_spec(gs, max, align_end)[0].0 == ellipsis()
            && forall|i: int|
            1 <= i < max ==> #[trigger] crop_plain_spec(gs, max, align_end)[i] == gs[gs.len() - max
                + i],
{
}

/// Cropping a word-synced line keeps `max` graphemes at most: a window of
/// the line that holds the active grapheme, clipped sides marked with an
/// ellipsis.
pub proof fn crop_synced_keeps_the_active(gs: Seq<Shown>, active: int, max: int)
    requires
        max > 1,
        0 <= active < gs.len(),
    ensures
        crop_synced_spec(gs, active, max).len() == if gs.len() <= max {
            gs.len() as int
        } else {
            max
        },
        gs.len() > max ==> {
            let first = window_start(gs.len() as int, active, max);
            &&& 0 <= first <= active < first + max <= gs.len()
            &&& forall|i: int|
                1 <= i < max - 1 ==> #[trigger] crop_synced_spec(gs, active, max)[i] == gs[first
                    + i]
        },
{
}

/// Cropping a word-synced line marks exactly the clipped sides: the first
/// grapheme shown is an ellipsis when the active grapheme lies more than
/// half the window from the start, and the line's own first grapheme
/// otherwise; the last shown is an ellipsis whenever graphemes remain after
/// the window, and the line's own last grapheme otherwise.
pub proof fn crop_synced_marks_clipped_sides(gs: Seq<Shown>, active: int, max: int)
    requires
        max > 1,
        0 <= active,
        gs.len() > max,
    ensures
        active > max / 2 ==> crop_synced_spec(gs, active, max)[0] == (ellipsis(), true, 1int, 1int),
        active <= max / 2 ==> crop_synced_spec(gs, active, max)[0] == gs[0],
        (active <= max / 2 || active + max - max / 2 < gs.len()) ==> crop_synced_spec(
            gs,
            active,
            max,
        )[max - 1] == (ellipsis(), false, 0int, 1int),
        !(active <= max / 2 || active + max - max / 2 < gs.len()) ==> crop_synced_spec(
            gs,
            active,
            max,
        )[max - 1] == gs[gs.len() - 1],
{
}

/// Where the window of `max` graphemes around the active one starts.
pub open spec fn window_start(len: int, active: int, max: int) -> int {
    let half = max / 2;
    let back = if active > half {
        active - half
    } else {
        0
    };
    if back < len - max {
        back
    } else {
        len - max
    }
}

/// The display segments of a line, or `None` when it shows no grapheme.
pub open spec fn segments_spec(
    line: LyricLine,
    position: int,
    word_synced: bool,
    max: int,
    align_end: bool,
) -> Option<Seq<Shown>> {
    let gs = display_graphemes(line, position, word_synced);
    let timed = synced_timed(line, word_synced);
    if gs.len() == 0 {
        None
    } else if timed.len() > 0 {
        Some(merge_spec(crop_synced_spec(gs, first_unfinished(timed, position), max)))
    } else {
        Some(merge_spec(crop_plain_spec(gs, max, align_end)))
    }
}

/// The graphemes a line shows once cropped to `max`, before neighbours merge.
pub open spec fn cropped(
    line: LyricLine,
    position: int,
    word_synced: bool,
    max: int,
    align_end: bool,
) -> Seq<Shown> {
    let gs = display_graphemes(line, position, word_synced);
    let timed = synced_timed(line, word_synced);
    if timed.len() > 0 {
        crop_synced_spec(gs, first_unfinished(timed, position), max)
    } else {
        crop_plain_spec(gs, max, align_end)
    }
}

/// A line on display shows the text of at most `max` graphemes.
pub proof fn shown_line_fits(
    line: LyricLine,
    position: int,
    word_synced: bool,
    max: int,
    align_end: bool,
)
    requires
        max > 0,
    ensures
        segments_spec(line, position, word_synced, max, align_end) matches Some(segments) ==> {
            let c = cropped(line, position, word_synced, max, align_end);
            &&& c.len() <= max
            &&& shown_text(segments) == shown_text(c)
        },
{
    let c = cropped(line, position, word_synced, max, align_end);
    merge_keeps_text(c);
    crop_plain_keeps_an_end(display_graphemes(line, position, word_synced), max, align_end);
}

/// The progress of a grapheme spanning `[start_ms, end_ms)` at `position_ms`.
pub fn timed_progress(position_ms: i64, start_ms: i128, end_ms: i128) -> (p: Progress)
    requires
        -0x1_0000_0000_0000_0000 <= start_ms < end_ms <= 0x4_0000_0000_0000_0000_0000_0000,
    ensures
        p.wf(),
        (p.done as int, p.total as int) == progress_of(
            position_ms as int,
            start_ms as int,
            end_ms as int,
        ),
{
    let duration: i128 = if end_ms - start_ms > 1 {
        end_ms - start_ms
    } else {
        1
    };
    let elapsed: i128 = position_ms as i128 - start_ms;
    let done: i128 = if elapsed < 0 {
        0
    } else if elapsed > duration {
        duration
    } else {
        elapsed
    };
    Progress { done: done as u128, total: duration as u128 }
}

/// The text of a line: its own text, or else its words run together.
pub fn line_text(line: &LyricLine) -> (r: Vec<char>)
    ensures
        r@ == line_chars(*line),
{
    if line.text.as_str().is_empty() {
        let ghost words = line.words@.map_values(|w: LyricWord| w.word@);
        let mut r: Vec<char> = Vec::new();
        let mut k: usize = 0;
        while k < line.words.len()
            invariant
                k <= line.words@.len(),
                words == line.words@.map_values(|w: LyricWord| w.word@),
                r@ == words.take(k as int).flatten(),
            decreases line.words@.len() - k,
        {
            assert(words.take(k + 1) =~= words.take(k as int).push(words[k as int]));
            proof {
                words.take(k as int).lemma_flatten_push(words[k as int]);
            }
            let word = chars_of(line.words[k].word.as_str());
            extend_chars(&mut r, word.as_slice());
            k = k + 1;
        }
        assert(words.take(k as int) =~= words);
        r
    } else {
        chars_of(line.text.as_str())
    }
}

/// The graphemes of an untimed line, all fully sung.
pub fn plain_graphemes(line: &LyricLine) -> (r: Vec<DisplayGrapheme>)
    ensures
        shown_all(r@) == grapheme_clusters(line_chars(*line)).map_values(
            |g: Seq<char>| plain_shown(g),
        ),
        progress_all_wf(r@),
{
    let text = line_text(line);
    let gs = graphemes(text.as_slice());
    let ghost expected = grapheme_clusters(line_chars(*line)).map_values(
        |g: Seq<char>| plain_shown(g),
    );
    let mut r: Vec<DisplayGrapheme> = Vec::new();
    let mut k: usize = 0;
    while k < gs.len()
        invariant
            k <= gs@.len(),
            views(gs@) == grapheme_clusters(line_chars(*line)),
            expected == grapheme_clusters(line_chars(*line)).map_values(
                |g: Seq<char>| plain_shown(g),
            ),
            shown_all(r@) == expected.take(k as int),
            progress_all_wf(r@),
        decreases gs@.len() - k,
    {
        let g = slice_range(gs[k].as_slice(), 0, gs[k].len());
        assert(g@ =~= views(gs@)[k as int]);
        let item = DisplayGrapheme { text: g, active: true, progress: Progress { done: 1, total: 1 } };
        let ghost old_r = r@;
        r.push(item);
        assert(shown_all(r@) =~= shown_all(old_r).push(item.view()));
        assert(expected.take(k + 1) =~= expected.take(k as int).push(expected[k as int]));
        k = k + 1;
    }
    assert(expected.take(k as int) =~= expected);
    r
}

/// The index of the first grapheme not yet finished at `position_ms`.
pub fn active_index(timed: &Vec<TimedGrapheme>, position_ms: i64) -> (r: usize)
    ensures
        r == first_unfinished(timed_all(timed@), position_ms as int),
        r <= timed@.len(),
{
    let ghost ts = timed_all(timed@);
    let mut k: usize = 0;
    assert(ts.skip(0) =~= ts);
    while k < timed.len() && !((position_ms as i128) < timed[k].end_ms)
        invariant
            k <= timed@.len(),
            ts == timed_all(timed@),
            first_unfinished(ts, position_ms as int) == k + first_unfinished(
                ts.skip(k as int),
                position_ms as int,
            ),
        decreases timed@.len() - k,
    {
        assert(ts.skip(k as int).drop_first() =~= ts.skip(k + 1));
        k = k + 1;
    }
    k
}

fn ellipsis_grapheme(active: bool, progress: Progress) -> (g: DisplayGrapheme)
    requires
        progress.wf(),
    ensures
        g.view() == (ellipsis(), active, progress.done as int, progress.total as int),
        g.progress.wf(),
{
    let text = vec!['…'];
    assert(text@ =~= ellipsis());
    DisplayGrapheme { text, active, progress }
}

/// Keeps a window of `max_chars` graphemes around the active one.
pub fn crop_synced(graphemes: &mut Vec<DisplayGrapheme>, active_index: usize, max_chars: usize)
    requires
        max_chars > 0,
        progress_all_wf(old(graphemes)@),
    ensures
        shown_all(final(graphemes)@) == crop_synced_spec(
            shown_all(old(graphemes)@),
            active_index as int,
            max_chars as int,
        ),
        progress_all_wf(final(graphemes)@),
{
    let len = graphemes.len();
    if len <= max_chars {
        return;
    }
    let ghost before = shown_all(graphemes@);
    let half = max_chars / 2;
    let back = active_index.saturating_sub(half);
    let first = if back < len - max_chars {
        back
    } else {
        len - max_chars
    };
    let clipped_right = first + max_chars < len;
    let ghost old_all = graphemes@;
    let mut window = graphemes.split_off(first);
    window.truncate(max_chars);
    assert(shown_all(window@) =~= before.subrange(first as int, first + max_chars));
    if first > 0 {
        let g = ellipsis_grapheme(true, Progress { done: 1, total: 1 });
        let ghost w0 = window@;
        window.set(0, g);
        assert(shown_all(window@) =~= shown_all(w0).update(0, g.view()));
    }
    if clipped_right {
        let g = ellipsis_grapheme(false, Progress { done: 0, total: 1 });
        let ghost w0 = window@;
        window.set(max_chars - 1, g);
        assert(shown_all(window@) =~= shown_all(w0).update(max_chars - 1, g.view()));
    }
    *graphemes = window;
}

/// Keeps the first (or last) `max_chars` graphemes.
pub fn crop_plain(graphemes: &mut Vec<DisplayGrapheme>, max_chars: usize, align_end: bool)
    requires
        max_chars > 0,
        progress_all_wf(old(graphemes)@),
    ensures
        shown_all(final(graphemes)@) == crop_plain_spec(
            shown_all(old(graphemes)@),
            max_chars as int,
            align_end,
        ),
        progress_all_wf(final(graphemes)@),
{
    let len = graphemes.len();
    if len <= max_chars {
        return;
    }
    let ghost before = shown_all(graphemes@);
    if align_end {
        let mut window = graphemes.split_off(len - max_chars);
        assert(shown_all(window@) =~= before.skip(len - max_chars));
        let active = window[0].active;
        let progress = window[0].progress;
        let g = ellipsis_grapheme(active, progress);
        let ghost w0 = window@;
        window.set(0, g);
        assert(shown_all(window@) =~= shown_all(w0).update(0, g.view()));
        *graphemes = window;
    } else {
        graphemes.truncate(max_chars);
        assert(shown_all(graphemes@) =~= before.take(max_chars as int));
        let active = graphemes[max_chars - 1].active;
        let progress = graphemes[max_chars - 1].progress;
        let g = ellipsis_grapheme(active, progress);
        let ghost w0 = graphemes@;
        graphemes.set(max_chars - 1, g);
        assert(shown_all(graphemes@) =~= shown_all(w0).update(max_chars - 1, g.view()));
    }
}

/// Runs neighbouring graphemes that are shown alike together.
pub fn merge_segments(graphemes: Vec<DisplayGrapheme>) -> (r: Vec<TextSegment>)
    requires
        progress_all_wf(graphemes@),
    ensures
        segments_view(r@) == merge_spec(shown_all(graphemes@)),
        forall|i: int| 0 <= i < r@.len() ==> (#[trigger] r@[i]).progress.wf(),
{
    let ghost all = shown_all(graphemes@);
    let mut merged: Vec<DisplayGrapheme> = Vec::new();
    let mut k: usize = 0;
    assert(all.take(0) =~= Seq::<Shown>::empty());
    while k < graphemes.len()
        invariant
            k <= graphemes@.len(),
            all == shown_all(graphemes@),
            progress_all_wf(graphemes@),
            shown_all(merged@) == merge_spec(all.take(k as int)),
            progress_all_wf(merged@),
        decreases graphemes@.len() - k,
    {
        let g = &graphemes[k];
        assert(all.take(k + 1).drop_last() =~= all.take(k as int));
        assert(all.take(k + 1).last() == g.view());
        let n = merged.len();
        let joins = n > 0 && merged[n - 1].active == g.active && ratio_eq(
            merged[n - 1].progress.done,
            merged[n - 1].progress.total,
            g.progress.done,
            g.progress.total,
        );
        if joins {
            let ghost m0 = merged@;
            let mut last = merged.pop().unwrap();
            extend_chars(&mut last.text, g.text.as_slice());
            let ghost lv = last.view();
            merged.push(last);
            assert(shown_all(merged@) =~= shown_all(m0).update(n - 1, lv));
        } else {
            let text = slice_range(g.text.as_slice(), 0, g.text.len());
            assert(text@ =~= g.text@);
            let item = DisplayGrapheme { text, active: g.active, progress: g.progress };
            let ghost m0 = merged@;
            merged.push(item);
            assert(shown_all(merged@) =~= shown_all(m0).push(item.view()));
        }
        k = k + 1;
    }
    assert(all.take(k as int) =~= all);
    let mut r: Vec<TextSegment> = Vec::new();
    let mut j: usize = 0;
    while j < merged.len()
        invariant
            j <= merged@.len(),
            progress_all_wf(merged@),
            segments_view(r@) == shown_all(merged@).take(j as int),
            forall|i: int| 0 <= i < r@.len() ==> (#[trigger] r@[i]).progress.wf(),
        decreases merged@.len() - j,
    {
        let m = &merged[j];
        let seg = TextSegment {
            text: string_from_chars(m.text.as_slice()),
            active: m.active,
            progress: m.progress,
        };
        let ghost r0 = r@;
        r.push(seg);
        assert(segments_view(r@) =~= segments_view(r0).push(seg.view()));
        assert(shown_all(merged@).take(j + 1) =~= shown_all(merged@).take(j as int).push(
            m.view(),
        ));
        j = j + 1;
    }
    assert(shown_all(merged@).take(j as int) =~= shown_all(merged@));
    r
}

/// The display segments of a line at `position_ms`: its graphemes (timed
/// when the lyrics are word-synced and the line has timed text, else
/// plain), cropped to `max_chars`, with alike neighbours merged; `None` when
/// the line shows nothing.
pub fn display_segments(
    line: &LyricLine,
    position_ms: i64,
    word_synced: bool,
    max_chars: usize,
    align_end: bool,
) -> (r: Option<Vec<TextSegment>>)
    requires
        word_synced ==> line_fits(*line),
        max_chars > 0 || display_graphemes(*line, position_ms as int, word_synced).len() == 0,
    ensures
        r matches Some(v) ==> segments_spec(
            *line,
            position_ms as int,
            word_synced,
            max_chars as int,
            align_end,
        ) == Some(segments_view(v@)),
        r is None ==> segments_spec(
            *line,
            position_ms as int,
            word_synced,
            max_chars as int,
            align_end,
        ) is None,
        r matches Some(v) ==> forall|i: int| 0 <= i < v@.len() ==> (#[trigger] v@[i]).progress.wf(),
{
    let timed: Vec<TimedGrapheme> = if word_synced {
        timed_graphemes(line)
    } else {
        Vec::new()
    };
    let ghost ts = synced_timed(*line, word_synced);
    assert(timed_all(timed@) == ts) by {
        if !word_synced {
            assert(timed_all(timed@) =~= Seq::<Timed>::empty());
        }
    }
    let ghost expected = display_graphemes(*line, position_ms as int, word_synced);
    if timed.len() > 0 {
        let active = active_index(&timed, position_ms);
        let mut shown: Vec<DisplayGrapheme> = Vec::new();
        let mut k: usize = 0;
        while k < timed.len()
            invariant
                k <= timed@.len(),
                timed_all(timed@) == ts,
                ts.len() > 0,
                timed_bounded(ts),
                expected == ts.map_values(|t: Timed| timed_shown(t, position_ms as int)),
                shown_all(shown@) == expected.take(k as int),
                progress_all_wf(shown@),
            decreases timed@.len() - k,
        {
            let t = &timed[k];
            assert(timed_view(*t) == ts[k as int]);
            let progress = timed_progress(position_ms, t.start_ms, t.end_ms);
            let text = slice_range(t.text.as_slice(), 0, t.text.len());
            assert(text@ =~= t.text@);
            let item = DisplayGrapheme {
                text,
                active: position_ms as i128 >= t.start_ms,
                progress,
            };
            let ghost s0 = shown@;
            shown.push(item);
            assert(shown_all(shown@) =~= shown_all(s0).push(item.view()));
            assert(expected.take(k + 1) =~= expected.take(k as int).push(expected[k as int]));
            k = k + 1;
        }
        assert(expected.take(k as int) =~= expected);
        crop_synced(&mut shown, active, max_chars);
        Some(merge_segments(shown))
    } else {
        let mut shown = plain_graphemes(line);
        if shown.len() == 0 {
            return None;
        }
        crop_plain(&mut shown, max_chars, align_end);
        Some(merge_segments(shown))
    }
}

/// `text` shortened to `max` graphemes, the last replaced by an ellipsis.
pub open spec fn truncated(text: Seq<char>, max: int) -> Seq<char> {
    let g = grapheme_clusters(text);
    if g.len() > max {
        g.take(max).update(max - 1, ellipsis()).flatten()
    } else {
        text
    }
}

/// Shortens `text` to at most `max_chars` graphemes.
pub fn truncate_chars(text: &[char], max_chars: usize) -> (r: Vec<char>)
    requires
        max_chars > 0 || text@.len() == 0,
    ensures
        r@ == truncated(text@, max_chars as int),
{
    let mut gs = graphemes(text);
    proof {
        lemma_clusters_len(text@, gs@);
    }
    if gs.len() > max_chars {
        let ghost g0 = views(gs@);
        gs.truncate(max_chars);
        let e = vec!['…'];
        assert(e@ =~= ellipsis());
        gs.set(max_chars - 1, e);
        assert(views(gs@) =~= g0.take(max_chars as int).update(max_chars - 1, ellipsis()));
    }
    concat_all(&gs)
}

/// Shortens `text` to at most `max_chars` graphemes (`…` marks the cut).
pub fn truncate_text(text: &str, max_chars: usize) -> (r: String)
    requires
        max_chars > 0 || text@.len() == 0,
    ensures
        r@ == truncated(text@, max_chars as int),
{
    let chars = chars_of(text);
    let cut = truncate_chars(chars.as_slice(), max_chars);
    string_from_chars(cut.as_slice())
}

/// `text` shortened to its last `max` graphemes, the first of them `…`.
pub open spec fn truncated_end(text: Seq<char>, max: int) -> Seq<char> {
    let g = grapheme_clusters(text);
    if g.len() > max {
        g.skip(g.len() - max).update(0, ellipsis()).flatten()
    } else {
        text
    }
}

/// A song title shortened to `max` graphemes, keeping its start or its end.
pub open spec fn title_text(text: Seq<char>, max: int, align_end: bool) -> Seq<char> {
    if align_end {
        truncated_end(text, max)
    } else {
        truncated(text, max)
    }
}

/// Shortens `text` to its last `max_chars` graphemes (`…` marks the cut).
pub fn truncate_chars_end(text: &[char], max_chars: usize) -> (r: Vec<char>)
    requires
        max_chars > 0 || text@.len() == 0,
    ensures
        r@ == truncated_end(text@, max_chars as int),
{
    let mut gs = graphemes(text);
    proof {
        lemma_clusters_len(text@, gs@);
    }
    let len = gs.len();
    if len > max_chars {
        let ghost g0 = views(gs@);
        let mut tail = gs.split_off(len - max_chars);
        assert(views(tail@) =~= g0.skip(len - max_chars));
        let e = vec!['…'];
        assert(e@ =~= ellipsis());
        tail.set(0, e);
        assert(views(tail@) =~= g0.skip(len - max_chars).update(0, ellipsis()));
        return concat_all(&tail);
    }
    concat_all(&gs)
}

/// Shortens a song title to `max_chars` graphemes, keeping its start, or
/// its end when `align_end`.
pub fn truncate_title(text: &str, max_chars: usize, align_end: bool) -> (r: String)
    requires
        max_chars > 0 || text@.len() == 0,
    ensures
        r@ == title_text(text@, max_chars as int, align_end),
{
    let chars = chars_of(text);
    let cut = if align_end {
        truncate_chars_end(chars.as_slice(), max_chars)
    } else {
        truncate_chars(chars.as_slice(), max_chars)
    };
    string_from_chars(cut.as_slice())
}

/// `text` shortened to a window of `max` graphemes placed where `focus` of
/// `source_len` timed graphemes falls, each clipped side marked by `…`.
pub open spec fn truncated_around(text: Seq<char>, max: int, focus: int, source_len: int) -> Seq<
    char,
> {
    let g = grapheme_clusters(text);
    let len = g.len() as int;
    if len <= max || source_len == 0 {
        text
    } else {
        let product = if focus * len > usize::MAX {
            usize::MAX as int
        } else {
            focus * len
        };
        let f = product / source_len;
        let half = max / 2;
        let back = if f > half {
            f - half
        } else {
            0
        };
        let first = if back < len - max {
            back
        } else {
            len - max
        };
        let w = g.subrange(first, first + max);
        let left = if first > 0 {
            w.update(0, ellipsis())
        } else {
            w
        };
        let both = if first + max < len {
            left.update(max - 1, ellipsis())
        } else {
            left
        };
        both.flatten()
    }
}

/// The graphemes `g[first..first + max]`, with the grapheme at each clipped
/// side replaced by `…`.
pub open spec fn marked_window(g: Seq<Seq<char>>, first: int, max: int) -> Seq<Seq<char>> {
    let w = g.subrange(first, first + max);
    let left = if first > 0 {
        w.update(0, ellipsis())
    } else {
        w
    };
    if first + max < g.len() {
        left.update(max - 1, ellipsis())
    } else {
        left
    }
}

/// A scrolled subtitle too long for `max` shows the window that a synced
/// line of its own length would show around the focus scaled to it: the
/// focus `focus` of `source_len` timed graphemes stands for grapheme
/// `focus * len / source_len` of the subtitle's `len`. That grapheme lies
/// in the window; a focus at the start keeps the subtitle's start, and a
/// focus past the last timed grapheme keeps its end.
pub proof fn subtitle_window_follows_the_scaled_focus(
    text: Seq<char>,
    max: int,
    focus: int,
    source_len: int,
)
    requires
        max > 1,
        0 <= focus,
        source_len > 0,
        grapheme_clusters(text).len() > max,
        focus * grapheme_clusters(text).len() <= usize::MAX,
    ensures
        ({
            let g = grapheme_clusters(text);
            let len = g.len() as int;
            let scaled = focus * len / source_len;
            let first = window_start(len, scaled, max);
            &&& truncated_around(text, max, focus, source_len) == marked_window(
                g,
                first,
                max,
            ).flatten()
            &&& 0 <= first <= len - max
            &&& scaled < len ==> first <= scaled < first + max
            &&& focus == 0 ==> first == 0
            &&& focus >= source_len ==> first + max == len
        }),
{
    let g = grapheme_clusters(text);
    let len = g.len() as int;
    let scaled = focus * len / source_len;
    assert(0 <= focus * len) by (nonlinear_arith)
        requires
            0 <= focus,
            0 <= len,
    ;
    if focus >= source_len {
        assert(focus * len >= source_len * len) by (nonlinear_arith)
            requires
                focus >= source_len,
                len >= 0,
        ;
        assert(scaled >= len) by (nonlinear_arith)
            requires
                focus * len >= source_len * len,
                source_len > 0,
                scaled == focus * len / source_len,
        ;
    }
}

/// Shortens `text` to a window of `max_chars` graphemes at the relative
/// position of `focus` among `source_len` graphemes.
pub fn truncate_around(text: &[char], max_chars: usize, focus: usize, source_len: usize) -> (r: Vec<
    char,
>)
    requires
        max_chars > 0 || source_len == 0 || text@.len() == 0,
    ensures
        r@ == truncated_around(text@, max_chars as int, focus as int, source_len as int),
{
    let gs = graphemes(text);
    proof {
        lemma_clusters_len(text@, gs@);
    }
    let len = gs.len();
    if len <= max_chars || source_len == 0 {
        return slice_range(text, 0, text.len());
    }
    let product = match focus.checked_mul(len) {
        Some(p) => p,
        None => usize::MAX,
    };
    let f = product / source_len;
    let first_back = f.saturating_sub(max_chars / 2);
    let first = if first_back < len - max_chars {
        first_back
    } else {
        len - max_chars
    };
    let ghost g0 = views(gs@);
    let mut window = slice_graphemes(&gs, first, first + max_chars);
    assert(max_chars > 0);
    assert(window@.len() == views(window@).len());
    let e = vec!['…'];
    assert(e@ =~= ellipsis());
    if first > 0 {
        let ghost w0 = views(window@);
        let ell = slice_range(e.as_slice(), 0, 1);
        assert(ell@ =~= ellipsis());
        window.set(0, ell);
        assert(views(window@) =~= w0.update(0, ellipsis()));
    }
    if first + max_chars < len {
        let ghost w0 = views(window@);
        let ell = slice_range(e.as_slice(), 0, 1);
        assert(ell@ =~= ellipsis());
        window.set(max_chars - 1, ell);
        assert(views(window@) =~= w0.update(max_chars - 1, ellipsis()));
    }
    concat_all(&window)
}

/// A copy of `gs[from..to]`.
fn slice_graphemes(gs: &Vec<Vec<char>>, from: usize, to: usize) -> (r: Vec<Vec<char>>)
    requires
        from <= to <= gs@.len(),
    ensures
        views(r@) == views(gs@).subrange(from as int, to as int),
{
    let mut r: Vec<Vec<char>> = Vec::new();
    let mut k = from;
    while k < to
        invariant
            from <= k <= to <= gs@.len(),
            views(r@) == views(gs@).subrange(from as int, k as int),
        decreases to - k,
    {
        let g = slice_range(gs[k].as_slice(), 0, gs[k].len());
        assert(g@ =~= gs@[k as int]@);
        let ghost r0 = views(r@);
        r.push(g);
        assert(views(r@) =~= r0.push(g@));
        assert(views(gs@).subrange(from as int, k + 1) =~= views(gs@).subrange(from as int, k as int).push(g@));
        k = k + 1;
    }
    r
}

/// The subtitle text that `mode` selects for a line, and whether it follows
/// the line's timing (romanization does, translation does not).
pub open spec fn subtitle_choice(line: LyricLine, mode: SubtitleMode) -> (Seq<char>, bool) {
    let translation = trimmed(line.translation@);
    let romanization = trimmed(line.romanization@);
    match mode {
        SubtitleMode::Auto => if translation.len() > 0 {
            (translation, false)
        } else {
            (romanization, true)
        },
        SubtitleMode::Translation => (translation, false),
        SubtitleMode::Romanization => (romanization, true),
        SubtitleMode::Hidden => (Seq::empty(), false),
    }
}

/// The subtitle shown under a line.
pub open spec fn subtitle_spec(
    line: LyricLine,
    position: int,
    word_synced: bool,
    max: int,
    mode: SubtitleMode,
) -> Seq<char> {
    let (text, follows) = subtitle_choice(line, mode);
    if !follows || !word_synced {
        truncated(text, max)
    } else {
        let timed = line_timed(line.words@);
        truncated_around(text, max, first_unfinished(timed, position), timed.len() as int)
    }
}

/// The subtitle under a line: the translation or romanization that `mode`
/// selects, trimmed and shortened to `max_chars` graphemes; a romanization of
/// word-synced lyrics is cropped around the line's current position.
pub fn subtitle(
    line: &LyricLine,
    position_ms: i64,
    word_synced: bool,
    max_chars: usize,
    mode: SubtitleMode,
) -> (r: String)
    requires
        word_synced ==> line_fits(*line),
        max_chars > 0 || subtitle_choice(*line, mode).0.len() == 0 || (subtitle_choice(*line, mode).1
            && word_synced && line_timed(line.words@).len() == 0),
    ensures
        r@ == subtitle_spec(*line, position_ms as int, word_synced, max_chars as int, mode),
{
    let translation = trim(chars_of(line.translation.as_str()).as_slice());
    let romanization = trim(chars_of(line.romanization.as_str()).as_slice());
    let (text, follows_lyrics) = match mode {
        SubtitleMode::Auto => if translation.len() > 0 {
            (translation, false)
        } else {
            (romanization, true)
        },
        SubtitleMode::Translation => (translation, false),
        SubtitleMode::Romanization => (romanization, true),
        SubtitleMode::Hidden => (Vec::new(), false),
    };
    assert(text@ == subtitle_choice(*line, mode).0) by {
        if mode == SubtitleMode::Hidden {
            assert(text@ =~= Seq::<char>::empty());
        }
    }
    if !follows_lyrics || !word_synced {
        let cut = truncate_chars(text.as_slice(), max_chars);
        return string_from_chars(cut.as_slice());
    }
    let timed = timed_graphemes(line);
    let active = active_index(&timed, position_ms);
    let cut = truncate_around(text.as_slice(), max_chars, active, timed.len());
    string_from_chars(cut.as_slice())
}

} // verus!
