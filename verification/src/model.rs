//! Domain model shared by sources, the engine and the outputs.
use vstd::prelude::*;

verus! {

/// A track as a player reports it.
pub struct Track {
    pub id: String,
    pub title: String,
    pub artists: Vec<String>,
    pub cover: String,
}

/// A lyric line with its optional word timings (milliseconds).
pub struct LyricLine {
    pub words: Vec<LyricWord>,
    pub text: String,
    pub translation: String,
    pub romanization: String,
    pub start_time: i64,
    pub end_time: i64,
    pub is_background: bool,
}

/// One timed word of a lyric line.
pub struct LyricWord {
    pub word: String,
    pub start_time: i64,
    pub end_time: i64,
}

/// The lyrics a source reports for a track.
pub struct LyricsSnapshot {
    pub track_id: String,
    pub lines: Vec<LyricLine>,
    pub word_synced: bool,
    pub source: String,
}

/// The latest end time among `words` (0 when there are none).
pub open spec fn words_latest_end(words: Seq<LyricWord>) -> int
    decreases words.len(),
{
    if words.len() == 0 {
        0
    } else if words.len() == 1 {
        words[0].end_time as int
    } else {
        let rest = words_latest_end(words.drop_last());
        if words.last().end_time as int > rest {
            words.last().end_time as int
        } else {
            rest
        }
    }
}

/// When a line really ends: the later of its own end and its words' ends,
/// provided that this lies after its start.
pub open spec fn effective_end(line: LyricLine) -> Option<i64> {
    let words_end = words_latest_end(line.words@);
    let end = if words_end > line.end_time as int {
        words_end
    } else {
        line.end_time as int
    };
    if end > line.start_time as int {
        Some(end as i64)
    } else {
        None
    }
}

proof fn lemma_latest_end_in_range(words: Seq<LyricWord>)
    ensures
        i64::MIN <= words_latest_end(words) <= i64::MAX,
    decreases words.len(),
{
    if words.len() > 1 {
        lemma_latest_end_in_range(words.drop_last());
    }
}

impl LyricLine {
    /// The time at which this line ends, when it ends after it starts.
    pub fn effective_end_time(&self) -> (r: Option<i64>)
        ensures
            r == effective_end(*self),
            r matches Some(end) ==> end > self.start_time && end >= self.end_time,
    {
        let n = self.words.len();
        let mut latest: i64 = 0;
        let mut k: usize = 0;
        while k < n
            invariant
                k <= n,
                n == self.words@.len(),
                latest == words_latest_end(self.words@.take(k as int)),
            decreases n - k,
        {
            assert(self.words@.take(k + 1).drop_last() =~= self.words@.take(k as int));
            let end = self.words[k].end_time;
            if k == 0 || end > latest {
                latest = end;
            }
            k = k + 1;
        }
        assert(self.words@.take(n as int) =~= self.words@);
        let end = if latest > self.end_time {
            latest
        } else {
            self.end_time
        };
        if end > self.start_time {
            Some(end)
        } else {
            None
        }
    }
}

} // verus!
