//! Playback state, line transitions and display frames.
//!
//! The engine keeps what it knows of the player and the lyrics and turns
//! it into frames. Timing (the playback clock) and fetching stay with the
//! caller: it hands the engine the current position and what the source
//! reported.
use vstd::prelude::*;

use crate::cover::{polled_path, requests, CoverAction, CoverCache, CoverResult};
use crate::lyrics::{
    display_graphemes, display_segments, line_fits, segments_spec, segments_view, subtitle,
    subtitle_spec, title_text, truncate_title, Shown, TextSegment,
};
use crate::model::{effective_end, LyricLine, LyricsSnapshot, Track};
use crate::options::{Alignment, SubtitleMode};
use crate::text::{chars_of, extend_chars, signed_decimal, signed_decimal_chars, string_from_chars};

verus! {

/// How long before a line starts its predecessor may begin to move out.
pub const LINE_TRANSITION_MAX_LEAD_MS: i64 = 320;

/// When the change from `line` to `next` starts: when `line` ends, but
/// no earlier than the lead before `next` starts and no later than its start.
pub open spec fn transition_start_of(line: LyricLine, next: LyricLine) -> int {
    let earliest = if next.start_time - 320 < i64::MIN {
        i64::MIN as int
    } else {
        next.start_time - 320
    };
    let end = match effective_end(line) {
        Some(e) => e as int,
        None => earliest,
    };
    if end < earliest {
        earliest
    } else if end > next.start_time {
        next.start_time as int
    } else {
        end
    }
}

/// When the change from `line` to `next_line` starts.
pub fn transition_start(line: &LyricLine, next_line: &LyricLine) -> (r: i64)
    ensures
        r == transition_start_of(*line, *next_line),
        r <= next_line.start_time,
        r >= next_line.start_time - 320 || r == i64::MIN,
{
    let earliest = if next_line.start_time < i64::MIN + LINE_TRANSITION_MAX_LEAD_MS {
        i64::MIN
    } else {
        next_line.start_time - LINE_TRANSITION_MAX_LEAD_MS
    };
    let end = match line.effective_end_time() {
        Some(end) => end,
        None => earliest,
    };
    if end < earliest {
        earliest
    } else if end > next_line.start_time {
        next_line.start_time
    } else {
        end
    }
}

/// A lyric line as shown: a key that identifies it, its segments and its
/// subtitle.
pub struct DisplayLine {
    pub key: String,
    pub segments: Vec<TextSegment>,
    pub subtitle: String,
}

pub type LineView = (Seq<char>, Seq<Shown>, Seq<char>);

impl DisplayLine {
    pub open spec fn view(self) -> LineView {
        (self.key@, segments_view(self.segments@), self.subtitle@)
    }
}

/// The key of a line: the track title, `|` and the line's start time.
pub open spec fn line_key(title: Seq<char>, start_time: i64) -> Seq<char> {
    title + seq!['|'] + signed_decimal(start_time as int)
}

/// How a line is shown, or `None` when it shows nothing.
pub open spec fn display_line_spec(
    line: LyricLine,
    title: Seq<char>,
    position: int,
    word_synced: bool,
    max: int,
    alignment: Alignment,
    mode: SubtitleMode,
) -> Option<LineView> {
    match segments_spec(line, position, word_synced, max, alignment == Alignment::End) {
        Some(segments) => Some(
            (
                line_key(title, line.start_time),
                segments,
                subtitle_spec(line, position, word_synced, max, mode),
            ),
        ),
        None => None,
    }
}

/// The inputs on which `display_line` does its work.
pub open spec fn display_line_ok(line: LyricLine, position: int, word_synced: bool, max: int) -> bool {
    &&& word_synced ==> line_fits(line)
    &&& max > 0 || display_graphemes(line, position, word_synced).len() == 0
}

/// A lyric line prepared for display.
pub fn display_line(
    line: &LyricLine,
    title: &str,
    position_ms: i64,
    word_synced: bool,
    max_chars: usize,
    alignment: Alignment,
    subtitle_mode: SubtitleMode,
) -> (r: Option<DisplayLine>)
    requires
        display_line_ok(*line, position_ms as int, word_synced, max_chars as int),
    ensures
        r matches Some(d) ==> display_line_spec(
            *line,
            title@,
            position_ms as int,
            word_synced,
            max_chars as int,
            alignment,
            subtitle_mode,
        ) == Some(d.view()),
        r is None ==> display_line_spec(
            *line,
            title@,
            position_ms as int,
            word_synced,
            max_chars as int,
            alignment,
            subtitle_mode,
        ) is None,
        r matches Some(d) ==> forall|i: int|
            0 <= i < d.segments@.len() ==> (#[trigger] d.segments@[i]).progress.wf(),
{
    let segments = match display_segments(
        line,
        position_ms,
        word_synced,
        max_chars,
        alignment.is_end(),
    ) {
        Some(segments) => segments,
        None => {
            return None;
        },
    };
    let mut key = chars_of(title);
    key.push('|');
    let start = signed_decimal_chars(line.start_time);
    extend_chars(&mut key, start.as_slice());
    assert(max_chars > 0);
    let sub = subtitle(line, position_ms, word_synced, max_chars, subtitle_mode);
    Some(DisplayLine { key: string_from_chars(key.as_slice()), segments, subtitle: sub })
}

/// The line that is moving out while the current one moves in, and how far
/// the change has come, in milliseconds of `LINE_TRANSITION_MAX_LEAD_MS`.
pub struct LineTransition {
    pub outgoing: DisplayLine,
    pub elapsed_ms: i64,
}

/// What a bar shows at one moment.
pub struct Frame {
    pub visible: bool,
    pub playing: bool,
    pub title: String,
    pub artist: String,
    pub source: String,
    pub cover_path: String,
    pub fallback_text: String,
    pub alignment: Alignment,
    pub line: Option<DisplayLine>,
    pub transition: Option<LineTransition>,
}

/// A frame that shows nothing.
pub open spec fn is_hidden(f: Frame, alignment: Alignment) -> bool {
    &&& !f.visible
    &&& !f.playing
    &&& f.title@ == Seq::<char>::empty()
    &&& f.artist@ == Seq::<char>::empty()
    &&& f.source@ == Seq::<char>::empty()
    &&& f.cover_path@ == Seq::<char>::empty()
    &&& f.fallback_text@ == Seq::<char>::empty()
    &&& f.alignment == alignment
    &&& f.line is None
    &&& f.transition is None
}

/// A frame that shows the track title in place of lyrics.
pub open spec fn is_fallback(
    f: Frame,
    playing: bool,
    title: Seq<char>,
    artist: Seq<char>,
    source: Seq<char>,
    cover_path: Seq<char>,
    max: int,
    alignment: Alignment,
) -> bool {
    &&& f.fallback_text@ == title_text(title, max, alignment == Alignment::End)
    &&& f.visible == (f.fallback_text@.len() > 0)
    &&& f.playing == playing
    &&& f.title@ == title
    &&& f.artist@ == artist
    &&& f.source@ == source
    &&& f.cover_path@ == cover_path
    &&& f.alignment == alignment
    &&& f.line is None
    &&& f.transition is None
}

impl Frame {
    fn hidden(alignment: Alignment) -> (r: Self)
        ensures
            is_hidden(r, alignment),
    {
        Frame {
            visible: false,
            playing: false,
            title: String::new(),
            artist: String::new(),
            source: String::new(),
            cover_path: String::new(),
            fallback_text: String::new(),
            alignment,
            line: None,
            transition: None,
        }
    }

    fn fallback(
        playing: bool,
        track: &Track,
        artist: String,
        source: &str,
        cover_path: &str,
        max_chars: usize,
        alignment: Alignment,
    ) -> (r: Self)
        requires
            max_chars > 0,
        ensures
            is_fallback(
                r,
                playing,
                track.title@,
                artist@,
                source@,
                cover_path@,
                max_chars as int,
                alignment,
            ),
    {
        let fallback_text = truncate_title(track.title.as_str(), max_chars, alignment.is_end());
        Frame {
            visible: !fallback_text.as_str().is_empty(),
            playing,
            title: track.title.clone(),
            artist,
            source: source.to_owned(),
            cover_path: cover_path.to_owned(),
            fallback_text,
            alignment,
            line: None,
            transition: None,
        }
    }

    /// The text shown when there are no lyrics.
    pub fn display_text(&self) -> (r: String)
        ensures
            r@ == self.fallback_text@,
    {
        self.fallback_text.clone()
    }

    /// Whether the frame shows anything.
    pub fn is_visible(&self) -> (r: bool)
        ensures
            r == self.visible,
    {
        self.visible
    }

    /// Whether the player is playing.
    pub fn is_playing(&self) -> (r: bool)
        ensures
            r == self.playing,
    {
        self.playing
    }

    /// Whether a lyric line is shown.
    pub fn has_lyrics(&self) -> (r: bool)
        ensures
            r == self.line is Some,
    {
        self.line.is_some()
    }

    /// Whether one line is moving out while another moves in.
    pub fn is_transitioning(&self) -> (r: bool)
        ensures
            r == self.transition is Some,
    {
        self.transition.is_some()
    }
}

/// The non-empty names joined by " / ".
pub open spec fn joined_names(names: Seq<Seq<char>>) -> Seq<char>
    decreases names.len(),
{
    if names.len() == 0 {
        Seq::empty()
    } else if names.len() == 1 {
        names[0]
    } else {
        joined_names(names.drop_last()) + seq![' ', '/', ' '] + names.last()
    }
}

/// The artist names that are not empty, in order.
pub open spec fn named(artists: Seq<String>) -> Seq<Seq<char>>
    decreases artists.len(),
{
    if artists.len() == 0 {
        Seq::empty()
    } else if artists.last()@.len() > 0 {
        named(artists.drop_last()).push(artists.last()@)
    } else {
        named(artists.drop_last())
    }
}

/// The artist line of a track.
pub open spec fn artist_line(artists: Seq<String>) -> Seq<char> {
    joined_names(named(artists))
}

/// The artists of a track, the empty names left out, joined by " / ".
pub fn join_artists(artists: &Vec<String>) -> (r: String)
    ensures
        r@ == artist_line(artists@),
{
    let mut r: Vec<char> = Vec::new();
    let mut count: usize = 0;
    let mut k: usize = 0;
    while k < artists.len()
        invariant
            k <= artists@.len(),
            count == named(artists@.take(k as int)).len(),
            count <= k,
            r@ == joined_names(named(artists@.take(k as int))),
        decreases artists@.len() - k,
    {
        assert(artists@.take(k + 1).drop_last() =~= artists@.take(k as int));
        let name = chars_of(artists[k].as_str());
        if name.len() > 0 {
            let ghost before = named(artists@.take(k as int));
            assert(named(artists@.take(k + 1)) == before.push(name@));
            assert(before.push(name@).drop_last() =~= before);
            if count > 0 {
                let sep = vec![' ', '/', ' '];
                assert(sep@ =~= seq![' ', '/', ' ']);
                extend_chars(&mut r, sep.as_slice());
            } else {
                assert(r@ =~= Seq::<char>::empty());
            }
            extend_chars(&mut r, name.as_slice());
            assert(count == 0 ==> r@ =~= before.push(name@)[0]);
            count = count + 1;
        }
        k = k + 1;
    }
    assert(artists@.take(k as int) =~= artists@);
    string_from_chars(r.as_slice())
}

/// The lines that are not background vocals, in order.
pub open spec fn foreground(lines: Seq<LyricLine>) -> Seq<LyricLine>
    decreases lines.len(),
{
    if lines.len() == 0 {
        Seq::empty()
    } else if !lines.last().is_background {
        foreground(lines.drop_last()).push(lines.last())
    } else {
        foreground(lines.drop_last())
    }
}

/// A line is a candidate for display when it is not background vocals.
pub open spec fn is_main_line(line: LyricLine) -> bool {
    !line.is_background
}

/// The lines a frame chooses from are exactly the lyrics that are not
/// background vocals, in their order: no background line is ever a frame's
/// line or its outgoing line, and every other line is kept.
pub proof fn foreground_is_the_main_lines(lines: Seq<LyricLine>)
    ensures
        foreground(lines) == lines.filter(|l: LyricLine| is_main_line(l)),
        forall|i: int|
            0 <= i < foreground(lines).len() ==> !(#[trigger] foreground(lines)[i]).is_background,
        forall|i: int|
            0 <= i < lines.len() && !lines[i].is_background ==> foreground(lines).contains(
                #[trigger] lines[i],
            ),
    decreases lines.len(),
{
    let pred = |l: LyricLine| is_main_line(l);
    reveal_with_fuel(Seq::filter, 1);
    if lines.len() > 0 {
        foreground_is_the_main_lines(lines.drop_last());
        assert(lines.drop_last().filter(pred) == foreground(lines.drop_last()));
    }
    lines.filter_lemma(pred);
    assert forall|i: int|
        0 <= i < lines.len() && !lines[i].is_background implies foreground(lines).contains(
        #[trigger] lines[i],
    ) by {
        assert(pred(lines[i]));
        assert(lines.filter(pred).contains(lines[i]));
    }
}

/// The last of `lines` that has started at `position`.
pub open spec fn last_started(lines: Seq<LyricLine>, position: int) -> Option<int>
    decreases lines.len(),
{
    if lines.len() == 0 {
        None
    } else if lines.last().start_time <= position {
        Some(lines.len() - 1)
    } else {
        last_started(lines.drop_last(), position)
    }
}

/// How far a change that started at `start` has come at `position`, capped
/// at the lead.
pub open spec fn elapsed_since(start: int, position: int) -> int {
    if position - start > 320 {
        320
    } else {
        position - start
    }
}

/// Which foreground line is shown at `position` and which one, if any, is
/// moving out (with how far the change has come): while playing, a change
/// shows from its start up to the lead after it, either into the current
/// line or, ahead of time, into the next one.
pub open spec fn line_plan(lines: Seq<LyricLine>, position: int, playing: bool) -> Option<
    (int, Option<(int, int)>),
> {
    match last_started(lines, position) {
        None => None,
        Some(i) => {
            let into_current = if playing && i > 0 {
                let s = transition_start_of(lines[i - 1], lines[i]);
                if position >= s && position < s + 320 {
                    Some((i - 1, elapsed_since(s, position)))
                } else {
                    None
                }
            } else {
                None
            };
            if into_current is Some {
                Some((i, into_current))
            } else if playing && i + 1 < lines.len() {
                let s = transition_start_of(lines[i], lines[i + 1]);
                if position >= s {
                    Some((i + 1, Some((i, elapsed_since(s, position)))))
                } else {
                    Some((i, None))
                }
            } else {
                Some((i, None))
            }
        },
    }
}

/// What the engine knows of the player apart from the playback clock.
pub struct PlaybackState {
    pub track: Option<Track>,
    pub playing: bool,
}

/// What the caller has to do after `Engine::refresh`.
pub struct RefreshPlan {
    pub cover: CoverAction,
    pub fetch_lyrics: bool,
}

/// The engine: the current playback, the lyrics of the current track and
/// its cover.
pub struct Engine {
    pub playback: Option<PlaybackState>,
    pub lyrics_track_id: String,
    pub lyrics: Vec<LyricLine>,
    pub lyrics_word_synced: bool,
    pub lyrics_source: String,
    pub cover_cache: CoverCache,
    pub pending: Option<PlaybackState>,
}

/// The id of a playback's track ("" without one).
pub open spec fn track_id_of(track: Option<Track>) -> Seq<char> {
    match track {
        Some(t) => t.id@,
        None => Seq::empty(),
    }
}

/// The cover URL of a playback's track ("" without one).
pub open spec fn cover_of(track: Option<Track>) -> Seq<char> {
    match track {
        Some(t) => t.cover@,
        None => Seq::empty(),
    }
}

/// All lines can be split into timed graphemes.
pub open spec fn lines_fit(lines: Seq<LyricLine>) -> bool {
    forall|i: int| 0 <= i < lines.len() ==> line_fits(#[trigger] lines[i])
}

fn track_id(track: &Option<Track>) -> (r: String)
    ensures
        r@ == track_id_of(*track),
{
    match track {
        Some(t) => t.id.clone(),
        None => String::new(),
    }
}

fn track_cover(track: &Option<Track>) -> (r: String)
    ensures
        r@ == cover_of(*track),
{
    match track {
        Some(t) => t.cover.clone(),
        None => String::new(),
    }
}

/// An engine without a playback, as `clear_playback` leaves it, shows a
/// hidden frame.
pub proof fn no_playback_shows_nothing(
    r: Frame,
    e: Engine,
    cover_path: Seq<char>,
    position: int,
    max: int,
    alignment: Alignment,
    mode: SubtitleMode,
)
    requires
        e.playback is None,
        frame_shows(r, e, cover_path, position, max, alignment, mode),
    ensures
        !r.visible,
        r.line is None,
        r.transition is None,
{
}

/// What `Engine::refresh` does, from the engine `old` to the engine `new`,
/// with `r` its plan: the cover of the snapshot's track is asked for; the
/// lyrics are to be fetched when there is a track, the source has lyrics,
/// and the track or the number of lines changed; a changed track drops the
/// old lyrics; a track without lyrics is remembered as having none; the
/// playback is adopted unless lyrics are to be fetched first.
pub open spec fn refresh_post(
    old: Engine,
    new: Engine,
    snapshot: PlaybackState,
    lyric_available: bool,
    lyric_line_count: usize,
    r: RefreshPlan,
) -> bool {
    let next_id = track_id_of(snapshot.track);
    let track_changed = next_id != old.lyrics_track_id@;
    let lyrics_changed = lyric_available && lyric_line_count > 0 && lyric_line_count
        != old.lyrics@.len();
    let fetch = next_id.len() > 0 && lyric_available && (track_changed
        || lyrics_changed);
    &&& r.fetch_lyrics == fetch
    &&& new.cover_cache.requested_url@ == cover_of(snapshot.track)
    &&& if cover_of(snapshot.track) == old.cover_cache.requested_url@ {
        r.cover is Nothing
    } else {
        requests(old.cover_cache.directory, cover_of(snapshot.track), r.cover)
    }
    &&& new.cover_cache.directory == old.cover_cache.directory
    &&& if fetch {
        &&& new.pending == Some(snapshot)
        &&& new.playback == old.playback
        &&& if track_changed {
            &&& new.lyrics@.len() == 0
            &&& new.lyrics_track_id@ == Seq::<char>::empty()
            &&& !new.lyrics_word_synced
            &&& new.lyrics_source@ == Seq::<char>::empty()
        } else {
            &&& new.lyrics == old.lyrics
            &&& new.lyrics_track_id == old.lyrics_track_id
            &&& new.lyrics_word_synced == old.lyrics_word_synced
            &&& new.lyrics_source == old.lyrics_source
        }
    } else {
        &&& new.pending is None
        &&& new.playback == Some(snapshot)
        &&& if !lyric_available {
            &&& new.lyrics@.len() == 0
            &&& new.lyrics_track_id@ == next_id
            &&& !new.lyrics_word_synced
            &&& new.lyrics_source@ == Seq::<char>::empty()
        } else if track_changed {
            &&& new.lyrics@.len() == 0
            &&& new.lyrics_track_id@ == Seq::<char>::empty()
            &&& !new.lyrics_word_synced
            &&& new.lyrics_source@ == Seq::<char>::empty()
        } else {
            &&& new.lyrics == old.lyrics
            &&& new.lyrics_track_id == old.lyrics_track_id
            &&& new.lyrics_word_synced == old.lyrics_word_synced
            &&& new.lyrics_source == old.lyrics_source
        }
    }
}

/// A lyrics reply for another track than the snapshot's leaves the lyrics
/// as they were.
pub open spec fn reply_ignored(
    e1: Engine,
    e2: Engine,
    snapshot: PlaybackState,
    response: Result<LyricsSnapshot, String>,
) -> bool {
    response matches Ok(l) && l.track_id@ != track_id_of(snapshot.track) ==> e2.lyrics
        == e1.lyrics && e2.lyrics_track_id == e1.lyrics_track_id
}

/// A refresh, followed by the fetch of lyrics when it asks for one, adopts
/// the snapshot's playback, and leaves the engine with no lyrics or with
/// lyrics of the snapshot's track: none when the source has none, and
/// never those of a reply for another track.
pub proof fn refresh_then_finish(
    e0: Engine,
    e1: Engine,
    e2: Engine,
    snapshot: PlaybackState,
    lyric_available: bool,
    lyric_line_count: usize,
    plan: RefreshPlan,
    response: Result<LyricsSnapshot, String>,
    r: Result<(), String>,
)
    requires
        refresh_post(e0, e1, snapshot, lyric_available, lyric_line_count, plan),
        plan.fetch_lyrics ==> finish_post(e1, e2, response, r) && response is Ok,
        !plan.fetch_lyrics ==> e2 == e1,
    ensures
        e2.playback == Some(snapshot),
        e2.lyrics@.len() == 0 || e2.lyrics_track_id@ == track_id_of(snapshot.track),
        !lyric_available ==> e2.lyrics@.len() == 0 && e2.lyrics_track_id@ == track_id_of(
            snapshot.track,
        ),
        plan.fetch_lyrics == (track_id_of(snapshot.track).len() > 0 && lyric_available && (
        track_id_of(snapshot.track) != e0.lyrics_track_id@ || (lyric_line_count > 0
            && lyric_line_count != e0.lyrics@.len()))),
        plan.fetch_lyrics ==> reply_ignored(e1, e2, snapshot, response),
{
}

/// What `Engine::finish_refresh` does, from the engine `old` to the engine
/// `new`, with `r` its result: the pending playback is adopted with lyrics
/// that belong to its track, and lyrics of another track are ignored; a
/// failed fetch changes nothing but the pending playback, and hands the
/// error on.
pub open spec fn finish_post(
    old: Engine,
    new: Engine,
    response: Result<LyricsSnapshot, String>,
    r: Result<(), String>,
) -> bool {
    &&& new.pending is None
    &&& new.cover_cache == old.cover_cache
    &&& match response {
        Ok(l) => {
let pending = old.pending.unwrap();
&&& r is Ok
&&& new.playback == Some(pending)
&&& if l.track_id@ == track_id_of(pending.track) {
    &&& new.lyrics == l.lines
    &&& new.lyrics_track_id == l.track_id
    &&& new.lyrics_word_synced == l.word_synced
    &&& new.lyrics_source == l.source
} else {
    &&& new.lyrics == old.lyrics
    &&& new.lyrics_track_id == old.lyrics_track_id
    &&& new.lyrics_word_synced == old.lyrics_word_synced
    &&& new.lyrics_source == old.lyrics_source
}
        },
        Err(e) => {
&&& r == Err::<(), String>(e)
&&& new.playback == old.playback
&&& new.lyrics == old.lyrics
&&& new.lyrics_track_id == old.lyrics_track_id
&&& new.lyrics_word_synced == old.lyrics_word_synced
&&& new.lyrics_source == old.lyrics_source
        },
    }
}

impl Engine {
    /// An engine that knows of no playback yet.
    pub fn new(cover_dir: Option<String>) -> (r: Self)
        ensures
            r.playback is None,
            r.pending is None,
            r.lyrics@.len() == 0,
            r.lyrics_track_id@ == Seq::<char>::empty(),
            !r.lyrics_word_synced,
            r.lyrics_source@ == Seq::<char>::empty(),
            r.cover_cache.directory == cover_dir,
            r.cover_cache.requested_url@ == Seq::<char>::empty(),
            r.cover_cache.path@ == Seq::<char>::empty(),
    {
        Engine {
            playback: None,
            lyrics_track_id: String::new(),
            lyrics: Vec::new(),
            lyrics_word_synced: false,
            lyrics_source: String::new(),
            cover_cache: CoverCache::new(cover_dir),
            pending: None,
        }
    }

    /// Forgets the playback (the source has been failing); the cover goes too.
    pub fn clear_playback(&mut self, results: Vec<CoverResult>) -> (r: CoverAction)
        ensures
            final(self).playback is None,
            final(self).pending is None,
            final(self).lyrics == old(self).lyrics,
            final(self).lyrics_track_id == old(self).lyrics_track_id,
            final(self).lyrics_word_synced == old(self).lyrics_word_synced,
            final(self).lyrics_source == old(self).lyrics_source,
            final(self).cover_cache.directory == old(self).cover_cache.directory,
            final(self).cover_cache.requested_url@ == Seq::<char>::empty(),
            old(self).cover_cache.requested_url@ != Seq::<char>::empty()
                ==> final(self).cover_cache.path@ == Seq::<char>::empty(),
            r is Nothing,
    {
        self.playback = None;
        self.pending = None;
        let none = String::new();
        self.cover_cache.set_url(none.as_str(), results)
    }

    /// Replaces the cover cache (its directory changed) and asks it for the
    /// current track's cover.
    pub fn set_cover_cache(&mut self, directory: Option<String>) -> (r: CoverAction)
        ensures
            final(self).playback == old(self).playback,
            final(self).lyrics == old(self).lyrics,
            final(self).cover_cache.directory == directory,
            final(self).cover_cache.requested_url@ == match old(self).playback {
                Some(p) => cover_of(p.track),
                None => Seq::<char>::empty(),
            },
            requests(directory, final(self).cover_cache.requested_url@, r),
    {
        self.cover_cache = CoverCache::new(directory);
        let url = match &self.playback {
            Some(playback) => track_cover(&playback.track),
            None => String::new(),
        };
        self.cover_cache.set_url(url.as_str(), Vec::new())
    }

    /// Takes in what the source reports of the player. When the track
    /// changed, the old lyrics go; new lyrics are fetched when the track
    /// changed or the source has a different number of lines; without
    /// lyrics the track is remembered as having none. The playback is
    /// adopted now, or after the lyrics are fetched (`finish_refresh`).
    pub fn refresh(
        &mut self,
        snapshot: PlaybackState,
        lyric_available: bool,
        lyric_line_count: usize,
        results: Vec<CoverResult>,
    ) -> (r: RefreshPlan)
        ensures
            refresh_post(
                *old(self),
                *final(self),
                snapshot,
                lyric_available,
                lyric_line_count,
                r,
            ),
            lines_fit(old(self).lyrics@) ==> lines_fit(final(self).lyrics@),
    {
        let url = track_cover(&snapshot.track);
        let cover = self.cover_cache.set_url(url.as_str(), results);
        let next_track_id = track_id(&snapshot.track);
        let track_changed = next_track_id != self.lyrics_track_id;
        let lyrics_changed = lyric_available && lyric_line_count > 0 && lyric_line_count
            != self.lyrics.len();
        if track_changed {
            self.lyrics_track_id = String::new();
            self.lyrics = Vec::new();
            self.lyrics_word_synced = false;
            self.lyrics_source = String::new();
        }
        let fetch = !next_track_id.as_str().is_empty() && lyric_available && (track_changed
            || lyrics_changed);
        if fetch {
            self.pending = Some(snapshot);
        } else {
            if !lyric_available {
                self.lyrics_track_id = next_track_id;
                self.lyrics = Vec::new();
                self.lyrics_word_synced = false;
                self.lyrics_source = String::new();
            }
            self.pending = None;
            self.playback = Some(snapshot);
        }
        RefreshPlan { cover, fetch_lyrics: fetch }
    }

    /// Completes a refresh that fetched lyrics: lyrics of the pending
    /// track are adopted, and so is the pending playback. A failed fetch
    /// leaves the playback as it was and hands the error on.
    pub fn finish_refresh(&mut self, response: Result<LyricsSnapshot, String>) -> (r: Result<
        (),
        String,
    >)
        requires
            old(self).pending is Some,
            response matches Ok(l) ==> lines_fit(l.lines@),
        ensures
            finish_post(*old(self), *final(self), response, r),
            lines_fit(old(self).lyrics@) ==> lines_fit(final(self).lyrics@),
    {
        let pending = self.pending.take();
        let pending = pending.unwrap();
        match response {
            Ok(lyrics) => {
                let next_track_id = track_id(&pending.track);
                if lyrics.track_id == next_track_id {
                    self.lyrics_word_synced = lyrics.word_synced;
                    self.lyrics_track_id = lyrics.track_id;
                    self.lyrics = lyrics.lines;
                    self.lyrics_source = lyrics.source;
                }
                self.playback = Some(pending);
                Ok(())
            },
            Err(error) => Err(error),
        }
    }
}

/// The frame that an engine in state `e` shows at `position` with
/// `cover_path` as its cover.
pub open spec fn frame_shows(
    r: Frame,
    e: Engine,
    cover_path: Seq<char>,
    position: int,
    max: int,
    alignment: Alignment,
    mode: SubtitleMode,
) -> bool {
    match e.playback {
        None => is_hidden(r, alignment),
        Some(pb) => match pb.track {
            None => is_hidden(r, alignment),
            Some(track) => {
                let lines = foreground(e.lyrics@);
                let title = track.title@;
                let artist = artist_line(track.artists@);
                let source = e.lyrics_source@;
                let synced = e.lyrics_word_synced;
                let fallback = is_fallback(
                    r,
                    pb.playing,
                    title,
                    artist,
                    source,
                    cover_path,
                    max,
                    alignment,
                );
                match line_plan(lines, position, pb.playing) {
                    None => fallback,
                    Some((incoming, change)) => match display_line_spec(
                        lines[incoming],
                        title,
                        position,
                        synced,
                        max,
                        alignment,
                        mode,
                    ) {
                        None => fallback,
                        Some(shown) => {
                            &&& r.visible
                            &&& r.playing == pb.playing
                            &&& r.title@ == title
                            &&& r.artist@ == artist
                            &&& r.source@ == source
                            &&& r.cover_path@ == cover_path
                            &&& r.fallback_text@ == title_text(
                                title,
                                max,
                                alignment == Alignment::End,
                            )
                            &&& r.alignment == alignment
                            &&& r.line matches Some(d) && d.view() == shown
                            &&& match change {
                                None => r.transition is None,
                                Some((outgoing, elapsed)) => match display_line_spec(
                                    lines[outgoing],
                                    title,
                                    position,
                                    synced,
                                    max,
                                    alignment,
                                    mode,
                                ) {
                                    None => r.transition is None,
                                    Some(o) => r.transition matches Some(t) && t.outgoing.view()
                                        == o && t.elapsed_ms == elapsed,
                                },
                            }
                        },
                    },
                }
            },
        },
    }
}

/// The indices of the foreground lines.
fn foreground_indices(lines: &Vec<LyricLine>) -> (r: Vec<usize>)
    ensures
        r@.map_values(|i: usize| lines@[i as int]) == foreground(lines@),
        forall|j: int| 0 <= j < r@.len() ==> r@[j] < lines@.len(),
{
    let mut r: Vec<usize> = Vec::new();
    let mut k: usize = 0;
    while k < lines.len()
        invariant
            k <= lines@.len(),
            r@.map_values(|i: usize| lines@[i as int]) == foreground(lines@.take(k as int)),
            forall|j: int| 0 <= j < r@.len() ==> r@[j] < lines@.len(),
        decreases lines@.len() - k,
    {
        assert(lines@.take(k + 1).drop_last() =~= lines@.take(k as int));
        if !lines[k].is_background {
            let ghost r0 = r@;
            r.push(k);
            assert(r@.map_values(|i: usize| lines@[i as int]) =~= r0.map_values(
                |i: usize| lines@[i as int],
            ).push(lines@[k as int]));
        }
        k = k + 1;
    }
    assert(lines@.take(k as int) =~= lines@);
    r
}

impl Engine {
    fn line_at(&self, shown: &Vec<usize>, j: usize) -> (r: &LyricLine)
        requires
            j < shown@.len(),
            forall|i: int| 0 <= i < shown@.len() ==> shown@[i] < self.lyrics@.len(),
        ensures
            *r == self.lyrics@[shown@[j as int] as int],
    {
        &self.lyrics[shown[j]]
    }

    /// The frame to show at `position_ms` (the playback position with all
    /// offsets applied, which the caller's clock gives).
    #[verifier::rlimit(40)]
    #[verifier::spinoff_prover]
    pub fn frame(
        &mut self,
        position_ms: i64,
        max_chars: usize,
        alignment: Alignment,
        subtitle_mode: SubtitleMode,
        results: Vec<CoverResult>,
    ) -> (r: Frame)
        requires
            max_chars > 0,
            old(self).lyrics_word_synced ==> lines_fit(old(self).lyrics@),
        ensures
            final(self).playback == old(self).playback,
            final(self).lyrics == old(self).lyrics,
            final(self).lyrics_track_id == old(self).lyrics_track_id,
            final(self).lyrics_word_synced == old(self).lyrics_word_synced,
            final(self).lyrics_source == old(self).lyrics_source,
            final(self).pending == old(self).pending,
            final(self).cover_cache.directory == old(self).cover_cache.directory,
            final(self).cover_cache.requested_url@ == old(self).cover_cache.requested_url@,
            final(self).cover_cache.path@ == polled_path(
                old(self).cover_cache.requested_url@,
                old(self).cover_cache.path@,
                results@,
            ),
            frame_shows(
                r,
                *old(self),
                final(self).cover_cache.path@,
                position_ms as int,
                max_chars as int,
                alignment,
                subtitle_mode,
            ),
    {
        let cover_path = self.cover_cache.path(results);
        let ghost before = *self;
        let playback = match &self.playback {
            Some(playback) => playback,
            None => {
                return Frame::hidden(alignment);
            },
        };
        let track = match &playback.track {
            Some(track) => track,
            None => {
                return Frame::hidden(alignment);
            },
        };
        let artist = join_artists(&track.artists);
        let playing = playback.playing;
        let shown = foreground_indices(&self.lyrics);
        let ghost lines = foreground(self.lyrics@);
        assert(shown@.len() == lines.len());
        assert(forall|j: int|
            0 <= j < shown@.len() ==> #[trigger] lines[j] == self.lyrics@[shown@[j] as int]);
        let n = shown.len();
        let mut j: usize = n;
        let ghost p = position_ms as int;
        assert(lines.take(n as int) =~= lines);
        while j > 0 && self.line_at(&shown, j - 1).start_time > position_ms
            invariant
                j <= n,
                p == position_ms as int,
                n == shown@.len() == lines.len(),
                forall|i: int| 0 <= i < shown@.len() ==> shown@[i] < self.lyrics@.len(),
                forall|i: int|
                    0 <= i < shown@.len() ==> #[trigger] lines[i] == self.lyrics@[shown@[i] as int],
                last_started(lines, p) == last_started(lines.take(j as int), p),
            decreases j,
        {
            assert(lines.take(j as int).drop_last() =~= lines.take(j - 1));
            assert(lines.take(j as int).last() == lines[j - 1]);
            assert(lines[j - 1].start_time > p);
            j = j - 1;
        }
        if j == 0 {
            assert(lines.take(0) =~= Seq::<LyricLine>::empty());
            return Frame::fallback(
                playing,
                track,
                artist,
                self.lyrics_source.as_str(),
                cover_path.as_str(),
                max_chars,
                alignment,
            );
        }
        let line_index = j - 1;
        assert(last_started(lines, p) == Some(line_index as int));
        let mut incoming_index = line_index;
        let mut change: Option<(usize, i64)> = None;
        if playing && line_index > 0 {
            let start = transition_start(
                self.line_at(&shown, line_index - 1),
                self.line_at(&shown, line_index),
            );
            if position_ms as i128 >= start as i128 && (position_ms as i128) < start as i128
                + LINE_TRANSITION_MAX_LEAD_MS as i128 {
                let elapsed = position_ms as i128 - start as i128;
                let elapsed: i64 = if elapsed > 320 {
                    320
                } else {
                    elapsed as i64
                };
                change = Some((line_index - 1, elapsed));
            }
        }
        if playing && change.is_none() && line_index + 1 < n {
            let start = transition_start(
                self.line_at(&shown, line_index),
                self.line_at(&shown, line_index + 1),
            );
            if position_ms as i128 >= start as i128 {
                let elapsed = position_ms as i128 - start as i128;
                let elapsed: i64 = if elapsed > 320 {
                    320
                } else {
                    elapsed as i64
                };
                incoming_index = incoming_index + 1;
                change = Some((line_index, elapsed));
            }
        }
        assert(line_plan(lines, p, playing) == Some(
            (
                incoming_index as int,
                match change {
                    Some((o, e)) => Some((o as int, e as int)),
                    None => None,
                },
            ),
        ));
        let synced = self.lyrics_word_synced;
        let incoming = self.line_at(&shown, incoming_index);
        assert(synced ==> line_fits(*incoming));
        let line = match display_line(
            incoming,
            track.title.as_str(),
            position_ms,
            synced,
            max_chars,
            alignment,
            subtitle_mode,
        ) {
            Some(line) => line,
            None => {
                return Frame::fallback(
                    playing,
                    track,
                    artist,
                    self.lyrics_source.as_str(),
                    cover_path.as_str(),
                    max_chars,
                    alignment,
                );
            },
        };
        let transition = match change {
            Some((outgoing_index, elapsed_ms)) => {
                let outgoing_line = self.line_at(&shown, outgoing_index);
                assert(synced ==> line_fits(*outgoing_line));
                match display_line(
                    outgoing_line,
                    track.title.as_str(),
                    position_ms,
                    synced,
                    max_chars,
                    alignment,
                    subtitle_mode,
                ) {
                    Some(outgoing) => Some(LineTransition { outgoing, elapsed_ms }),
                    None => None,
                }
            },
            None => None,
        };
        Frame {
            visible: true,
            playing,
            title: track.title.clone(),
            artist,
            source: self.lyrics_source.clone(),
            cover_path,
            fallback_text: truncate_title(track.title.as_str(), max_chars, alignment.is_end()),
            alignment,
            line: Some(line),
            transition,
        }
    }
}

} // verus!
