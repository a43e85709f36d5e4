//! The SPlayer source: its API's replies, its WebSocket endpoint and the
//! decisions around the update stream and the control requests.
use vstd::prelude::*;

use crate::cover::{ascii_lower, to_ascii_lowercase};
use crate::engine::PlaybackState;
use crate::json::{field, field_is, is_text, member, member_count, Json};
use crate::model::{LyricLine, LyricWord, LyricsSnapshot, Track};
use crate::options::{parse_uri, parsed_uri, uri_view, Control, UriParts};
use crate::text::{
    chars_eq, chars_of, concat2, concat_all, concat3, extend_chars, string_from_chars, strip_prefix, stripped,
    text_is, trim, trim_end_char, trim_end_of, trimmed,
};

verus! {

pub open spec fn endpoint_scheme_message() -> Seq<char> {
    "SPlayer endpoint must start with http:// or https://"@
}

/// The WebSocket URL of an SPlayer API endpoint: `http://` becomes `ws://`,
/// `https://` becomes `wss://`, and `/ws` is appended to the endpoint
/// without its trailing slashes.
pub open spec fn websocket_url_of(base: Seq<char>) -> Result<Seq<char>, Seq<char>> {
    let b = trim_end_of(base, '/');
    match stripped(b, "http://"@) {
        Some(rest) => Ok("ws://"@ + rest + "/ws"@),
        None => match stripped(b, "https://"@) {
            Some(rest) => Ok("wss://"@ + rest + "/ws"@),
            None => Err(endpoint_scheme_message()),
        },
    }
}

fn framed(head: &str, rest: &[char], tail: &str) -> (r: String)
    ensures
        r@ == head@ + rest@ + tail@,
{
    let mut v = chars_of(head);
    extend_chars(&mut v, rest);
    let t = chars_of(tail);
    extend_chars(&mut v, t.as_slice());
    string_from_chars(v.as_slice())
}

/// The WebSocket URL of the SPlayer API at `base_url`.
pub fn websocket_url(base_url: &str) -> (r: Result<String, String>)
    ensures
        match (r, websocket_url_of(base_url@)) {
            (Ok(url), Ok(expected)) => url@ == expected,
            (Err(error), Err(expected)) => error@ == expected,
            _ => false,
        },
{
    let chars = chars_of(base_url);
    let base = trim_end_char(chars.as_slice(), '/');
    let http = chars_of("http://");
    if let Some(rest) = strip_prefix(base.as_slice(), http.as_slice()) {
        return Ok(framed("ws://", rest.as_slice(), "/ws"));
    }
    let https = chars_of("https://");
    if let Some(rest) = strip_prefix(base.as_slice(), https.as_slice()) {
        return Ok(framed("wss://", rest.as_slice(), "/ws"));
    }
    Err("SPlayer endpoint must start with http:// or https://".to_owned())
}

/// The message for a WebSocket at `url` that cannot be used.
pub open spec fn websocket_error_of(url: Seq<char>, error: Seq<char>) -> Seq<char> {
    "SPlayer WebSocket unavailable at "@ + url
        + "; enable WebSocket in SPlayer external API settings: "@ + error
}

/// Explains that the WebSocket at `url` cannot be used, and why.
pub fn websocket_error(url: &str, error: &str) -> (r: String)
    ensures
        r@ == websocket_error_of(url@, error@),
{
    let head = concat3(
        "SPlayer WebSocket unavailable at ",
        url,
        "; enable WebSocket in SPlayer external API settings: ",
    );
    concat2(head.as_str(), error)
}

/// Where a track's lyrics come from, as SPlayer reports it.
pub struct LyricSource {
    pub source: String,
    pub platform: String,
    pub format: String,
}

/// The label of a lyric source: the platform, else the format, else the
/// source name, after "SPlayer · "; "SPlayer" when all are empty.
pub open spec fn label_of(s: LyricSource) -> Seq<char> {
    if s.platform@.len() > 0 {
        "SPlayer · "@ + s.platform@
    } else if s.format@.len() > 0 {
        "SPlayer · "@ + s.format@
    } else if s.source@.len() > 0 {
        "SPlayer · "@ + s.source@
    } else {
        "SPlayer"@
    }
}

impl LyricSource {
    /// The label shown for lyrics from this source.
    pub fn label(&self) -> (r: String)
        ensures
            r@ == label_of(*self),
    {
        if !self.platform.as_str().is_empty() {
            concat2("SPlayer · ", self.platform.as_str())
        } else if !self.format.as_str().is_empty() {
            concat2("SPlayer · ", self.format.as_str())
        } else if !self.source.as_str().is_empty() {
            concat2("SPlayer · ", self.source.as_str())
        } else {
            "SPlayer".to_owned()
        }
    }
}

/// One word of a lyric line as the API sends it.
pub struct LyricWordResponse {
    pub word: String,
    pub roman_word: String,
    pub start_time: i64,
    pub end_time: i64,
}

/// One lyric line as the API sends it.
pub struct LyricLineResponse {
    pub words: Vec<LyricWordResponse>,
    pub text: String,
    pub translated_lyric: String,
    pub roman_lyric: String,
    pub start_time: i64,
    pub end_time: i64,
    pub is_background: bool,
}

/// The reply to `/api/lyrics`.
pub struct LyricsResponse {
    pub track_id: String,
    pub lyric: Vec<LyricLineResponse>,
    pub source: Option<LyricSource>,
}

/// An artist of a track as the API sends it.
pub struct ArtistResponse {
    pub name: String,
}

/// A track as the API sends it.
pub struct TrackResponse {
    pub id: String,
    pub title: String,
    pub artists: Vec<ArtistResponse>,
    pub cover: String,
}

/// `s` in ASCII lower case (`str::to_ascii_lowercase`).
pub open spec fn lowered(s: Seq<char>) -> Seq<char> {
    s.map_values(|c: char| ascii_lower(c))
}

/// A lyric format that times every word.
pub open spec fn is_timed_format(format: Seq<char>) -> bool {
    let f = lowered(format);
    f == "qrc"@ || f == "yrc"@ || f == "ttml"@
}

/// Two neighbouring words of the line differ in their timing.
pub open spec fn has_word_timing(words: Seq<LyricWordResponse>) -> bool {
    exists|k: int|
        0 <= k && k + 1 < words.len() && (#[trigger] words[k].start_time != words[k
            + 1].start_time || words[k].end_time != words[k + 1].end_time)
}

/// The reply's lyrics are synced word by word: their format times words, or
/// some line has neighbouring words with different timings.
pub open spec fn word_synced(r: LyricsResponse) -> bool {
    ||| (r.source matches Some(s) && is_timed_format(s.format@))
    ||| exists|i: int| 0 <= i < r.lyric@.len() && has_word_timing(#[trigger] r.lyric@[i].words@)
}

fn lowercase(s: &str) -> (r: Vec<char>)
    ensures
        r@ == lowered(s@),
{
    let chars = chars_of(s);
    let mut r: Vec<char> = Vec::new();
    let mut k: usize = 0;
    while k < chars.len()
        invariant
            k <= chars@.len(),
            chars@ == s@,
            r@ == lowered(chars@.take(k as int)),
        decreases chars@.len() - k,
    {
        r.push(to_ascii_lowercase(chars[k]));
        assert(lowered(chars@.take(k + 1)) =~= lowered(chars@.take(k as int)).push(
            ascii_lower(chars@[k as int]),
        ));
        k = k + 1;
    }
    assert(chars@.take(k as int) =~= chars@);
    r
}

fn words_timed(words: &Vec<LyricWordResponse>) -> (r: bool)
    ensures
        r == has_word_timing(words@),
{
    let mut k: usize = 0;
    while k < words.len() && k + 1 < words.len()
        invariant
            k <= words@.len(),
            forall|j: int|
                0 <= j < k && j + 1 < words@.len() ==> !(#[trigger] words@[j].start_time
                    != words@[j + 1].start_time || words@[j].end_time != words@[j
                    + 1].end_time),
        decreases words@.len() - k,
    {
        if words[k].start_time != words[k + 1].start_time || words[k].end_time != words[k
            + 1].end_time {
            return true;
        }
        k = k + 1;
    }
    proof {
        if has_word_timing(words@) {
            let j = choose|j: int|
                0 <= j && j + 1 < words@.len() && (#[trigger] words@[j].start_time != words@[j
                    + 1].start_time || words@[j].end_time != words@[j + 1].end_time);
            assert(j < k);
        }
    }
    false
}

impl LyricsResponse {
    /// Whether these lyrics are synced word by word.
    pub fn supports_word_sync(&self) -> (r: bool)
        ensures
            r == word_synced(*self),
    {
        let timed_format = match &self.source {
            Some(source) => {
                let f = lowercase(source.format.as_str());
                let qrc = chars_of("qrc");
                let yrc = chars_of("yrc");
                let ttml = chars_of("ttml");
                chars_eq(f.as_slice(), qrc.as_slice()) || chars_eq(f.as_slice(), yrc.as_slice())
                    || chars_eq(f.as_slice(), ttml.as_slice())
            },
            None => false,
        };
        if timed_format {
            return true;
        }
        let mut i: usize = 0;
        while i < self.lyric.len()
            invariant
                i <= self.lyric@.len(),
                forall|l: int| 0 <= l < i ==> !has_word_timing(#[trigger] self.lyric@[l].words@),
            decreases self.lyric@.len() - i,
        {
            if words_timed(&self.lyric[i].words) {
                return true;
            }
            i = i + 1;
        }
        false
    }
}

/// The artists' names of a track.
pub open spec fn artist_names(artists: Seq<ArtistResponse>) -> Seq<Seq<char>> {
    artists.map_values(|a: ArtistResponse| a.name@)
}

/// The texts of a sequence of strings.
pub open spec fn string_views(strings: Seq<String>) -> Seq<Seq<char>> {
    strings.map_values(|s: String| s@)
}

/// The romanized words of a line, run together.
pub open spec fn roman_words(words: Seq<LyricWordResponse>) -> Seq<char> {
    words.map_values(|w: LyricWordResponse| w.roman_word@).flatten()
}

/// A line's romanization: its own, unless that is blank; then its words'.
pub open spec fn romanization_of(line: LyricLineResponse) -> Seq<char> {
    if trimmed(line.roman_lyric@).len() == 0 {
        roman_words(line.words@)
    } else {
        line.roman_lyric@
    }
}

/// A model word carries the text and timing of the reply's word.
pub open spec fn word_matches(w: LyricWord, response: LyricWordResponse) -> bool {
    &&& w.word@ == response.word@
    &&& w.start_time == response.start_time
    &&& w.end_time == response.end_time
}

/// A model line carries what the reply's line says.
pub open spec fn line_matches(l: LyricLine, response: LyricLineResponse) -> bool {
    &&& l.words@.len() == response.words@.len()
    &&& forall|i: int|
        0 <= i < l.words@.len() ==> word_matches(#[trigger] l.words@[i], response.words@[i])
    &&& l.text@ == response.text@
    &&& l.translation@ == response.translated_lyric@
    &&& l.romanization@ == romanization_of(response)
    &&& l.start_time == response.start_time
    &&& l.end_time == response.end_time
    &&& l.is_background == response.is_background
}

impl LyricWordResponse {
    /// The model word for this reply word.
    pub fn to_word(&self) -> (r: LyricWord)
        ensures
            word_matches(r, *self),
    {
        LyricWord { word: self.word.clone(), start_time: self.start_time, end_time: self.end_time }
    }
}

spec fn char_views(parts: Seq<Vec<char>>) -> Seq<Seq<char>> {
    parts.map_values(|p: Vec<char>| p@)
}

spec fn roman_parts(words: Seq<LyricWordResponse>) -> Seq<Seq<char>> {
    words.map_values(|w: LyricWordResponse| w.roman_word@)
}

fn roman_of_words(words: &Vec<LyricWordResponse>) -> (r: Vec<char>)
    ensures
        r@ == roman_words(words@),
{
    let mut parts: Vec<Vec<char>> = Vec::new();
    let mut k: usize = 0;
    while k < words.len()
        invariant
            k <= words@.len(),
            parts@.len() == k,
            char_views(parts@) =~= roman_parts(words@.take(k as int)),
        decreases words@.len() - k,
    {
        let part = chars_of(words[k].roman_word.as_str());
        let ghost before = parts@;
        parts.push(part);
        assert forall|i: int| 0 <= i < k + 1 implies #[trigger] char_views(parts@)[i]
            == roman_parts(words@.take(k + 1))[i] by {
            if i < k {
                assert(parts@[i] == before[i]);
                assert(char_views(before)[i] == roman_parts(words@.take(k as int))[i]);
            }
        }
        assert(char_views(parts@) =~= roman_parts(words@.take(k + 1)));
        k = k + 1;
    }
    assert(words@.take(k as int) =~= words@);
    concat_all(&parts)
}

impl LyricLineResponse {
    /// The model line for this reply line; a blank romanization is made of
    /// the words' romanizations.
    pub fn to_line(&self) -> (r: LyricLine)
        ensures
            line_matches(r, *self),
    {
        let roman = chars_of(self.roman_lyric.as_str());
        let romanization = if trim(roman.as_slice()).len() == 0 {
            let joined = roman_of_words(&self.words);
            string_from_chars(joined.as_slice())
        } else {
            self.roman_lyric.clone()
        };
        let mut words: Vec<LyricWord> = Vec::new();
        let mut k: usize = 0;
        while k < self.words.len()
            invariant
                k <= self.words@.len(),
                words@.len() == k,
                forall|i: int|
                    0 <= i < k ==> word_matches(#[trigger] words@[i], self.words@[i]),
            decreases self.words@.len() - k,
        {
            words.push(self.words[k].to_word());
            k = k + 1;
        }
        LyricLine {
            words,
            text: self.text.clone(),
            translation: self.translated_lyric.clone(),
            romanization,
            start_time: self.start_time,
            end_time: self.end_time,
            is_background: self.is_background,
        }
    }
}

impl TrackResponse {
    /// The model track for this reply track.
    pub fn to_track(&self) -> (r: Track)
        ensures
            r.id@ == self.id@,
            r.title@ == self.title@,
            string_views(r.artists@) == artist_names(self.artists@),
            r.cover@ == self.cover@,
    {
        let mut artists: Vec<String> = Vec::new();
        let mut k: usize = 0;
        while k < self.artists.len()
            invariant
                k <= self.artists@.len(),
                artists@.len() == k,
                string_views(artists@) =~= artist_names(self.artists@.take(k as int)),
            decreases self.artists@.len() - k,
        {
            let ghost before = artists@;
            artists.push(self.artists[k].name.clone());
            assert forall|i: int| 0 <= i < k + 1 implies #[trigger] string_views(artists@)[i]
                == artist_names(self.artists@.take(k + 1))[i] by {
                if i < k {
                    assert(artists@[i] == before[i]);
                    assert(string_views(before)[i] == artist_names(self.artists@.take(k as int))[i]);
                }
            }
            assert(string_views(artists@) =~= artist_names(self.artists@.take(k + 1)));
            k = k + 1;
        }
        assert(self.artists@.take(k as int) =~= self.artists@);
        Track {
            id: self.id.clone(),
            title: self.title.clone(),
            artists,
            cover: self.cover.clone(),
        }
    }
}

/// The label of a reply's lyric source ("SPlayer" without one).
pub open spec fn source_label(source: Option<LyricSource>) -> Seq<char> {
    match source {
        Some(s) => label_of(s),
        None => "SPlayer"@,
    }
}

impl LyricsResponse {
    /// The lyrics this reply carries, labelled by their source.
    pub fn to_snapshot(&self) -> (r: LyricsSnapshot)
        ensures
            r.track_id@ == self.track_id@,
            r.lines@.len() == self.lyric@.len(),
            forall|i: int| 0 <= i < r.lines@.len() ==> line_matches(#[trigger] r.lines@[i], self.lyric@[i]),
            r.word_synced == word_synced(*self),
            r.source@ == source_label(self.source),
    {
        let source = match &self.source {
            Some(s) => s.label(),
            None => "SPlayer".to_owned(),
        };
        let word_synced = self.supports_word_sync();
        let mut lines: Vec<LyricLine> = Vec::new();
        let mut k: usize = 0;
        while k < self.lyric.len()
            invariant
                k <= self.lyric@.len(),
                lines@.len() == k,
                forall|i: int| 0 <= i < k ==> line_matches(#[trigger] lines@[i], self.lyric@[i]),
            decreases self.lyric@.len() - k,
        {
            lines.push(self.lyric[k].to_line());
            k = k + 1;
        }
        LyricsSnapshot { track_id: self.track_id.clone(), lines, word_synced, source }
    }
}

/// The reply to `/api/now-playing`, without the playback speed.
pub struct NowPlaying {
    pub track: Option<TrackResponse>,
    pub position: i64,
    pub playing: bool,
    pub state: String,
    pub lyric_offset_ms: i64,
    pub lyric_available: bool,
    pub lyric_line_count: usize,
    pub send_timestamp: i64,
}

/// How long ago a reply was sent, in milliseconds, kept within 0..=5000.
pub open spec fn clock_age_of(now_ms: int, sent_ms: int) -> int {
    let age = now_ms - sent_ms;
    if age < 0 {
        0
    } else if age > 5000 {
        5000
    } else {
        age
    }
}

/// The player plays: it says so, and its state is "playing".
pub open spec fn is_playing(r: NowPlaying) -> bool {
    r.playing && r.state@ == "playing"@
}

impl NowPlaying {
    /// How long before `now_ms` this reply was sent (0 to 5000 ms).
    pub fn clock_age(&self, now_ms: i64) -> (r: i64)
        ensures
            r == clock_age_of(now_ms as int, self.send_timestamp as int),
    {
        let age: i128 = now_ms as i128 - self.send_timestamp as i128;
        if age < 0 {
            0
        } else if age > 5000 {
            5000
        } else {
            age as i64
        }
    }

    /// Whether the player is playing.
    pub fn is_playing(&self) -> (r: bool)
        ensures
            r == is_playing(*self),
    {
        self.playing && text_is(self.state.as_str(), "playing")
    }

    /// The playback the engine takes in: the track and whether it plays.
    pub fn playback(&self) -> (r: PlaybackState)
        ensures
            r.playing == is_playing(*self),
            r.track is Some <==> self.track is Some,
            r.track matches Some(t) ==> {
                let sent = self.track->Some_0;
                &&& t.id@ == sent.id@
                &&& t.title@ == sent.title@
                &&& string_views(t.artists@) == artist_names(sent.artists@)
                &&& t.cover@ == sent.cover@
            },
    {
        let track = match &self.track {
            Some(t) => Some(t.to_track()),
            None => None,
        };
        PlaybackState { track, playing: self.is_playing() }
    }
}

#[verifier::external_type_specification]
#[verifier::external_body]
pub struct ExSystemTime(std::time::SystemTime);

/// `SystemTime::now`: the system clock's current time. Nothing is promised of it.
#[verifier::external_body]
fn system_now() -> std::time::SystemTime {
    std::time::SystemTime::now()
}

/// `SystemTime::duration_since(UNIX_EPOCH)`; a time before the epoch (an
/// error) is `None`. Nothing is promised of the duration.
#[verifier::external_body]
fn since_epoch(time: &std::time::SystemTime) -> Option<core::time::Duration> {
    time.duration_since(std::time::UNIX_EPOCH).ok()
}

/// `Duration::as_millis`: the whole milliseconds of a duration. Nothing is
/// promised of a duration the library cannot look into.
#[verifier::external_body]
fn whole_millis(duration: &core::time::Duration) -> u128 {
    duration.as_millis()
}

/// Milliseconds since the epoch as an `i64`: 0 for a clock set before the
/// epoch (`None`), `i64::MAX` past what an `i64` holds.
pub open spec fn epoch_millis_of(since: Option<u128>) -> i64 {
    match since {
        None => 0,
        Some(m) => if m > i64::MAX as u128 {
            i64::MAX
        } else {
            m as i64
        },
    }
}

/// Turns the clock's milliseconds since the epoch (`None` for a clock set
/// before it) into an `i64`.
pub fn epoch_millis(since: Option<u128>) -> (r: i64)
    ensures
        r == epoch_millis_of(since),
        r >= 0,
{
    match since {
        None => 0,
        Some(millis) => if millis > 9223372036854775807u128 {
            i64::MAX
        } else {
            millis as i64
        },
    }
}

/// Milliseconds since the Unix epoch by the system clock: 0 for a clock set
/// before the epoch, `i64::MAX` past what an `i64` holds. The clock's value
/// is not known to the library; what follows from it is `epoch_millis`.
pub fn unix_millis() -> (r: i64)
    ensures
        r >= 0,
{
    let now = system_now();
    let since = match since_epoch(&now) {
        Some(duration) => Some(whole_millis(&duration)),
        None => None,
    };
    epoch_millis(since)
}

/// A WebSocket message announces a change when it reads as an envelope
/// whose `kind` is "event". An envelope is an object with exactly one member
/// `kind`, a string, beside any others; or an array of one string, the
/// `kind` given by position.
pub open spec fn is_update_of(message: Json) -> bool {
    match message {
        Json::Object(fields) => member_count(fields@, "kind"@) == 1 && is_text(
            member(fields@, "kind"@),
            "event"@,
        ),
        Json::Array(items) => items@.len() == 1 && is_text(Some(items@[0]), "event"@),
        _ => false,
    }
}

/// Whether a WebSocket message announces a change.
pub fn is_update(message: &Json) -> (r: bool)
    ensures
        r == is_update_of(*message),
{
    match message {
        Json::Object(fields) => {
            let mut count: usize = 0;
            let mut first_is_event = false;
            let mut i: usize = 0;
            assert(fields@.skip(0) =~= fields@);
            while i < fields.len()
                invariant
                    i <= fields@.len(),
                    count <= i,
                    count + member_count(fields@.skip(i as int), "kind"@) == member_count(
                        fields@,
                        "kind"@,
                    ),
                    count == 0 ==> member(fields@, "kind"@) == member(
                        fields@.skip(i as int),
                        "kind"@,
                    ),
                    count > 0 ==> first_is_event == is_text(member(fields@, "kind"@), "event"@),
                decreases fields@.len() - i,
            {
                assert(fields@.skip(i as int).drop_first() =~= fields@.skip(i + 1));
                assert(fields@.skip(i as int)[0] == fields@[i as int]);
                if text_is(fields[i].0.as_str(), "kind") {
                    if count == 0 {
                        first_is_event = fields[i].1.is_str("event");
                    }
                    count = count + 1;
                }
                i = i + 1;
            }
            count == 1 && first_is_event
        },
        Json::Array(items) => items.len() == 1 && items[0].is_str("event"),
        _ => false,
    }
}

/// What the WebSocket watcher reports.
pub enum UpdateEvent {
    Connected,
    Changed,
    Disconnected(String),
}

/// The watcher's state as `take` sees it: connected, the last error, and
/// whether anything changed.
pub open spec fn watch_step(s: (bool, Seq<char>, bool), e: UpdateEvent) -> (bool, Seq<char>, bool) {
    match e {
        UpdateEvent::Connected => (true, Seq::empty(), true),
        UpdateEvent::Changed => (s.0, s.1, true),
        UpdateEvent::Disconnected(error) => (false, error@, s.2),
    }
}

/// The state after the events, in order.
pub open spec fn watch_fold(s: (bool, Seq<char>, bool), events: Seq<UpdateEvent>) -> (
    bool,
    Seq<char>,
    bool,
)
    decreases events.len(),
{
    if events.len() == 0 {
        s
    } else {
        watch_step(watch_fold(s, events.drop_last()), events.last())
    }
}

pub open spec fn waiting_message() -> Seq<char> {
    "waiting for SPlayer WebSocket; enable WebSocket in SPlayer external API settings"@
}

pub open spec fn stopped_message() -> Seq<char> {
    "watcher stopped unexpectedly"@
}

pub open spec fn disconnected_message(error: Seq<char>) -> Seq<char> {
    "SPlayer WebSocket disconnected: "@ + error
}

/// What a source knows of its WebSocket watcher.
pub struct WatchState {
    pub connected: bool,
    pub last_error: String,
}

impl WatchState {
    /// A watcher that has not connected yet.
    pub fn new() -> (r: Self)
        ensures
            !r.connected,
            r.last_error@ == waiting_message(),
    {
        WatchState {
            connected: false,
            last_error:
                "waiting for SPlayer WebSocket; enable WebSocket in SPlayer external API settings".to_owned(),
        }
    }

    /// Takes in the watcher's events, in order, and whether the watcher has
    /// stopped. While connected, tells whether anything changed; otherwise
    /// fails with the last error.
    pub fn take(&mut self, events: &Vec<UpdateEvent>, stopped: bool) -> (r: Result<bool, String>)
        ensures
            ({
                let f = watch_fold((old(self).connected, old(self).last_error@, false), events@);
                let connected = f.0 && !stopped;
                let error = if stopped {
                    stopped_message()
                } else {
                    f.1
                };
                &&& final(self).connected == connected
                &&& final(self).last_error@ == error
                &&& match r {
                    Ok(changed) => connected && changed == f.2,
                    Err(message) => !connected && message@ == disconnected_message(error),
                }
            }),
    {
        let ghost start = (self.connected, self.last_error@, false);
        let mut changed = false;
        let mut k: usize = 0;
        assert(events@.take(0) =~= Seq::<UpdateEvent>::empty());
        while k < events.len()
            invariant
                k <= events@.len(),
                watch_fold(start, events@.take(k as int)) == (
                    self.connected,
                    self.last_error@,
                    changed,
                ),
            decreases events@.len() - k,
        {
            assert(events@.take(k + 1).drop_last() =~= events@.take(k as int));
            match &events[k] {
                UpdateEvent::Connected => {
                    self.connected = true;
                    self.last_error = String::new();
                    changed = true;
                },
                UpdateEvent::Changed => {
                    changed = true;
                },
                UpdateEvent::Disconnected(error) => {
                    self.connected = false;
                    self.last_error = error.clone();
                },
            }
            k = k + 1;
        }
        assert(events@.take(k as int) =~= events@);
        if stopped {
            self.connected = false;
            self.last_error = "watcher stopped unexpectedly".to_owned();
        }
        if self.connected {
            Ok(changed)
        } else {
            Err(concat2("SPlayer WebSocket disconnected: ", self.last_error.as_str()))
        }
    }
}

/// Connection attempts in a row before the watcher waits for a reason to retry.
pub const WS_CONNECT_ATTEMPTS: usize = 5;

/// What the watcher does once a connection has ended.
#[derive(PartialEq, Eq, Structural, Debug, Clone, Copy)]
pub enum AfterDisconnect {
    /// Pause for a moment, drop the pending requests to reconnect, and retry.
    Retry,
    /// Wait for a request to reconnect.
    AwaitRequest,
}

/// The attempts left after one more failure.
pub open spec fn attempts_after_failure(attempts: int) -> int {
    if attempts > 0 {
        attempts - 1
    } else {
        0
    }
}

/// The attempts left after `failures` failures in a row.
pub open spec fn attempts_after_failures(attempts: int, failures: nat) -> int
    decreases failures,
{
    if failures == 0 {
        attempts
    } else {
        attempts_after_failure(attempts_after_failures(attempts, (failures - 1) as nat))
    }
}

/// What the watcher does with `attempts` left once a connection ended.
pub open spec fn after_disconnect_of(attempts: int) -> AfterDisconnect {
    if attempts == 0 {
        AfterDisconnect::AwaitRequest
    } else {
        AfterDisconnect::Retry
    }
}

/// From a fresh start, the watcher retries after each of the first four
/// failures in a row and waits for a request to reconnect after the fifth.
pub proof fn fifth_failure_waits(failures: nat)
    requires
        1 <= failures <= WS_CONNECT_ATTEMPTS,
    ensures
        after_disconnect_of(attempts_after_failures(WS_CONNECT_ATTEMPTS as int, failures)) == if failures
            == WS_CONNECT_ATTEMPTS {
            AfterDisconnect::AwaitRequest
        } else {
            AfterDisconnect::Retry
        },
{
    reveal_with_fuel(attempts_after_failures, 6);
    assert(attempts_after_failures(5, 0) == 5);
    assert(attempts_after_failures(5, 1) == 4);
    assert(attempts_after_failures(5, 2) == 3);
    assert(attempts_after_failures(5, 3) == 2);
    assert(attempts_after_failures(5, 4) == 1);
    assert(attempts_after_failures(5, 5) == 0);
}

/// A watcher whose last event is a connection is connected and reports a
/// change; one whose last event is a disconnection is not connected and
/// keeps that event's error.
pub proof fn last_event_decides(s: (bool, Seq<char>, bool), events: Seq<UpdateEvent>)
    requires
        events.len() > 0,
    ensures
        events.last() is Connected ==> watch_fold(s, events).0 && watch_fold(s, events).2,
        events.last() matches UpdateEvent::Disconnected(e) ==> !watch_fold(s, events).0
            && watch_fold(s, events).1 == e@,
{
}

/// An endpoint has a WebSocket URL exactly when, without its trailing
/// slashes, it starts with `http://` or `https://`; the URL then ends in `/ws`.
pub proof fn websocket_url_for_http_only(base: Seq<char>)
    ensures
        websocket_url_of(base) is Ok <==> ("http://"@.is_prefix_of(trim_end_of(base, '/'))
            || "https://"@.is_prefix_of(trim_end_of(base, '/'))),
        websocket_url_of(base) matches Ok(url) ==> "/ws"@.is_suffix_of(url),
{
    reveal_strlit("/ws");
    if websocket_url_of(base) is Ok {
        let url = websocket_url_of(base)->Ok_0;
        assert(url.subrange(url.len() - 3, url.len() as int) =~= "/ws"@);
    }
}

/// The watcher's count of connection attempts left.
pub struct Reconnect {
    pub attempts: usize,
}

impl Reconnect {
    /// A watcher with all its attempts left.
    pub fn new() -> (r: Self)
        ensures
            r.attempts == WS_CONNECT_ATTEMPTS,
    {
        Reconnect { attempts: WS_CONNECT_ATTEMPTS }
    }

    /// A connection was made: all attempts are left again.
    pub fn connected(&mut self)
        ensures
            final(self).attempts == WS_CONNECT_ATTEMPTS,
    {
        self.attempts = WS_CONNECT_ATTEMPTS;
    }

    /// A connection attempt failed: one attempt fewer.
    pub fn failed(&mut self)
        ensures
            final(self).attempts == attempts_after_failure(old(self).attempts as int),
    {
        if self.attempts > 0 {
            self.attempts = self.attempts - 1;
        }
    }

    /// What to do once the connection ended; a request that arrives while
    /// waiting grants all attempts again (`connected`).
    pub fn after_disconnect(&self) -> (r: AfterDisconnect)
        ensures
            r == after_disconnect_of(self.attempts as int),
    {
        if self.attempts == 0 {
            AfterDisconnect::AwaitRequest
        } else {
            AfterDisconnect::Retry
        }
    }
}

/// One thing that happens to the WebSocket watcher.
pub enum WatchStep {
    /// A connection attempt failed, for this reason.
    ConnectFailed(String),
    /// A connection was made.
    Connected,
    /// A message arrived; whether it announces a change.
    Message(bool),
    /// The connection ended, for this reason.
    Ended(String),
    /// A request to reconnect arrived while the watcher waited for one.
    Requested,
    /// The source that owns the watcher went away.
    Stopped,
}

/// The watcher's state (attempts left, connected, stopped) after a step,
/// and the event it reports: a connection resets the attempts and is
/// reported; a failed attempt uses one up; a change is reported only while
/// connected; every failure and every end of a connection reports a
/// disconnection; a request grants all attempts again; once stopped, the
/// watcher reports nothing more.
pub open spec fn watcher_step(s: (int, bool, bool), step: WatchStep) -> (
    (int, bool, bool),
    Option<UpdateEvent>,
) {
    if s.2 {
        (s, None)
    } else {
        match step {
            WatchStep::ConnectFailed(reason) => (
                (attempts_after_failure(s.0), false, false),
                Some(UpdateEvent::Disconnected(reason)),
            ),
            WatchStep::Connected => (
                (WS_CONNECT_ATTEMPTS as int, true, false),
                Some(UpdateEvent::Connected),
            ),
            WatchStep::Message(update) => (s, if update && s.1 {
                Some(UpdateEvent::Changed)
            } else {
                None
            }),
            WatchStep::Ended(reason) => (
                (s.0, false, false),
                Some(UpdateEvent::Disconnected(reason)),
            ),
            WatchStep::Requested => ((WS_CONNECT_ATTEMPTS as int, s.1, false), None),
            WatchStep::Stopped => ((s.0, false, true), None),
        }
    }
}

/// The state and the events reported after the steps, from a fresh watcher.
pub open spec fn watch_run(steps: Seq<WatchStep>) -> ((int, bool, bool), Seq<UpdateEvent>)
    decreases steps.len(),
{
    if steps.len() == 0 {
        ((WS_CONNECT_ATTEMPTS as int, false, false), Seq::empty())
    } else {
        let before = watch_run(steps.drop_last());
        let after = watcher_step(before.0, steps.last());
        (
            after.0,
            match after.1 {
                Some(event) => before.1.push(event),
                None => before.1,
            },
        )
    }
}

/// A connection is open after the events: the last connection or
/// disconnection among them is a connection.
pub open spec fn connection_open(events: Seq<UpdateEvent>) -> bool
    decreases events.len(),
{
    if events.len() == 0 {
        false
    } else {
        match events.last() {
            UpdateEvent::Connected => true,
            UpdateEvent::Disconnected(_) => false,
            UpdateEvent::Changed => connection_open(events.drop_last()),
        }
    }
}

/// Every change is reported while a connection is open: after a
/// connection, with no disconnection in between.
pub open spec fn changes_follow_connection(events: Seq<UpdateEvent>) -> bool
    decreases events.len(),
{
    if events.len() == 0 {
        true
    } else {
        changes_follow_connection(events.drop_last()) && (events.last() is Changed
            ==> connection_open(events.drop_last()))
    }
}

/// The last `k` steps are failed connection attempts.
pub open spec fn ends_in_failures(steps: Seq<WatchStep>, k: int) -> bool {
    k <= steps.len() && forall|i: int|
        steps.len() - k <= i < steps.len() ==> #[trigger] steps[i] is ConnectFailed
}

proof fn lemma_trailing_failures(steps: Seq<WatchStep>, k: int)
    requires
        0 <= k <= WS_CONNECT_ATTEMPTS,
        ends_in_failures(steps, k),
    ensures
        0 <= watch_run(steps).0.0 <= WS_CONNECT_ATTEMPTS,
        !watch_run(steps).0.2 ==> watch_run(steps).0.0 <= WS_CONNECT_ATTEMPTS - k,
    decreases steps.len(),
{
    if steps.len() == 0 {
    } else {
        let front = steps.drop_last();
        if k > 0 {
            assert forall|i: int| front.len() - (k - 1) <= i < front.len() implies #[trigger] front[i] is ConnectFailed by {
                assert(front[i] == steps[i]);
            }
            lemma_trailing_failures(front, k - 1);
            assert(steps[steps.len() - 1] is ConnectFailed);
        } else {
            lemma_trailing_failures(front, 0);
        }
    }
}

proof fn lemma_watch_run(steps: Seq<WatchStep>)
    ensures
        !watch_run(steps).0.2 ==> watch_run(steps).0.1 == connection_open(watch_run(steps).1),
        watch_run(steps).0.2 ==> !watch_run(steps).0.1,
        changes_follow_connection(watch_run(steps).1),
    decreases steps.len(),
{
    if steps.len() > 0 {
        lemma_watch_run(steps.drop_last());
        let before = watch_run(steps.drop_last());
        let after = watcher_step(before.0, steps.last());
        match after.1 {
            Some(event) => {
                assert(before.1.push(event).drop_last() =~= before.1);
            },
            None => {},
        }
    }
}

/// The watcher reports a change only while a connection is open (after a
/// connection, with no disconnection in between), keeps between 0 and 5
/// attempts, after five failed attempts in a row waits for a request
/// before it tries again, and once stopped reports nothing more.
pub proof fn watcher_reports_in_order(steps: Seq<WatchStep>, next: WatchStep)
    ensures
        watch_run(steps).0.2 ==> watch_run(steps.push(next)).1 == watch_run(steps).1 && watch_run(
            steps.push(next),
        ).0.2,
        changes_follow_connection(watch_run(steps).1),
        !watch_run(steps).0.2 ==> watch_run(steps).0.1 == connection_open(watch_run(steps).1),
        0 <= watch_run(steps).0.0 <= WS_CONNECT_ATTEMPTS,
        ends_in_failures(steps, WS_CONNECT_ATTEMPTS as int) && !watch_run(steps).0.2
            ==> after_disconnect_of(
            watch_run(steps).0.0,
        ) == AfterDisconnect::AwaitRequest,
{
    lemma_watch_run(steps);
    assert(steps.push(next).drop_last() =~= steps);
    assert(ends_in_failures(steps, 0));
    lemma_trailing_failures(steps, 0);
    if ends_in_failures(steps, WS_CONNECT_ATTEMPTS as int) {
        lemma_trailing_failures(steps, WS_CONNECT_ATTEMPTS as int);
    }
}

/// The WebSocket watcher: its attempts left, whether it is connected, and
/// whether it was stopped.
pub struct Watcher {
    pub reconnect: Reconnect,
    pub connected: bool,
    pub stopped: bool,
}

impl Watcher {
    /// A watcher with all its attempts left and no connection.
    pub fn new() -> (r: Self)
        ensures
            r.reconnect.attempts == WS_CONNECT_ATTEMPTS,
            !r.connected,
            !r.stopped,
    {
        Watcher { reconnect: Reconnect::new(), connected: false, stopped: false }
    }

    /// Takes one step; the event to report, if any.
    pub fn step(&mut self, step: WatchStep) -> (r: Option<UpdateEvent>)
        ensures
            (
                (final(self).reconnect.attempts as int, final(self).connected, final(self).stopped),
                r,
            ) == watcher_step(
                (old(self).reconnect.attempts as int, old(self).connected, old(self).stopped),
                step,
            ),
    {
        if self.stopped {
            return None;
        }
        match step {
            WatchStep::ConnectFailed(reason) => {
                self.reconnect.failed();
                self.connected = false;
                Some(UpdateEvent::Disconnected(reason))
            },
            WatchStep::Connected => {
                self.reconnect.connected();
                self.connected = true;
                Some(UpdateEvent::Connected)
            },
            WatchStep::Message(update) => if update && self.connected {
                Some(UpdateEvent::Changed)
            } else {
                None
            },
            WatchStep::Ended(reason) => {
                self.connected = false;
                Some(UpdateEvent::Disconnected(reason))
            },
            WatchStep::Requested => {
                self.reconnect.connected();
                None
            },
            WatchStep::Stopped => {
                self.connected = false;
                self.stopped = true;
                None
            },
        }
    }

    /// What to do once a connection ended or failed.
    pub fn after_disconnect(&self) -> (r: AfterDisconnect)
        ensures
            r == after_disconnect_of(self.reconnect.attempts as int),
    {
        self.reconnect.after_disconnect()
    }
}

/// The operation name SPlayer's WebSocket takes for a command; a toggle
/// pauses a playing player and plays otherwise.
pub open spec fn op_of(command: Control, playing: bool) -> Seq<char> {
    match command {
        Control::Play => "play"@,
        Control::Pause => "pause"@,
        Control::Toggle => if playing {
            "pause"@
        } else {
            "play"@
        },
        Control::Previous => "prev"@,
        Control::Next => "next"@,
    }
}

/// The operation for a command. `playing` is read for a toggle only.
pub fn control_op(command: Control, playing: bool) -> (r: String)
    ensures
        r@ == op_of(command, playing),
{
    match command {
        Control::Play => "play".to_owned(),
        Control::Pause => "pause".to_owned(),
        Control::Toggle => if playing {
            "pause".to_owned()
        } else {
            "play".to_owned()
        },
        Control::Previous => "prev".to_owned(),
        Control::Next => "next".to_owned(),
    }
}

/// A control request to send: the operation, the WebSocket URL, and the
/// host and port to connect to.
pub struct ControlPlan {
    pub op: String,
    pub url: String,
    pub host: String,
    pub port: u16,
}

pub open spec fn is_bracket(c: char) -> bool {
    c == '[' || c == ']'
}

/// `s` without leading brackets.
pub open spec fn trim_start_brackets(s: Seq<char>) -> Seq<char>
    decreases s.len(),
{
    if s.len() > 0 && is_bracket(s[0]) {
        trim_start_brackets(s.drop_first())
    } else {
        s
    }
}

/// `s` without trailing brackets.
pub open spec fn trim_end_brackets(s: Seq<char>) -> Seq<char>
    decreases s.len(),
{
    if s.len() > 0 && is_bracket(s.last()) {
        trim_end_brackets(s.drop_last())
    } else {
        s
    }
}

/// `s` without brackets at either end (`str::trim_matches(['[', ']'])`).
pub open spec fn trim_brackets(s: Seq<char>) -> Seq<char> {
    trim_end_brackets(trim_start_brackets(s))
}

/// A host without the brackets of an IPv6 literal.
pub fn unbracketed(host: &str) -> (r: String)
    ensures
        r@ == trim_brackets(host@),
{
    let s = chars_of(host);
    let mut i: usize = 0;
    assert(s@.skip(0) =~= s@);
    while i < s.len() && (s[i] == '[' || s[i] == ']')
        invariant
            i <= s@.len(),
            trim_start_brackets(s@) == trim_start_brackets(s@.skip(i as int)),
        decreases s@.len() - i,
    {
        assert(s@.skip(i as int).drop_first() =~= s@.skip(i + 1));
        i = i + 1;
    }
    let mut j: usize = s.len();
    let ghost front = s@.skip(i as int);
    assert(front =~= s@.subrange(i as int, j as int));
    while j > i && (s[j - 1] == '[' || s[j - 1] == ']')
        invariant
            i <= j <= s@.len(),
            front == s@.skip(i as int),
            trim_end_brackets(front) == trim_end_brackets(s@.subrange(i as int, j as int)),
        decreases j,
    {
        assert(s@.subrange(i as int, j as int).drop_last() =~= s@.subrange(i as int, j - 1));
        j = j - 1;
    }
    let r = crate::text::slice_range(s.as_slice(), i, j);
    string_from_chars(r.as_slice())
}

pub open spec fn no_host_message() -> Seq<char> {
    "SPlayer endpoint needs a host"@
}

/// The port to connect to: the URL's own, else 443 for `wss` and 80 otherwise.
pub open spec fn port_of(parts: (Option<Seq<char>>, Option<Seq<char>>, Option<u16>)) -> u16 {
    match parts.2 {
        Some(port) => port,
        None => if parts.0 == Some("wss"@) {
            443
        } else {
            80
        },
    }
}

/// The plan for a control request, as (operation, URL, host, port).
pub open spec fn plan_of(
    op: Seq<char>,
    url: Seq<char>,
    uri: Result<(Option<Seq<char>>, Option<Seq<char>>, Option<u16>), Seq<char>>,
) -> Result<(Seq<char>, Seq<char>, Seq<char>, u16), Seq<char>> {
    match uri {
        Err(e) => Err(e),
        Ok(parts) => match parts.1 {
            None => Err(no_host_message()),
            Some(host) => Ok((op, url, trim_brackets(host), port_of(parts))),
        },
    }
}

/// A control plan taken by its view.
pub open spec fn plan_view(r: Result<ControlPlan, String>) -> Result<
    (Seq<char>, Seq<char>, Seq<char>, u16),
    Seq<char>,
> {
    match r {
        Ok(p) => Ok((p.op@, p.url@, p.host@, p.port)),
        Err(e) => Err(e@),
    }
}

/// The plan to send `op` over the WebSocket at `url`, given what the URI
/// parser made of `url`.
pub fn control_plan(op: String, url: String, uri: Result<UriParts, String>) -> (r: Result<
    ControlPlan,
    String,
>)
    ensures
        plan_view(r) == plan_of(op@, url@, uri_view(uri)),
{
    match uri {
        Err(error) => Err(error),
        Ok(parts) => match &parts.host {
            None => Err("SPlayer endpoint needs a host".to_owned()),
            Some(host) => {
                let host = unbracketed(host.as_str());
                let port = match parts.port {
                    Some(port) => port,
                    None => {
                        let wss = match &parts.scheme {
                            Some(scheme) => text_is(scheme.as_str(), "wss"),
                            None => false,
                        };
                        if wss {
                            443
                        } else {
                            80
                        }
                    },
                };
                Ok(ControlPlan { op, url, host, port })
            },
        },
    }
}

/// The plan for a control request to the SPlayer at `endpoint`.
pub open spec fn control_spec(endpoint: Seq<char>, command: Control, playing: bool) -> Result<
    (Seq<char>, Seq<char>, Seq<char>, u16),
    Seq<char>,
> {
    match websocket_url_of(endpoint) {
        Err(e) => Err(e),
        Ok(url) => plan_of(op_of(command, playing), url, parsed_uri(url)),
    }
}

/// The command a toggle stands for: pause a playing player, play one that
/// does not play. Other commands stand for themselves.
pub open spec fn resolved_of(command: Control, playing: bool) -> Control {
    if command == Control::Toggle {
        if playing {
            Control::Pause
        } else {
            Control::Play
        }
    } else {
        command
    }
}

/// Resolves a toggle by whether the player plays.
pub fn resolve_toggle(command: Control, playing: bool) -> (r: Control)
    ensures
        r == resolved_of(command, playing),
        r != Control::Toggle,
        op_of(r, playing) == op_of(command, playing),
{
    match command {
        Control::Toggle => if playing {
            Control::Pause
        } else {
            Control::Play
        },
        other => other,
    }
}

/// Plans a control request to the SPlayer at `endpoint`. `playing` tells
/// whether the player plays; it is read for a toggle only, which is
/// resolved in place into the pause or play it stands for.
pub fn control(endpoint: &str, command: &mut Control, playing: bool) -> (r: Result<
    ControlPlan,
    String,
>)
    ensures
        *final(command) == resolved_of(*old(command), playing),
        plan_view(r) == control_spec(endpoint@, *old(command), playing),
{
    *command = resolve_toggle(*command, playing);
    let op = control_op(*command, playing);
    match websocket_url(endpoint) {
        Err(error) => Err(error),
        Ok(url) => {
            let uri = parse_uri(url.as_str());
            control_plan(op, url, uri)
        },
    }
}

/// What a reply on the control socket means for the request.
#[derive(PartialEq, Eq, Structural, Debug, Clone, Copy)]
pub enum ReplyVerdict {
    /// A reply to something else: keep reading.
    Unrelated,
    /// The request was carried out.
    Acknowledged,
    /// The player refused it; its `error` member says why.
    Refused,
}

/// The verdict on a reply: one for `op` acknowledges or refuses it; any other
/// reply, or one of another kind, is unrelated.
pub open spec fn verdict_of(reply: Json, op: Seq<char>) -> ReplyVerdict {
    if !is_text(field(reply, "op"@), op) {
        ReplyVerdict::Unrelated
    } else if is_text(field(reply, "kind"@), "ack"@) {
        ReplyVerdict::Acknowledged
    } else if is_text(field(reply, "kind"@), "error"@) {
        ReplyVerdict::Refused
    } else {
        ReplyVerdict::Unrelated
    }
}

/// Judges a reply read from the control socket after sending `op`.
pub fn reply_verdict(reply: &Json, op: &str) -> (r: ReplyVerdict)
    ensures
        r == verdict_of(*reply, op@),
{
    if !field_is(reply, "op", op) {
        ReplyVerdict::Unrelated
    } else if field_is(reply, "kind", "ack") {
        ReplyVerdict::Acknowledged
    } else if field_is(reply, "kind", "error") {
        ReplyVerdict::Refused
    } else {
        ReplyVerdict::Unrelated
    }
}

} // verus!
