use bar_lyrics::engine::{Engine, PlaybackState};
use bar_lyrics::model::{LyricLine, LyricsSnapshot, Track};
use bar_lyrics::options::{Alignment, SubtitleMode};

fn plain(text: &str, start: i64, end: i64) -> LyricLine {
    LyricLine {
        words: Vec::new(),
        text: text.to_owned(),
        translation: String::new(),
        romanization: String::new(),
        start_time: start,
        end_time: end,
        is_background: false,
    }
}

fn track(id: &str, title: &str) -> Track {
    Track {
        id: id.to_owned(),
        title: title.to_owned(),
        artists: vec!["Singer".to_owned()],
        cover: String::new(),
    }
}

fn loaded_engine() -> Engine {
    let mut engine = Engine::new(None);
    let plan = engine.refresh(
        PlaybackState { track: Some(track("7", "Song")), playing: true },
        true,
        2,
        Vec::new(),
    );
    assert!(plan.fetch_lyrics);
    let lyrics = LyricsSnapshot {
        track_id: "7".to_owned(),
        lines: vec![plain("first line", 1000, 3000), plain("second line", 3000, 6000)],
        word_synced: false,
        source: "SPlayer".to_owned(),
    };
    assert!(engine.finish_refresh(Ok(lyrics)).is_ok());
    engine
}

#[test]
fn engine_shows_the_current_line() {
    let mut engine = loaded_engine();
    let frame = engine.frame(2000, 32, Alignment::Start, SubtitleMode::Auto, Vec::new());
    assert!(frame.is_visible());
    assert!(frame.is_playing());
    assert!(frame.has_lyrics());
    assert_eq!(frame.title, "Song");
    assert_eq!(frame.artist, "Singer");
    let text: String = frame.line.as_ref().unwrap().segments.iter().map(|s| s.as_str().to_owned()).collect();
    assert_eq!(text, "first line");
}

#[test]
fn engine_falls_back_to_the_title_before_the_first_line() {
    let mut engine = loaded_engine();
    let frame = engine.frame(500, 32, Alignment::Start, SubtitleMode::Auto, Vec::new());
    assert!(frame.is_visible());
    assert!(!frame.has_lyrics());
    assert_eq!(frame.display_text(), "Song");
}

#[test]
fn engine_changes_lines_with_a_transition() {
    let mut engine = loaded_engine();
    let frame = engine.frame(3100, 32, Alignment::Start, SubtitleMode::Auto, Vec::new());
    assert!(frame.is_transitioning());
    let t = frame.transition.as_ref().unwrap();
    let old: String = t.outgoing.segments.iter().map(|s| s.as_str().to_owned()).collect();
    assert_eq!(old, "first line");
    let text: String = frame.line.as_ref().unwrap().segments.iter().map(|s| s.as_str().to_owned()).collect();
    assert_eq!(text, "second line");
}

#[test]
fn cleared_playback_shows_nothing() {
    let mut engine = loaded_engine();
    engine.clear_playback(Vec::new());
    let frame = engine.frame(2000, 32, Alignment::Start, SubtitleMode::Auto, Vec::new());
    assert!(!frame.is_visible());
    assert!(!frame.has_lyrics());
    assert!(!frame.is_transitioning());
}

#[test]
fn same_track_keeps_its_lyrics() {
    let mut engine = loaded_engine();
    let plan = engine.refresh(
        PlaybackState { track: Some(track("7", "Song")), playing: false },
        true,
        2,
        Vec::new(),
    );
    assert!(!plan.fetch_lyrics);
    assert_eq!(engine.lyrics.len(), 2);
    let frame = engine.frame(2000, 32, Alignment::Start, SubtitleMode::Auto, Vec::new());
    assert!(!frame.is_playing());
}

#[test]
fn new_track_drops_old_lyrics() {
    let mut engine = loaded_engine();
    let plan = engine.refresh(
        PlaybackState { track: Some(track("8", "Other")), playing: true },
        false,
        0,
        Vec::new(),
    );
    assert!(!plan.fetch_lyrics);
    assert_eq!(engine.lyrics.len(), 0);
    assert_eq!(engine.lyrics_track_id, "8");
}

#[test]
fn long_titles_keep_the_aligned_end() {
    let mut engine = Engine::new(None);
    let plan = engine.refresh(
        PlaybackState { track: Some(track("9", "A Very Long Song Title Indeed")), playing: true },
        false,
        0,
        Vec::new(),
    );
    assert!(!plan.fetch_lyrics);
    let frame = engine.frame(0, 12, Alignment::Start, SubtitleMode::Auto, Vec::new());
    assert_eq!(frame.display_text(), "A Very Long…");
    let frame = engine.frame(0, 12, Alignment::End, SubtitleMode::Auto, Vec::new());
    assert_eq!(frame.display_text(), "…itle Indeed");
}

#[test]
fn lyrics_of_another_track_are_ignored_and_errors_keep_the_lyrics() {
    let mut engine = loaded_engine();
    let plan = engine.refresh(
        PlaybackState { track: Some(track("8", "Next")), playing: true },
        true,
        1,
        Vec::new(),
    );
    assert!(plan.fetch_lyrics);
    let other = LyricsSnapshot {
        track_id: "7".to_owned(),
        lines: vec![plain("old", 0, 10)],
        word_synced: false,
        source: "SPlayer".to_owned(),
    };
    assert!(engine.finish_refresh(Ok(other)).is_ok());
    assert_eq!(engine.lyrics.len(), 0);
    assert_eq!(engine.lyrics_track_id, "");
    assert_eq!(engine.playback.as_ref().unwrap().track.as_ref().unwrap().id, "8");

    let mut engine = loaded_engine();
    let plan = engine.refresh(
        PlaybackState { track: Some(track("7", "Song")), playing: true },
        true,
        5,
        Vec::new(),
    );
    assert!(plan.fetch_lyrics);
    assert_eq!(engine.finish_refresh(Err("down".to_owned())), Err("down".to_owned()));
    assert_eq!(engine.lyrics.len(), 2);
    assert_eq!(engine.lyrics_track_id, "7");
    assert_eq!(engine.lyrics_source, "SPlayer");
}
