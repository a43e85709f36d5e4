use bar_lyrics::engine::{display_line, join_artists, transition_start};
use bar_lyrics::lyrics::{line_text, subtitle, timed_graphemes, truncate_text, truncate_title};
use bar_lyrics::model::{LyricLine, LyricWord};
use bar_lyrics::options::{Alignment, SubtitleMode};

fn word(text: &str, start: i64, end: i64) -> LyricWord {
    LyricWord { word: text.to_owned(), start_time: start, end_time: end }
}

fn line(words: Vec<LyricWord>, text: &str, start: i64, end: i64) -> LyricLine {
    LyricLine {
        words,
        text: text.to_owned(),
        translation: String::new(),
        romanization: String::new(),
        start_time: start,
        end_time: end,
        is_background: false,
    }
}

#[test]
fn timed_graphemes_spread_word_time_over_letters() {
    let l = line(vec![word("ab c", 0, 300)], "", 0, 300);
    let timed = timed_graphemes(&l);
    let seen: Vec<(String, i128, i128)> = timed
        .iter()
        .map(|t| (t.text.iter().collect::<String>(), t.start_ms, t.end_ms))
        .collect();
    assert_eq!(
        seen,
        vec![
            ("a".to_owned(), 0, 100),
            ("b".to_owned(), 100, 200),
            ("\u{a0}".to_owned(), 200, 201),
            ("c".to_owned(), 200, 300),
        ]
    );
}

#[test]
fn timed_graphemes_of_reversed_word_last_one_ms() {
    let l = line(vec![word("xy", 500, 400)], "", 0, 0);
    let timed = timed_graphemes(&l);
    assert_eq!(timed.len(), 2);
    assert_eq!((timed[0].start_ms, timed[0].end_ms), (500, 501));
    assert_eq!((timed[1].start_ms, timed[1].end_ms), (500, 501));
}

#[test]
fn line_text_falls_back_to_words() {
    let l = line(vec![word("Hel", 0, 1), word("lo", 1, 2)], "", 0, 2);
    assert_eq!(line_text(&l).into_iter().collect::<String>(), "Hello");
    let l = line(vec![word("x", 0, 1)], "Shown", 0, 2);
    assert_eq!(line_text(&l).into_iter().collect::<String>(), "Shown");
}

#[test]
fn truncation_ends_with_an_ellipsis() {
    assert_eq!(truncate_text("abcdef", 4), "abc…");
    assert_eq!(truncate_text("abcd", 4), "abcd");
    assert_eq!(truncate_text("日本語の歌", 3), "日本…");
}

#[test]
fn subtitle_prefers_translation_in_auto_mode() {
    let mut l = line(vec![], "こんにちは", 0, 1000);
    l.translation = "  Hello  ".to_owned();
    l.romanization = "konnichiwa".to_owned();
    assert_eq!(subtitle(&l, 0, false, 32, SubtitleMode::Auto), "Hello");
    assert_eq!(subtitle(&l, 0, false, 32, SubtitleMode::Romanization), "konnichiwa");
    assert_eq!(subtitle(&l, 0, false, 32, SubtitleMode::Hidden), "");
    l.translation = String::new();
    assert_eq!(subtitle(&l, 0, false, 32, SubtitleMode::Auto), "konnichiwa");
    assert_eq!(subtitle(&l, 0, false, 32, SubtitleMode::Translation), "");
}

#[test]
fn synced_romanization_scrolls_with_the_words() {
    let mut l = line(
        vec![word("abcdefghij", 0, 1000), word("klmnopqrst", 1000, 2000)],
        "",
        0,
        2000,
    );
    l.romanization = "ABCDEFGHIJKLMNOPQRST".to_owned();
    let early = subtitle(&l, 0, true, 12, SubtitleMode::Romanization);
    assert_eq!(early, "ABCDEFGHIJK…");
    let late = subtitle(&l, 1900, true, 12, SubtitleMode::Romanization);
    assert_eq!(late, "…JKLMNOPQRST");
}

#[test]
fn transition_starts_at_line_end_within_lead() {
    let a = line(vec![], "a", 0, 1900);
    let b = line(vec![], "b", 2000, 3000);
    assert_eq!(transition_start(&a, &b), 1900);
    let a = line(vec![], "a", 0, 1000);
    assert_eq!(transition_start(&a, &b), 1680);
    let a = line(vec![], "a", 0, 2500);
    assert_eq!(transition_start(&a, &b), 2000);
}

#[test]
fn plain_line_is_cropped_at_the_chosen_end() {
    let l = line(vec![], "abcdefghijklmnop", 0, 5000);
    let d = display_line(&l, "Song", 100, false, 12, Alignment::Start, SubtitleMode::Hidden)
        .unwrap();
    let text: String = d.segments.iter().map(|s| s.as_str().to_owned()).collect();
    assert_eq!(text, "abcdefghijk…");
    assert_eq!(d.segments.len(), 1);
    assert!(d.segments[0].is_active());
    let d = display_line(&l, "Song", 100, false, 12, Alignment::End, SubtitleMode::Hidden)
        .unwrap();
    let text: String = d.segments.iter().map(|s| s.as_str().to_owned()).collect();
    assert_eq!(text, "…fghijklmnop");
    assert_eq!(d.key, "Song|0");
}

#[test]
fn synced_line_splits_sung_and_unsung_text() {
    let l = line(vec![word("ab", 0, 200), word("cd", 200, 400)], "", 0, 400);
    let d = display_line(&l, "T", 250, true, 32, Alignment::Start, SubtitleMode::Hidden).unwrap();
    let parts: Vec<(String, bool)> =
        d.segments.iter().map(|s| (s.as_str().to_owned(), s.is_active())).collect();
    assert_eq!(
        parts,
        vec![("ab".to_owned(), true), ("c".to_owned(), true), ("d".to_owned(), false)]
    );
    let c = &d.segments[1];
    assert_eq!((c.progress.done * 2, c.progress.total), (c.progress.total, c.progress.total));
}

#[test]
fn artists_are_joined_with_slashes() {
    let names = vec!["A".to_owned(), String::new(), "B".to_owned()];
    assert_eq!(join_artists(&names), "A / B");
}

#[test]
fn synced_line_scrolls_around_the_active_grapheme() {
    let words: Vec<LyricWord> = "abcdefghijklmnopqrst"
        .chars()
        .enumerate()
        .map(|(i, c)| word(&c.to_string(), i as i64 * 100, i as i64 * 100 + 100))
        .collect();
    let l = line(words, "", 0, 2000);
    let d = display_line(&l, "T", 1050, true, 12, Alignment::Start, SubtitleMode::Hidden).unwrap();
    let text: String = d.segments.iter().map(|s| s.as_str().to_owned()).collect();
    assert_eq!(text.chars().count(), 12);
    assert!(text.starts_with('…') && text.ends_with('…'));
    assert!(text.contains('k'));
    assert_eq!(text, "…fghijklmno…");
}

#[test]
fn titles_are_cut_at_the_chosen_end() {
    assert_eq!(truncate_title("abcdef", 4, false), "abc…");
    assert_eq!(truncate_title("abcdef", 4, true), "…def");
    assert_eq!(truncate_title("abc", 4, true), "abc");
}
