use bar_lyrics::lyrics::lyrics_fit;
use bar_lyrics::model::{LyricLine, LyricWord};
use bar_lyrics::text::{parse_i64, parse_unsigned};

fn word(text: &str, start: i64, end: i64) -> LyricWord {
    LyricWord { word: text.to_owned(), start_time: start, end_time: end }
}

fn line(words: Vec<LyricWord>, text: &str, start: i64, end: i64) -> LyricLine {
    LyricLine {
        words,
        text: text.to_owned(),
        translation: String::new(),
        romanization: String::new(),
        start_time: start,
        end_time: end,
        is_background: false,
    }
}

#[test]
fn unsigned_parsing_follows_from_str() {
    assert_eq!(parse_unsigned("42", 255), Some(42));
    assert_eq!(parse_unsigned("+7", 255), Some(7));
    assert_eq!(parse_unsigned("007", 255), Some(7));
    assert_eq!(parse_unsigned("256", 255), None);
    assert_eq!(parse_unsigned("", 255), None);
    assert_eq!(parse_unsigned("+", 255), None);
    assert_eq!(parse_unsigned("-1", 255), None);
    assert_eq!(parse_unsigned(" 1", 255), None);
    assert_eq!(parse_unsigned("18446744073709551615", u64::MAX), Some(u64::MAX));
    assert_eq!(parse_unsigned("18446744073709551616", u64::MAX), None);
}

#[test]
fn signed_parsing_follows_from_str() {
    assert_eq!(parse_i64("-250"), Some(-250));
    assert_eq!(parse_i64("+250"), Some(250));
    assert_eq!(parse_i64("-9223372036854775808"), Some(i64::MIN));
    assert_eq!(parse_i64("9223372036854775807"), Some(i64::MAX));
    assert_eq!(parse_i64("9223372036854775808"), None);
    assert_eq!(parse_i64("-"), None);
    assert_eq!(parse_i64("-+1"), None);
    assert_eq!(parse_i64("1.5"), None);
}

#[test]
fn effective_end_uses_latest_word_or_line_end() {
    let l = line(vec![word("a", 0, 900), word("b", 900, 1500)], "ab", 0, 1000);
    assert_eq!(l.effective_end_time(), Some(1500));
    let l = line(vec![], "x", 2000, 3000);
    assert_eq!(l.effective_end_time(), Some(3000));
    let l = line(vec![], "x", 2000, 2000);
    assert_eq!(l.effective_end_time(), None);
    let l = line(vec![word("a", 0, 10)], "x", 20, 0);
    assert_eq!(l.effective_end_time(), None);
}

#[test]
fn ordinary_lyrics_fit() {
    let lines = vec![line(vec![word("a", 0, 1)], "a", 0, 1)];
    assert!(lyrics_fit(&lines));
    assert!(lyrics_fit(&Vec::new()));
}
