use bar_lyrics::json::Json;
use bar_lyrics::options::Control;
use bar_lyrics::splayer::{
    control, control_op, epoch_millis, is_update, reply_verdict, resolve_toggle, unix_millis, websocket_error, websocket_url,
    AfterDisconnect, ArtistResponse, LyricLineResponse, LyricSource, LyricWordResponse,
    LyricsResponse, NowPlaying, Reconnect, ReplyVerdict, TrackResponse, UpdateEvent, WatchState,
    WatchStep, Watcher,
    WS_CONNECT_ATTEMPTS,
};

fn word(text: &str, roman: &str, start: i64, end: i64) -> LyricWordResponse {
    LyricWordResponse {
        word: text.to_owned(),
        roman_word: roman.to_owned(),
        start_time: start,
        end_time: end,
    }
}

fn response_line(words: Vec<LyricWordResponse>, roman: &str) -> LyricLineResponse {
    LyricLineResponse {
        words,
        text: "text".to_owned(),
        translated_lyric: "translation".to_owned(),
        roman_lyric: roman.to_owned(),
        start_time: 10,
        end_time: 20,
        is_background: true,
    }
}

fn source(source: &str, platform: &str, format: &str) -> LyricSource {
    LyricSource {
        source: source.to_owned(),
        platform: platform.to_owned(),
        format: format.to_owned(),
    }
}

fn object(fields: &[(&str, Json)]) -> Json {
    Json::Object(fields.iter().map(|(k, v)| (k.to_string(), clone_json(v))).collect())
}

fn clone_json(v: &Json) -> Json {
    match v {
        Json::Null => Json::Null,
        Json::Bool(b) => Json::Bool(*b),
        Json::Number(n) => Json::Number(n.clone()),
        Json::Str(s) => Json::Str(s.clone()),
        Json::Array(items) => Json::Array(items.iter().map(clone_json).collect()),
        Json::Object(fields) => {
            Json::Object(fields.iter().map(|(k, v)| (k.clone(), clone_json(v))).collect())
        }
    }
}

fn s(text: &str) -> Json {
    Json::Str(text.to_owned())
}

#[test]
fn websocket_url_maps_http_schemes() {
    assert_eq!(websocket_url("http://127.0.0.1:14558/"), Ok("ws://127.0.0.1:14558/ws".to_owned()));
    assert_eq!(websocket_url("https://host//"), Ok("wss://host/ws".to_owned()));
    assert_eq!(
        websocket_url("ftp://host"),
        Err("SPlayer endpoint must start with http:// or https://".to_owned())
    );
}

#[test]
fn websocket_error_explains_the_fix() {
    assert_eq!(
        websocket_error("ws://h/ws", "refused"),
        "SPlayer WebSocket unavailable at ws://h/ws; enable WebSocket in SPlayer external API settings: refused"
    );
}

#[test]
fn lyric_source_label_prefers_platform() {
    assert_eq!(source("s", "netease", "yrc").label(), "SPlayer · netease");
    assert_eq!(source("s", "", "yrc").label(), "SPlayer · yrc");
    assert_eq!(source("local", "", "").label(), "SPlayer · local");
    assert_eq!(source("", "", "").label(), "SPlayer");
}

#[test]
fn word_sync_from_format_or_timings() {
    let mut r = LyricsResponse {
        track_id: "1".to_owned(),
        lyric: vec![response_line(vec![word("a", "", 0, 10), word("b", "", 0, 10)], "")],
        source: Some(source("", "", "LRC")),
    };
    assert!(!r.supports_word_sync());
    r.source = Some(source("", "", "YrC"));
    assert!(r.supports_word_sync());
    r.source = None;
    r.lyric.push(response_line(vec![word("a", "", 0, 10), word("b", "", 10, 20)], ""));
    assert!(r.supports_word_sync());
}

#[test]
fn lines_take_romanization_from_words_when_blank() {
    let l = response_line(vec![word("a", "ro", 0, 1), word("b", "ma", 1, 2)], "  ");
    let line = l.to_line();
    assert_eq!(line.romanization, "roma");
    assert_eq!(line.text, "text");
    assert_eq!(line.translation, "translation");
    assert!(line.is_background);
    assert_eq!(line.words.len(), 2);
    assert_eq!(line.words[1].word, "b");
    let l = response_line(vec![word("a", "ro", 0, 1)], "own");
    assert_eq!(l.to_line().romanization, "own");
}

#[test]
fn snapshot_labels_and_converts() {
    let r = LyricsResponse {
        track_id: "42".to_owned(),
        lyric: vec![response_line(vec![], "")],
        source: None,
    };
    let snapshot = r.to_snapshot();
    assert_eq!(snapshot.track_id, "42");
    assert_eq!(snapshot.source, "SPlayer");
    assert_eq!(snapshot.lines.len(), 1);
    assert!(!snapshot.word_synced);
}

#[test]
fn now_playing_reads_state_and_clock_age() {
    let r = NowPlaying {
        track: Some(TrackResponse {
            id: "9".to_owned(),
            title: "T".to_owned(),
            artists: vec![ArtistResponse { name: "A".to_owned() }, ArtistResponse { name: "B".to_owned() }],
            cover: "c".to_owned(),
        }),
        position: 100,
        playing: true,
        state: "playing".to_owned(),
        lyric_offset_ms: 0,
        lyric_available: true,
        lyric_line_count: 3,
        send_timestamp: 1_000,
    };
    assert_eq!(r.clock_age(1_250), 250);
    assert_eq!(r.clock_age(500), 0);
    assert_eq!(r.clock_age(100_000), 5_000);
    assert_eq!(r.clock_age(i64::MIN), 0);
    let p = r.playback();
    assert!(p.playing);
    let t = p.track.unwrap();
    assert_eq!(t.artists, vec!["A".to_owned(), "B".to_owned()]);
    let paused = NowPlaying { state: "paused".to_owned(), ..r };
    assert!(!paused.is_playing());
}

#[test]
fn unix_millis_reads_the_clock() {
    assert!(unix_millis() > 1_600_000_000_000);
}

#[test]
fn watch_state_reports_changes_while_connected() {
    let mut w = WatchState::new();
    assert_eq!(
        w.take(&Vec::new(), false),
        Err("SPlayer WebSocket disconnected: waiting for SPlayer WebSocket; enable WebSocket in SPlayer external API settings".to_owned())
    );
    assert_eq!(w.take(&vec![UpdateEvent::Connected], false), Ok(true));
    assert_eq!(w.take(&Vec::new(), false), Ok(false));
    assert_eq!(w.take(&vec![UpdateEvent::Changed], false), Ok(true));
    assert_eq!(
        w.take(&vec![UpdateEvent::Changed, UpdateEvent::Disconnected("closed".to_owned())], false),
        Err("SPlayer WebSocket disconnected: closed".to_owned())
    );
    assert_eq!(
        w.take(&vec![UpdateEvent::Connected], true),
        Err("SPlayer WebSocket disconnected: watcher stopped unexpectedly".to_owned())
    );
}

#[test]
fn reconnect_waits_after_five_failures() {
    let mut r = Reconnect::new();
    for _ in 0..WS_CONNECT_ATTEMPTS - 1 {
        r.failed();
        assert_eq!(r.after_disconnect(), AfterDisconnect::Retry);
    }
    r.failed();
    assert_eq!(r.after_disconnect(), AfterDisconnect::AwaitRequest);
    r.connected();
    assert_eq!(r.after_disconnect(), AfterDisconnect::Retry);
}

#[test]
fn control_ops_and_plans() {
    assert_eq!(control_op(Control::Toggle, true), "pause");
    assert_eq!(control_op(Control::Toggle, false), "play");
    assert_eq!(control_op(Control::Previous, false), "prev");
    let mut next = Control::Next;
    let plan = control("https://[::1]:9000/", &mut next, false).unwrap();
    assert_eq!(next, Control::Next);
    assert_eq!(plan.op, "next");
    assert_eq!(plan.url, "wss://[::1]:9000/ws");
    assert_eq!(plan.host, "::1");
    assert_eq!(plan.port, 9000);
    let mut play = Control::Play;
    let plan = control("https://example.org", &mut play, false).unwrap();
    assert_eq!(plan.port, 443);
    let plan = control("http://example.org", &mut play, false).unwrap();
    assert_eq!(plan.port, 80);
    assert!(control("ftp://example.org", &mut play, false).is_err());
}

#[test]
fn toggles_are_resolved_in_place() {
    let mut toggle = Control::Toggle;
    let plan = control("http://127.0.0.1:14558", &mut toggle, true).unwrap();
    assert_eq!(toggle, Control::Pause);
    assert_eq!(plan.op, "pause");
    let mut toggle = Control::Toggle;
    let plan = control("http://127.0.0.1:14558", &mut toggle, false).unwrap();
    assert_eq!(toggle, Control::Play);
    assert_eq!(plan.op, "play");
    let mut toggle = Control::Toggle;
    assert!(control("ftp://x", &mut toggle, true).is_err());
    assert_eq!(toggle, Control::Pause);
    let mut pause = Control::Pause;
    control("http://h", &mut pause, false).unwrap();
    assert_eq!(pause, Control::Pause);
    assert_eq!(resolve_toggle(Control::Next, true), Control::Next);
}

#[test]
fn control_replies_are_judged_by_op_and_kind() {
    let ack = object(&[("op", s("play")), ("kind", s("ack"))]);
    assert_eq!(reply_verdict(&ack, "play"), ReplyVerdict::Acknowledged);
    assert_eq!(reply_verdict(&ack, "pause"), ReplyVerdict::Unrelated);
    let refused = object(&[("op", s("play")), ("kind", s("error")), ("error", s("no"))]);
    assert_eq!(reply_verdict(&refused, "play"), ReplyVerdict::Refused);
    let other = object(&[("op", s("play")), ("kind", s("event"))]);
    assert_eq!(reply_verdict(&other, "play"), ReplyVerdict::Unrelated);
    assert_eq!(reply_verdict(&Json::Null, "play"), ReplyVerdict::Unrelated);
}

#[test]
fn update_messages_are_events() {
    assert!(is_update(&object(&[("kind", s("event")), ("data", Json::Null)])));
    assert!(!is_update(&object(&[("kind", s("ack"))])));
    assert!(!is_update(&s("event")));
}

#[test]
fn update_envelope_forms() {
    assert!(is_update(&Json::Array(vec![s("event")])));
    assert!(!is_update(&Json::Array(vec![s("ack")])));
    assert!(!is_update(&Json::Array(vec![s("event"), s("extra")])));
    assert!(!is_update(&Json::Array(vec![])));
    assert!(!is_update(&object(&[("kind", s("event")), ("kind", s("event"))])));
    assert!(!is_update(&object(&[("kind", s("ack")), ("kind", s("event"))])));
    assert!(!is_update(&object(&[("kind", Json::Number("1".to_owned()))])));
    assert!(!is_update(&object(&[("data", s("event"))])));
    assert!(is_update(&object(&[("data", s("x")), ("kind", s("event")), ("more", Json::Bool(true))])));
}

#[test]
fn epoch_millis_clamps_the_clock() {
    assert_eq!(epoch_millis(None), 0);
    assert_eq!(epoch_millis(Some(1_700_000_000_123)), 1_700_000_000_123);
    assert_eq!(epoch_millis(Some(u128::MAX)), i64::MAX);
    assert_eq!(epoch_millis(Some(i64::MAX as u128)), i64::MAX);
}

#[test]
fn watcher_reports_changes_only_while_connected() {
    let mut w = Watcher::new();
    assert!(w.step(WatchStep::Message(true)).is_none());
    assert!(matches!(w.step(WatchStep::Connected), Some(UpdateEvent::Connected)));
    assert!(matches!(w.step(WatchStep::Message(true)), Some(UpdateEvent::Changed)));
    assert!(w.step(WatchStep::Message(false)).is_none());
    match w.step(WatchStep::Ended("closed".to_owned())) {
        Some(UpdateEvent::Disconnected(reason)) => assert_eq!(reason, "closed"),
        _ => panic!("expected a disconnection"),
    }
    assert!(w.step(WatchStep::Message(true)).is_none());
    for _ in 0..WS_CONNECT_ATTEMPTS - 1 {
        assert!(matches!(w.step(WatchStep::ConnectFailed("refused".to_owned())), Some(UpdateEvent::Disconnected(_))));
        assert_eq!(w.after_disconnect(), AfterDisconnect::Retry);
    }
    w.step(WatchStep::ConnectFailed("refused".to_owned()));
    assert_eq!(w.after_disconnect(), AfterDisconnect::AwaitRequest);
    assert!(w.step(WatchStep::Requested).is_none());
    assert_eq!(w.after_disconnect(), AfterDisconnect::Retry);
}

#[test]
fn stopped_watcher_reports_nothing() {
    let mut w = Watcher::new();
    assert!(matches!(w.step(WatchStep::Connected), Some(UpdateEvent::Connected)));
    assert!(w.step(WatchStep::Stopped).is_none());
    assert!(w.step(WatchStep::Message(true)).is_none());
    assert!(w.step(WatchStep::Connected).is_none());
    assert!(w.step(WatchStep::Ended("x".to_owned())).is_none());
}
