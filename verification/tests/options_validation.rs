use bar_lyrics::json::Json;
use bar_lyrics::options::{
    check_patch, endpoint_host, Alignment, Options, OutputKind, SourceKind, SubtitleMode,
};

fn valid(o: &Result<Options, String>) -> &Options {
    match o {
        Ok(o) => o,
        Err(e) => panic!("unexpected error: {e}"),
    }
}

fn error(o: Result<Options, String>) -> String {
    match o {
        Ok(_) => panic!("expected an error"),
        Err(e) => e,
    }
}

#[test]
fn defaults_match_the_documented_values() {
    let o = Options::default();
    assert!(o.source == SourceKind::Splayer);
    assert_eq!(o.source_endpoint, "http://127.0.0.1:14558");
    assert!(o.output == OutputKind::Json);
    assert_eq!(o.offset_ms, 0);
    assert_eq!(o.max_chars, 32);
    assert!(o.alignment == Alignment::Start);
    assert!(o.subtitle == SubtitleMode::Auto);
    assert_eq!(o.inactive_opacity, 45);
    assert!(o.cover_dir.is_none() && o.current_cover.is_none() && o.waybar_signal.is_none());
    assert!(Options::default().validated().is_ok());
}

#[test]
fn validation_trims_endpoint_and_clears_empty_paths() {
    let mut o = Options::default();
    o.source_endpoint = "https://example.org:8443//".to_owned();
    o.cover_dir = Some(String::new());
    o.current_cover = Some("/run/cover".to_owned());
    let r = o.validated();
    let v = valid(&r);
    assert_eq!(v.source_endpoint, "https://example.org:8443");
    assert!(v.cover_dir.is_none());
    assert_eq!(v.current_cover.as_deref(), Some("/run/cover"));
}

#[test]
fn validation_rejects_non_http_endpoints() {
    let mut o = Options::default();
    o.source_endpoint = "ws://127.0.0.1:14558".to_owned();
    assert_eq!(error(o.validated()), "source_endpoint must be an absolute HTTP(S) URL");
    let mut o = Options::default();
    o.source_endpoint = "/relative".to_owned();
    assert_eq!(error(o.validated()), "source_endpoint must be an absolute HTTP(S) URL");
}

#[test]
fn validation_reports_unparsable_endpoints() {
    let mut o = Options::default();
    o.source_endpoint = "http://exa mple.org".to_owned();
    let e = error(o.validated());
    assert_ne!(e, "source_endpoint must be an absolute HTTP(S) URL");
    assert!(!e.is_empty());
}

#[test]
fn validation_checks_ranges() {
    for (max_chars, opacity, offset, signal, ok) in [
        (12, 10, -10000, Some(1), true),
        (80, 90, 10000, Some(30), true),
        (11, 45, 0, None, false),
        (81, 45, 0, None, false),
        (32, 9, 0, None, false),
        (32, 91, 0, None, false),
        (32, 45, 10001, None, false),
        (32, 45, -10001, None, false),
        (32, 45, 0, Some(0), false),
        (32, 45, 0, Some(31), false),
    ] {
        let mut o = Options::default();
        o.max_chars = max_chars;
        o.inactive_opacity = opacity;
        o.offset_ms = offset;
        o.waybar_signal = signal;
        let r = o.validated();
        if ok {
            assert!(r.is_ok());
        } else {
            assert_eq!(error(r), "configuration value out of range");
        }
    }
}

#[test]
fn validation_is_idempotent_on_examples() {
    let mut o = Options::default();
    o.source_endpoint = "http://localhost:1///".to_owned();
    o.cover_dir = Some(String::new());
    let once = o.validated();
    let first = valid(&once);
    let copy = Options {
        source: first.source,
        source_endpoint: first.source_endpoint.clone(),
        output: first.output,
        offset_ms: first.offset_ms,
        max_chars: first.max_chars,
        alignment: first.alignment,
        subtitle: first.subtitle,
        inactive_opacity: first.inactive_opacity,
        cover_dir: first.cover_dir.clone(),
        current_cover: first.current_cover.clone(),
        waybar_signal: first.waybar_signal,
    };
    let twice = copy.validated();
    let second = valid(&twice);
    assert_eq!(second.source_endpoint, first.source_endpoint);
    assert_eq!(second.cover_dir, first.cover_dir);
}

#[test]
fn failed_merge_is_passed_on() {
    assert_eq!(error(Options::updated(Err("bad field".to_owned()))), "bad field");
    assert!(Options::updated(Ok(Options::default())).is_ok());
}

#[test]
fn endpoint_hosts_are_read_by_the_uri_parser() {
    assert_eq!(endpoint_host("http://LocalHost:14558"), Some("LocalHost".to_owned()));
    assert_eq!(endpoint_host("http://[::1]:80/x"), Some("[::1]".to_owned()));
    assert_eq!(endpoint_host("/path/only"), None);
}

#[test]
fn patches_must_be_objects() {
    assert!(check_patch(&Json::Object(Vec::new())).is_ok());
    assert_eq!(check_patch(&Json::Number("1".to_owned())), Err("configuration must be an object".to_owned()));
    assert_eq!(check_patch(&Json::Array(Vec::new())), Err("configuration must be an object".to_owned()));
}
