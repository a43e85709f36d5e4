use bar_lyrics::cli::{parse, CliAction, Launch};
use bar_lyrics::options::{Alignment, Control, OutputKind, SubtitleMode};

fn args(list: &[&str]) -> Vec<String> {
    list.iter().map(|a| a.to_string()).collect()
}

fn run(list: &[&str]) -> Launch {
    match parse(&args(list)) {
        Ok(CliAction::Run(launch)) => launch,
        Ok(CliAction::Help) => panic!("unexpected help"),
        Err(e) => panic!("unexpected error: {e}"),
    }
}

fn fail(list: &[&str]) -> String {
    match parse(&args(list)) {
        Err(e) => e,
        _ => panic!("expected an error"),
    }
}

#[test]
fn cli_reads_every_option() {
    let l = run(&[
        "--source", "splayer", "--base-url", "http://h:1//", "--output", "waybar", "--offset-ms",
        "-250", "--max-chars", "40", "--align", "end", "--subtitle", "romanization",
        "--inactive-opacity", "60", "--cover-dir", "/tmp/c", "--current-cover", "/run/c.jpg",
        "--waybar-signal", "8", "--once", "--control", "toggle",
    ]);
    assert_eq!(l.options.source_endpoint, "http://h:1");
    assert!(l.options.output == OutputKind::Waybar);
    assert_eq!(l.options.offset_ms, -250);
    assert_eq!(l.options.max_chars, 40);
    assert!(l.options.alignment == Alignment::End);
    assert!(l.options.subtitle == SubtitleMode::Romanization);
    assert_eq!(l.options.inactive_opacity, 60);
    assert_eq!(l.options.cover_dir.as_deref(), Some("/tmp/c"));
    assert_eq!(l.options.current_cover.as_deref(), Some("/run/c.jpg"));
    assert_eq!(l.options.waybar_signal, Some(8));
    assert!(l.once);
    assert_eq!(l.control, Some(Control::Toggle));
}

#[test]
fn cli_clamps_sizes() {
    let l = run(&["--max-chars", "5", "--inactive-opacity", "99"]);
    assert_eq!(l.options.max_chars, 12);
    assert_eq!(l.options.inactive_opacity, 90);
    let l = run(&["--max-chars", "500", "--inactive-opacity", "1"]);
    assert_eq!(l.options.max_chars, 80);
    assert_eq!(l.options.inactive_opacity, 10);
}

#[test]
fn cli_defaults_without_arguments() {
    let l = run(&[]);
    assert_eq!(l.options.source_endpoint, "http://127.0.0.1:14558");
    assert!(!l.once);
    assert!(l.control.is_none());
}

#[test]
fn cli_help() {
    assert!(matches!(parse(&args(&["--once", "-h", "--bogus"])), Ok(CliAction::Help)));
    assert!(matches!(parse(&args(&["--help"])), Ok(CliAction::Help)));
}

#[test]
fn cli_errors() {
    assert_eq!(fail(&["--bogus"]), "unknown argument: --bogus");
    assert_eq!(fail(&["--control", "stop"]), "--control needs play, pause, toggle, previous, or next");
    assert_eq!(fail(&["--source", "vlc"]), "--source needs splayer");
    assert_eq!(fail(&["--source-endpoint"]), "--source-endpoint needs a value");
    assert_eq!(fail(&["--output", "csv"]), "--output needs json or waybar");
    assert_eq!(fail(&["--offset-ms"]), "--offset-ms needs a value");
    assert_eq!(fail(&["--offset-ms", "x"]), "invalid --offset-ms");
    assert_eq!(fail(&["--max-chars", "-1"]), "invalid --max-chars");
    assert_eq!(fail(&["--align", "middle"]), "--align needs start or end");
    assert_eq!(fail(&["--subtitle"]), "--subtitle needs auto, translation, romanization, or hidden");
    assert_eq!(fail(&["--inactive-opacity", "300"]), "invalid --inactive-opacity");
    assert_eq!(fail(&["--cover-dir"]), "--cover-dir needs a path");
    assert_eq!(fail(&["--current-cover"]), "--current-cover needs a path");
    assert_eq!(fail(&["--waybar-signal", "31"]), "--waybar-signal needs a value from 1 to 30");
    assert_eq!(fail(&["--waybar-signal", "256"]), "invalid --waybar-signal");
    assert_eq!(fail(&["--waybar-signal"]), "--waybar-signal needs a value");
}
