use bar_lyrics::options::{Options, OutputKind};
use bar_lyrics::runtime::{reconfigure, Schedule, TickStep};

#[test]
fn reconfigure_rebuilds_only_what_changed() {
    let current = Options::default();
    let same = Options::default();
    let r = reconfigure(&current, &same, true);
    assert!(!r.rebuild_source && !r.reset_cover_cache && !r.recreate_output);
    let r = reconfigure(&current, &same, false);
    assert!(r.rebuild_source);
    let mut moved = Options::default();
    moved.source_endpoint = "http://elsewhere:1".to_owned();
    moved.cover_dir = Some("/c".to_owned());
    let r = reconfigure(&current, &moved, true);
    assert!(r.rebuild_source && !r.reset_cover_cache);
    let mut covers = Options::default();
    covers.cover_dir = Some("/c".to_owned());
    let r = reconfigure(&current, &covers, true);
    assert!(!r.rebuild_source && r.reset_cover_cache && !r.recreate_output);
    let mut output = Options::default();
    output.output = OutputKind::Waybar;
    output.max_chars = 50;
    let r = reconfigure(&current, &output, true);
    assert!(r.recreate_output && !r.rebuild_source);
    let mut display = Options::default();
    display.max_chars = 50;
    let r = reconfigure(&current, &display, true);
    assert!(!r.rebuild_source && !r.reset_cover_cache && !r.recreate_output);
}

#[test]
fn schedule_refreshes_on_change_or_every_second() {
    let mut s = Schedule::new(0);
    assert_eq!(s.step(&Ok(false), 0), TickStep::Refresh);
    assert_eq!(s.next_resync_ms, 1000);
    assert_eq!(s.step(&Ok(false), 500), TickStep::Idle);
    assert_eq!(s.step(&Ok(true), 600), TickStep::Refresh);
    assert_eq!(s.next_resync_ms, 1600);
    assert_eq!(s.step(&Err("down".to_owned()), 700), TickStep::Failed);
    assert_eq!(s.step(&Ok(false), 1600), TickStep::Refresh);
}

#[test]
fn failures_clear_playback_after_two_seconds() {
    let mut s = Schedule::new(0);
    assert!(!s.settle(false, 100));
    assert!(!s.settle(false, 2099));
    assert!(s.settle(false, 2100));
    assert!(!s.settle(true, 2200));
    assert!(!s.settle(false, 3000));
    assert!(s.settle(false, 5000));
}
