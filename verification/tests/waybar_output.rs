use bar_lyrics::engine::Frame;
use bar_lyrics::options::Alignment;
use bar_lyrics::waybar::{ancestor_step, escape_markup, line_field, AncestorStep, Payload, Waybar};

fn frame(visible: bool, playing: bool, fallback: &str) -> Frame {
    Frame {
        visible,
        playing,
        title: "A & B".to_owned(),
        artist: "<Singer>".to_owned(),
        source: "SPlayer".to_owned(),
        cover_path: "/tmp/c.jpg".to_owned(),
        fallback_text: fallback.to_owned(),
        alignment: Alignment::Start,
        line: None,
        transition: None,
    }
}

#[test]
fn markup_is_escaped() {
    assert_eq!(escape_markup("a < b & 'c' > \"d\""), "a &lt; b &amp; &apos;c&apos; &gt; &quot;d&quot;");
    assert_eq!(escape_markup("plain 歌"), "plain 歌");
}

#[test]
fn hidden_frames_print_the_hidden_class() {
    let p = Payload::from_frame(&frame(false, false, ""), String::new());
    assert_eq!(p.text, "");
    assert_eq!(p.tooltip, "");
    assert_eq!(p.class, vec!["hidden".to_owned()]);
    assert_eq!(p.alt, "hidden");
}

#[test]
fn fallback_frames_print_the_escaped_title() {
    let p = Payload::from_frame(&frame(true, true, "A & B"), "unused".to_owned());
    assert_eq!(p.text, "A &amp; B");
    assert_eq!(p.tooltip, "A &amp; B — &lt;Singer&gt;\rSPlayer");
    assert_eq!(p.class, vec!["playing".to_owned(), "fallback".to_owned()]);
    assert_eq!(p.alt, "playing");
    let p = Payload::from_frame(&frame(true, false, "x"), String::new());
    assert_eq!(p.alt, "paused");
}

#[test]
fn waybar_signals_cover_changes_and_skips_repeats() {
    let mut w = Waybar::new(45, Some(8));
    let f = frame(true, true, "x");
    assert_eq!(w.cover_signal(&f), Some(8));
    assert_eq!(w.cover_signal(&f), None);
    let p = Payload::from_frame(&f, String::new());
    assert!(w.should_print(&p));
    w.printed(p);
    let again = Payload::from_frame(&f, String::new());
    assert!(!w.should_print(&again));
    let mut quiet = Waybar::new(45, None);
    assert_eq!(quiet.cover_signal(&f), None);
}

#[test]
fn process_status_leads_to_waybar() {
    let status = "Name:\twaybar\nUmask:\t0022\nPPid:\t1\n";
    assert_eq!(ancestor_step(status), AncestorStep::Found);
    let status = "Name:\tbar-lyrics\nPPid:\t 4242 \n";
    assert_eq!(ancestor_step(status), AncestorStep::Parent(4242));
    let status = "Name:\tinit\nPPid:\t0\n";
    assert_eq!(ancestor_step(status), AncestorStep::Stop);
    assert_eq!(ancestor_step("garbage"), AncestorStep::Stop);
    assert_eq!(line_field("a\r\nName:\tx\r\n", "Name:\t"), Some("x".to_owned()));
}

#[test]
fn escaped_text_round_trips() {
    let text = "a<b & 'c' \"d\" > &amp;";
    let escaped = escape_markup(text);
    assert_eq!(escaped, "a&lt;b &amp; &apos;c&apos; &quot;d&quot; &gt; &amp;amp;");
    let back = escaped
        .replace("&lt;", "<")
        .replace("&gt;", ">")
        .replace("&apos;", "'")
        .replace("&quot;", "\"")
        .replace("&amp;", "&");
    assert_eq!(back, text);
}
