//! The command line of the legacy entry point.
use vstd::prelude::*;

use crate::options::{
    default_options, Alignment, Control, Options, OptionsView, OutputKind, SourceKind,
    SubtitleMode,
};
use crate::source::string_views;
use crate::text::{
    chars_of, concat2, parse_i64, parse_unsigned, signed_text, string_from_chars, text_is,
    trim_end_char, trim_end_of, unsigned_text,
};

verus! {

/// What the command line asks for, the texts taken as characters.
pub struct LaunchView {
    pub options: OptionsView,
    pub once: bool,
    pub control: Option<Control>,
}

/// A run: the settings, whether to print one frame and stop, and a playback
/// command to send in place of running.
pub struct Launch {
    pub options: Options,
    pub once: bool,
    pub control: Option<Control>,
}

impl View for Launch {
    type V = LaunchView;

    open spec fn view(&self) -> LaunchView {
        LaunchView { options: self.options@, once: self.once, control: self.control }
    }
}

/// What the command line asks for.
pub enum CliAction {
    /// Print the usage and stop.
    Help,
    Run(Launch),
}

pub open spec fn control_word(w: Seq<char>) -> Option<Control> {
    if w == "play"@ {
        Some(Control::Play)
    } else if w == "pause"@ {
        Some(Control::Pause)
    } else if w == "toggle"@ {
        Some(Control::Toggle)
    } else if w == "previous"@ {
        Some(Control::Previous)
    } else if w == "next"@ {
        Some(Control::Next)
    } else {
        None
    }
}

pub open spec fn output_word(w: Seq<char>) -> Option<OutputKind> {
    if w == "json"@ {
        Some(OutputKind::Json)
    } else if w == "waybar"@ {
        Some(OutputKind::Waybar)
    } else {
        None
    }
}

pub open spec fn align_word(w: Seq<char>) -> Option<Alignment> {
    if w == "start"@ {
        Some(Alignment::Start)
    } else if w == "end"@ {
        Some(Alignment::End)
    } else {
        None
    }
}

pub open spec fn subtitle_word(w: Seq<char>) -> Option<SubtitleMode> {
    if w == "auto"@ {
        Some(SubtitleMode::Auto)
    } else if w == "translation"@ {
        Some(SubtitleMode::Translation)
    } else if w == "romanization"@ {
        Some(SubtitleMode::Romanization)
    } else if w == "hidden"@ {
        Some(SubtitleMode::Hidden)
    } else {
        None
    }
}

fn control_of(w: &str) -> (r: Option<Control>)
    ensures
        r == control_word(w@),
{
    if text_is(w, "play") {
        Some(Control::Play)
    } else if text_is(w, "pause") {
        Some(Control::Pause)
    } else if text_is(w, "toggle") {
        Some(Control::Toggle)
    } else if text_is(w, "previous") {
        Some(Control::Previous)
    } else if text_is(w, "next") {
        Some(Control::Next)
    } else {
        None
    }
}

fn output_of(w: &str) -> (r: Option<OutputKind>)
    ensures
        r == output_word(w@),
{
    if text_is(w, "json") {
        Some(OutputKind::Json)
    } else if text_is(w, "waybar") {
        Some(OutputKind::Waybar)
    } else {
        None
    }
}

fn align_of(w: &str) -> (r: Option<Alignment>)
    ensures
        r == align_word(w@),
{
    if text_is(w, "start") {
        Some(Alignment::Start)
    } else if text_is(w, "end") {
        Some(Alignment::End)
    } else {
        None
    }
}

fn subtitle_of(w: &str) -> (r: Option<SubtitleMode>)
    ensures
        r == subtitle_word(w@),
{
    if text_is(w, "auto") {
        Some(SubtitleMode::Auto)
    } else if text_is(w, "translation") {
        Some(SubtitleMode::Translation)
    } else if text_is(w, "romanization") {
        Some(SubtitleMode::Romanization)
    } else if text_is(w, "hidden") {
        Some(SubtitleMode::Hidden)
    } else {
        None
    }
}

/// `v` kept within `lo..=hi`.
pub open spec fn clamped(v: int, lo: int, hi: int) -> int {
    if v < lo {
        lo
    } else if v > hi {
        hi
    } else {
        v
    }
}

/// Settings with one field changed.
pub open spec fn with_source(o: OptionsView, source: SourceKind) -> OptionsView {
    OptionsView { source, ..o }
}

pub open spec fn with_endpoint(o: OptionsView, endpoint: Seq<char>) -> OptionsView {
    OptionsView { source_endpoint: endpoint, ..o }
}

pub open spec fn with_output(o: OptionsView, output: OutputKind) -> OptionsView {
    OptionsView { output, ..o }
}

pub open spec fn with_offset(o: OptionsView, offset_ms: i64) -> OptionsView {
    OptionsView { offset_ms, ..o }
}

pub open spec fn with_max_chars(o: OptionsView, max_chars: usize) -> OptionsView {
    OptionsView { max_chars, ..o }
}

pub open spec fn with_alignment(o: OptionsView, alignment: Alignment) -> OptionsView {
    OptionsView { alignment, ..o }
}

pub open spec fn with_subtitle(o: OptionsView, subtitle: SubtitleMode) -> OptionsView {
    OptionsView { subtitle, ..o }
}

pub open spec fn with_opacity(o: OptionsView, inactive_opacity: u8) -> OptionsView {
    OptionsView { inactive_opacity, ..o }
}

pub open spec fn with_cover_dir(o: OptionsView, cover_dir: Seq<char>) -> OptionsView {
    OptionsView { cover_dir: Some(cover_dir), ..o }
}

pub open spec fn with_current_cover(o: OptionsView, current_cover: Seq<char>) -> OptionsView {
    OptionsView { current_cover: Some(current_cover), ..o }
}

pub open spec fn with_signal(o: OptionsView, signal: u8) -> OptionsView {
    OptionsView { waybar_signal: Some(signal), ..o }
}

pub open spec fn with_options(l: LaunchView, options: OptionsView) -> LaunchView {
    LaunchView { options, ..l }
}

/// The run asked for once all arguments are read: the endpoint loses its
/// trailing slashes.
pub open spec fn finished(l: LaunchView) -> LaunchView {
    with_options(l, with_endpoint(l.options, trim_end_of(l.options.source_endpoint, '/')))
}

/// What the arguments from `i` on ask for, given what those before asked
/// for: a run, the usage (`None`), or an error message.
pub open spec fn parse_from(args: Seq<Seq<char>>, i: int, l: LaunchView) -> Result<
    Option<LaunchView>,
    Seq<char>,
>
    decreases args.len() - i,
{
    if i < 0 || i >= args.len() {
        Ok(Some(finished(l)))
    } else {
        let a = args[i];
        let has_value = i + 1 < args.len();
        let v = args[i + 1];
        let o = l.options;
        if a == "--control"@ {
            if has_value && control_word(v) is Some {
                parse_from(args, i + 2, LaunchView { control: control_word(v), ..l })
            } else {
                Err("--control needs play, pause, toggle, previous, or next"@)
            }
        } else if a == "--once"@ {
            parse_from(args, i + 1, LaunchView { once: true, ..l })
        } else if a == "--source"@ {
            if has_value && v == "splayer"@ {
                parse_from(args, i + 2, with_options(l, with_source(o, SourceKind::Splayer)))
            } else {
                Err("--source needs splayer"@)
            }
        } else if a == "--source-endpoint"@ || a == "--base-url"@ {
            if has_value {
                parse_from(args, i + 2, with_options(l, with_endpoint(o, v)))
            } else {
                Err("--source-endpoint needs a value"@)
            }
        } else if a == "--output"@ {
            if has_value && output_word(v) is Some {
                parse_from(args, i + 2, with_options(l, with_output(o, output_word(v)->Some_0)))
            } else {
                Err("--output needs json or waybar"@)
            }
        } else if a == "--offset-ms"@ {
            if !has_value {
                Err("--offset-ms needs a value"@)
            } else {
                match signed_text(v) {
                    Some(n) => if i64::MIN <= n <= i64::MAX {
                        parse_from(args, i + 2, with_options(l, with_offset(o, n as i64)))
                    } else {
                        Err("invalid --offset-ms"@)
                    },
                    None => Err("invalid --offset-ms"@),
                }
            }
        } else if a == "--max-chars"@ {
            if !has_value {
                Err("--max-chars needs a value"@)
            } else {
                match unsigned_text(v) {
                    Some(n) => if n <= usize::MAX {
                        parse_from(
                            args,
                            i + 2,
                            with_options(l, with_max_chars(o, clamped(n as int, 12, 80) as usize)),
                        )
                    } else {
                        Err("invalid --max-chars"@)
                    },
                    None => Err("invalid --max-chars"@),
                }
            }
        } else if a == "--align"@ {
            if has_value && align_word(v) is Some {
                parse_from(args, i + 2, with_options(l, with_alignment(o, align_word(v)->Some_0)))
            } else {
                Err("--align needs start or end"@)
            }
        } else if a == "--subtitle"@ {
            if has_value && subtitle_word(v) is Some {
                parse_from(
                    args,
                    i + 2,
                    with_options(l, with_subtitle(o, subtitle_word(v)->Some_0)),
                )
            } else {
                Err("--subtitle needs auto, translation, romanization, or hidden"@)
            }
        } else if a == "--inactive-opacity"@ {
            if !has_value {
                Err("--inactive-opacity needs a value"@)
            } else {
                match unsigned_text(v) {
                    Some(n) => if n <= 255 {
                        parse_from(
                            args,
                            i + 2,
                            with_options(l, with_opacity(o, clamped(n as int, 10, 90) as u8)),
                        )
                    } else {
                        Err("invalid --inactive-opacity"@)
                    },
                    None => Err("invalid --inactive-opacity"@),
                }
            }
        } else if a == "--cover-dir"@ {
            if has_value {
                parse_from(args, i + 2, with_options(l, with_cover_dir(o, v)))
            } else {
                Err("--cover-dir needs a path"@)
            }
        } else if a == "--current-cover"@ {
            if has_value {
                parse_from(args, i + 2, with_options(l, with_current_cover(o, v)))
            } else {
                Err("--current-cover needs a path"@)
            }
        } else if a == "--waybar-signal"@ {
            if !has_value {
                Err("--waybar-signal needs a value"@)
            } else {
                match unsigned_text(v) {
                    Some(n) => if n > 255 {
                        Err("invalid --waybar-signal"@)
                    } else if 1 <= n <= 30 {
                        parse_from(args, i + 2, with_options(l, with_signal(o, n as u8)))
                    } else {
                        Err("--waybar-signal needs a value from 1 to 30"@)
                    },
                    None => Err("invalid --waybar-signal"@),
                }
            }
        } else if a == "-h"@ || a == "--help"@ {
            Ok(None)
        } else {
            Err("unknown argument: "@ + a)
        }
    }
}

/// What the arguments ask for, starting from the default settings.
pub open spec fn parse_spec(args: Seq<Seq<char>>) -> Result<Option<LaunchView>, Seq<char>> {
    parse_from(args, 0, LaunchView { options: default_options(), once: false, control: None })
}

/// A parse outcome taken by its view.
pub open spec fn action_view(r: Result<CliAction, String>) -> Result<Option<LaunchView>, Seq<char>> {
    match r {
        Ok(CliAction::Help) => Ok(None),
        Ok(CliAction::Run(launch)) => Ok(Some(launch@)),
        Err(e) => Err(e@),
    }
}

/// The bounds the command line keeps: characters 12 to 80, opacity 10 to 90,
/// a signal from 1 to 30.
pub open spec fn within_cli_bounds(o: OptionsView) -> bool {
    &&& 12 <= o.max_chars <= 80
    &&& 10 <= o.inactive_opacity <= 90
    &&& (o.waybar_signal matches Some(signal) ==> 1 <= signal <= 30)
}

proof fn lemma_trim_end_of_last(s: Seq<char>, c: char)
    ensures
        trim_end_of(s, c).len() > 0 ==> trim_end_of(s, c).last() != c,
    decreases s.len(),
{
    if s.len() > 0 && s.last() == c {
        lemma_trim_end_of_last(s.drop_last(), c);
    }
}

proof fn lemma_parse_from_bounds(args: Seq<Seq<char>>, i: int, l: LaunchView)
    requires
        within_cli_bounds(l.options),
    ensures
        parse_from(args, i, l) matches Ok(Some(r)) ==> within_cli_bounds(r.options) && (
        r.options.source_endpoint.len() > 0 ==> r.options.source_endpoint.last() != '/'),
    decreases args.len() - i,
{
    if i < 0 || i >= args.len() {
        lemma_trim_end_of_last(l.options.source_endpoint, '/');
    } else {
        let v = args[i + 1];
        let o = l.options;
        if i + 1 < args.len() {
            lemma_parse_from_bounds(args, i + 2, LaunchView { control: control_word(v), ..l });
            lemma_parse_from_bounds(args, i + 2, with_options(l, with_source(o, SourceKind::Splayer)));
            lemma_parse_from_bounds(args, i + 2, with_options(l, with_endpoint(o, v)));
            if output_word(v) is Some {
                lemma_parse_from_bounds(args, i + 2, with_options(l, with_output(o, output_word(v)->Some_0)));
            }
            if signed_text(v) is Some {
                lemma_parse_from_bounds(args, i + 2, with_options(l, with_offset(o, signed_text(v)->Some_0 as i64)));
            }
            if unsigned_text(v) is Some {
                let n = unsigned_text(v)->Some_0;
                lemma_parse_from_bounds(args, i + 2, with_options(l, with_max_chars(o, clamped(n as int, 12, 80) as usize)));
                lemma_parse_from_bounds(args, i + 2, with_options(l, with_opacity(o, clamped(n as int, 10, 90) as u8)));
                if 1 <= n <= 30 {
                    lemma_parse_from_bounds(args, i + 2, with_options(l, with_signal(o, n as u8)));
                }
            }
            if align_word(v) is Some {
                lemma_parse_from_bounds(args, i + 2, with_options(l, with_alignment(o, align_word(v)->Some_0)));
            }
            if subtitle_word(v) is Some {
                lemma_parse_from_bounds(args, i + 2, with_options(l, with_subtitle(o, subtitle_word(v)->Some_0)));
            }
            lemma_parse_from_bounds(args, i + 2, with_options(l, with_cover_dir(o, v)));
            lemma_parse_from_bounds(args, i + 2, with_options(l, with_current_cover(o, v)));
        }
        lemma_parse_from_bounds(args, i + 1, LaunchView { once: true, ..l });
    }
}

/// A run that the command line asks for keeps the characters within 12 to
/// 80, the opacity within 10 to 90 and the signal within 1 to 30, and its
/// endpoint ends in no slash.
pub proof fn parsed_run_is_within_bounds(args: Seq<Seq<char>>)
    ensures
        parse_spec(args) matches Ok(Some(r)) ==> within_cli_bounds(r.options) && (
        r.options.source_endpoint.len() > 0 ==> r.options.source_endpoint.last() != '/'),
{
    lemma_parse_from_bounds(
        args,
        0,
        LaunchView { options: default_options(), once: false, control: None },
    );
}

/// Reads the command line (the arguments after the program's name).
#[verifier::rlimit(40)]
pub fn parse(args: &Vec<String>) -> (r: Result<CliAction, String>)
    ensures
        action_view(r) == parse_spec(string_views(args@)),
{
    let ghost a = string_views(args@);
    let mut launch = Launch { options: Options::default(), once: false, control: None };
    let mut i: usize = 0;
    while i < args.len()
        invariant
            i <= args@.len(),
            a == string_views(args@),
            parse_spec(a) == parse_from(a, i as int, launch@),
        decreases args@.len() - i,
    {
        let arg = args[i].as_str();
        let has_value = i + 1 < args.len();
        assert(a[i as int] == arg@);
        let ghost l = launch@;
        let ghost rest = parse_from(a, i as int, l);
        if text_is(arg, "--control") {
            if has_value {
                assert(a[i + 1] == args@[i + 1]@);
                if let Some(c) = control_of(args[i + 1].as_str()) {
                    launch.control = Some(c);
                    assert(launch@ == LaunchView { control: Some(c), ..l });
                    i = i + 2;
                    continue;
                }
            }
            return Err("--control needs play, pause, toggle, previous, or next".to_owned());
        } else if text_is(arg, "--once") {
            launch.once = true;
            assert(launch@ == LaunchView { once: true, ..l });
            i = i + 1;
            continue;
        } else if text_is(arg, "--source") {
            if has_value {
                assert(a[i + 1] == args@[i + 1]@);
                if text_is(args[i + 1].as_str(), "splayer") {
                    launch.options.source = SourceKind::Splayer;
                    assert(launch@ == with_options(l, with_source(l.options, SourceKind::Splayer)));
                    i = i + 2;
                    continue;
                }
            }
            return Err("--source needs splayer".to_owned());
        } else if text_is(arg, "--source-endpoint") || text_is(arg, "--base-url") {
            if has_value {
                assert(a[i + 1] == args@[i + 1]@);
                launch.options.source_endpoint = args[i + 1].clone();
                assert(launch@ == with_options(l, with_endpoint(l.options, a[i + 1])));
                i = i + 2;
                continue;
            }
            return Err("--source-endpoint needs a value".to_owned());
        } else if text_is(arg, "--output") {
            if has_value {
                assert(a[i + 1] == args@[i + 1]@);
                if let Some(output) = output_of(args[i + 1].as_str()) {
                    launch.options.output = output;
                    assert(launch@ == with_options(l, with_output(l.options, output)));
                    i = i + 2;
                    continue;
                }
            }
            return Err("--output needs json or waybar".to_owned());
        } else if text_is(arg, "--offset-ms") {
            if !has_value {
                return Err("--offset-ms needs a value".to_owned());
            }
            assert(a[i + 1] == args@[i + 1]@);
            match parse_i64(args[i + 1].as_str()) {
                Some(n) => {
                    launch.options.offset_ms = n;
                    assert(launch@ == with_options(l, with_offset(l.options, n)));
                    i = i + 2;
                    continue;
                },
                None => {
                    return Err("invalid --offset-ms".to_owned());
                },
            }
        } else if text_is(arg, "--max-chars") {
            if !has_value {
                return Err("--max-chars needs a value".to_owned());
            }
            assert(a[i + 1] == args@[i + 1]@);
            match parse_unsigned(args[i + 1].as_str(), usize::MAX as u64) {
                Some(n) => {
                    let max_chars: usize = if n < 12 {
                        12
                    } else if n > 80 {
                        80
                    } else {
                        n as usize
                    };
                    launch.options.max_chars = max_chars;
                    assert(launch@ == with_options(l, with_max_chars(l.options, max_chars)));
                    i = i + 2;
                    continue;
                },
                None => {
                    return Err("invalid --max-chars".to_owned());
                },
            }
        } else if text_is(arg, "--align") {
            if has_value {
                assert(a[i + 1] == args@[i + 1]@);
                if let Some(alignment) = align_of(args[i + 1].as_str()) {
                    launch.options.alignment = alignment;
                    assert(launch@ == with_options(l, with_alignment(l.options, alignment)));
                    i = i + 2;
                    continue;
                }
            }
            return Err("--align needs start or end".to_owned());
        } else if text_is(arg, "--subtitle") {
            if has_value {
                assert(a[i + 1] == args@[i + 1]@);
                if let Some(subtitle) = subtitle_of(args[i + 1].as_str()) {
                    launch.options.subtitle = subtitle;
                    assert(launch@ == with_options(l, with_subtitle(l.options, subtitle)));
                    i = i + 2;
                    continue;
                }
            }
            return Err("--subtitle needs auto, translation, romanization, or hidden".to_owned());
        } else if text_is(arg, "--inactive-opacity") {
            if !has_value {
                return Err("--inactive-opacity needs a value".to_owned());
            }
            assert(a[i + 1] == args@[i + 1]@);
            match parse_unsigned(args[i + 1].as_str(), 255) {
                Some(n) => {
                    let opacity: u8 = if n < 10 {
                        10
                    } else if n > 90 {
                        90
                    } else {
                        n as u8
                    };
                    launch.options.inactive_opacity = opacity;
                    assert(launch@ == with_options(l, with_opacity(l.options, opacity)));
                    i = i + 2;
                    continue;
                },
                None => {
                    return Err("invalid --inactive-opacity".to_owned());
                },
            }
        } else if text_is(arg, "--cover-dir") {
            if has_value {
                assert(a[i + 1] == args@[i + 1]@);
                launch.options.cover_dir = Some(args[i + 1].clone());
                assert(launch@ == with_options(l, with_cover_dir(l.options, a[i + 1])));
                i = i + 2;
                continue;
            }
            return Err("--cover-dir needs a path".to_owned());
        } else if text_is(arg, "--current-cover") {
            if has_value {
                assert(a[i + 1] == args@[i + 1]@);
                launch.options.current_cover = Some(args[i + 1].clone());
                assert(launch@ == with_options(l, with_current_cover(l.options, a[i + 1])));
                i = i + 2;
                continue;
            }
            return Err("--current-cover needs a path".to_owned());
        } else if text_is(arg, "--waybar-signal") {
            if !has_value {
                return Err("--waybar-signal needs a value".to_owned());
            }
            assert(a[i + 1] == args@[i + 1]@);
            match parse_unsigned(args[i + 1].as_str(), 255) {
                Some(n) => {
                    if !(1 <= n && n <= 30) {
                        return Err("--waybar-signal needs a value from 1 to 30".to_owned());
                    }
                    launch.options.waybar_signal = Some(n as u8);
                    assert(launch@ == with_options(l, with_signal(l.options, n as u8)));
                    i = i + 2;
                    continue;
                },
                None => {
                    return Err("invalid --waybar-signal".to_owned());
                },
            }
        } else if text_is(arg, "-h") || text_is(arg, "--help") {
            return Ok(CliAction::Help);
        } else {
            return Err(concat2("unknown argument: ", arg));
        }
    }
    let endpoint = chars_of(launch.options.source_endpoint.as_str());
    let trimmed = trim_end_char(endpoint.as_slice(), '/');
    launch.options.source_endpoint = string_from_chars(trimmed.as_slice());
    Ok(CliAction::Run(launch))
}

} // verus!
