//! Options that configure the sources, the display and the outputs.
use vstd::prelude::*;

use crate::json::Json;
use crate::text::{
    chars_of, lemma_trim_end_of_idempotent, string_from_chars, text_is, trim_end_char, trim_end_of,
};

verus! {

/// A playback command.
#[derive(Clone, Copy, PartialEq, Eq, Structural, Debug)]
pub enum Control {
    Play,
    Pause,
    Toggle,
    Previous,
    Next,
}

/// Where playback data comes from.
#[derive(Clone, Copy, PartialEq, Eq, Structural, Debug)]
pub enum SourceKind {
    Splayer,
}

/// How frames are written.
#[derive(Clone, Copy, PartialEq, Eq, Structural, Debug)]
pub enum OutputKind {
    Json,
    Waybar,
}

/// Which end of an overlong plain line is kept.
#[derive(Clone, Copy, PartialEq, Eq, Structural, Debug)]
pub enum Alignment {
    Start,
    End,
}

impl Alignment {
    /// Whether the end of the line is kept.
    pub fn is_end(self) -> (r: bool)
        ensures
            r == (self == Alignment::End),
    {
        self == Alignment::End
    }
}

/// Which secondary text is shown below a lyric line.
#[derive(Clone, Copy, PartialEq, Eq, Structural, Debug)]
pub enum SubtitleMode {
    Auto,
    Translation,
    Romanization,
    Hidden,
}

/// The parts of a parsed URI that the options and the sources read.
pub struct UriParts {
    pub scheme: Option<String>,
    pub host: Option<String>,
    pub port: Option<u16>,
}

/// An optional text taken by its characters.
pub open spec fn text_of(o: Option<String>) -> Option<Seq<char>> {
    match o {
        Some(s) => Some(s@),
        None => None,
    }
}

impl View for UriParts {
    type V = (Option<Seq<char>>, Option<Seq<char>>, Option<u16>);

    open spec fn view(&self) -> Self::V {
        (text_of(self.scheme), text_of(self.host), self.port)
    }
}

/// What `http::Uri`'s parser makes of a text: its scheme, host and port, or the
/// parse error's message.
pub uninterp spec fn parsed_uri(text: Seq<char>) -> Result<
    (Option<Seq<char>>, Option<Seq<char>>, Option<u16>),
    Seq<char>,
>;

/// Parses `text` with `http::Uri`'s `FromStr` (as re-exported by `tungstenite`) and
/// reads `scheme_str`, `host` and `port_u16` off the result; an error becomes its
/// `Display` text.  The contract only ties the result to `parsed_uri`: what the
/// parser accepts is `http`'s own grammar and is not restated here.
#[verifier::external_body]
pub(crate) fn parse_uri(text: &str) -> (r: Result<UriParts, String>)
    ensures
        match (r, parsed_uri(text@)) {
            (Ok(parts), Ok(expected)) => parts@ == expected,
            (Err(error), Err(expected)) => error@ == expected,
            _ => false,
        },
{
    match text.parse::<tungstenite::http::Uri>() {
        Ok(uri) => Ok(UriParts {
            scheme: uri.scheme_str().map(str::to_owned),
            host: uri.host().map(str::to_owned),
            port: uri.port_u16(),
        }),
        Err(error) => Err(error.to_string()),
    }
}

/// The host of an endpoint URL, as `http::Uri` reads it.
pub fn endpoint_host(endpoint: &str) -> (r: Option<String>)
    ensures
        text_of(r) == match parsed_uri(endpoint@) {
            Ok(parts) => parts.1,
            Err(_) => None,
        },
{
    match parse_uri(endpoint) {
        Ok(parts) => parts.host,
        Err(_) => None,
    }
}

/// The sidecar's settings.
#[derive(Clone)]
pub struct Options {
    pub source: SourceKind,
    pub source_endpoint: String,
    pub output: OutputKind,
    pub offset_ms: i64,
    pub max_chars: usize,
    pub alignment: Alignment,
    pub subtitle: SubtitleMode,
    pub inactive_opacity: u8,
    pub cover_dir: Option<String>,
    pub current_cover: Option<String>,
    pub waybar_signal: Option<u8>,
}

/// The settings with their texts taken as characters.
pub struct OptionsView {
    pub source: SourceKind,
    pub source_endpoint: Seq<char>,
    pub output: OutputKind,
    pub offset_ms: i64,
    pub max_chars: usize,
    pub alignment: Alignment,
    pub subtitle: SubtitleMode,
    pub inactive_opacity: u8,
    pub cover_dir: Option<Seq<char>>,
    pub current_cover: Option<Seq<char>>,
    pub waybar_signal: Option<u8>,
}

impl View for Options {
    type V = OptionsView;

    open spec fn view(&self) -> OptionsView {
        OptionsView {
            source: self.source,
            source_endpoint: self.source_endpoint@,
            output: self.output,
            offset_ms: self.offset_ms,
            max_chars: self.max_chars,
            alignment: self.alignment,
            subtitle: self.subtitle,
            inactive_opacity: self.inactive_opacity,
            cover_dir: text_of(self.cover_dir),
            current_cover: text_of(self.current_cover),
            waybar_signal: self.waybar_signal,
        }
    }
}

/// The default endpoint of the local SPlayer API.
pub open spec fn default_endpoint() -> Seq<char> {
    "http://127.0.0.1:14558"@
}

/// The settings a fresh sidecar starts with.
pub open spec fn default_options() -> OptionsView {
    OptionsView {
        source: SourceKind::Splayer,
        source_endpoint: default_endpoint(),
        output: OutputKind::Json,
        offset_ms: 0,
        max_chars: 32,
        alignment: Alignment::Start,
        subtitle: SubtitleMode::Auto,
        inactive_opacity: 45,
        cover_dir: None,
        current_cover: None,
        waybar_signal: None,
    }
}

impl Default for Options {
    fn default() -> (r: Self)
        ensures
            r@ == default_options(),
    {
        Options {
            source: SourceKind::Splayer,
            source_endpoint: "http://127.0.0.1:14558".to_owned(),
            output: OutputKind::Json,
            offset_ms: 0,
            max_chars: 32,
            alignment: Alignment::Start,
            subtitle: SubtitleMode::Auto,
            inactive_opacity: 45,
            cover_dir: None,
            current_cover: None,
            waybar_signal: None,
        }
    }
}

/// An empty path means no path.
pub open spec fn path_or_none(path: Option<Seq<char>>) -> Option<Seq<char>> {
    match path {
        Some(p) => if p.len() == 0 {
            None
        } else {
            Some(p)
        },
        None => None,
    }
}

/// The settings with the endpoint's trailing slashes and the empty paths removed.
pub open spec fn normalized(o: OptionsView) -> OptionsView {
    OptionsView {
        source: o.source,
        source_endpoint: trim_end_of(o.source_endpoint, '/'),
        output: o.output,
        offset_ms: o.offset_ms,
        max_chars: o.max_chars,
        alignment: o.alignment,
        subtitle: o.subtitle,
        inactive_opacity: o.inactive_opacity,
        cover_dir: path_or_none(o.cover_dir),
        current_cover: path_or_none(o.current_cover),
        waybar_signal: o.waybar_signal,
    }
}

/// Every number lies in its accepted range.
pub open spec fn in_range(o: OptionsView) -> bool {
    &&& 12 <= o.max_chars <= 80
    &&& 10 <= o.inactive_opacity <= 90
    &&& -10000 <= o.offset_ms <= 10000
    &&& match o.waybar_signal {
        Some(signal) => 1 <= signal <= 30,
        None => true,
    }
}

/// A parsed endpoint that is an absolute HTTP(S) URL.
pub open spec fn is_http_url(parts: (Option<Seq<char>>, Option<Seq<char>>, Option<u16>)) -> bool {
    &&& (parts.0 == Some("http"@) || parts.0 == Some("https"@))
    &&& parts.1 is Some
}

pub open spec fn not_http_message() -> Seq<char> {
    "source_endpoint must be an absolute HTTP(S) URL"@
}

pub open spec fn out_of_range_message() -> Seq<char> {
    "configuration value out of range"@
}

/// The verdict on normalized settings, given what the URI parser made of their endpoint.
pub open spec fn checked_spec(
    n: OptionsView,
    uri: Result<(Option<Seq<char>>, Option<Seq<char>>, Option<u16>), Seq<char>>,
) -> Result<OptionsView, Seq<char>> {
    match uri {
        Err(e) => Err(e),
        Ok(parts) => if !is_http_url(parts) {
            Err(not_http_message())
        } else if !in_range(n) {
            Err(out_of_range_message())
        } else {
            Ok(n)
        },
    }
}

/// The verdict on settings: normalized, then checked.
pub open spec fn validated_spec(o: OptionsView) -> Result<OptionsView, Seq<char>> {
    let n = normalized(o);
    checked_spec(n, parsed_uri(n.source_endpoint))
}

/// A parse result taken by its view.
pub open spec fn uri_view(uri: Result<UriParts, String>) -> Result<
    (Option<Seq<char>>, Option<Seq<char>>, Option<u16>),
    Seq<char>,
> {
    match uri {
        Ok(parts) => Ok(parts@),
        Err(e) => Err(e@),
    }
}

/// The default settings are within range, and normalizing leaves them as they are.
pub proof fn defaults_are_in_range()
    ensures
        in_range(default_options()),
        normalized(default_options()) == default_options(),
{
    reveal_strlit("http://127.0.0.1:14558");
    assert(trim_end_of(default_endpoint(), '/') == default_endpoint());
}

/// Settings that are normalized, within range and with an absolute HTTP(S)
/// endpoint come back from validation as they are; so an empty patch merged
/// into valid settings gives them back.
pub proof fn valid_settings_validate_to_themselves(o: OptionsView)
    requires
        normalized(o) == o,
        in_range(o),
        parsed_uri(o.source_endpoint) matches Ok(parts) && is_http_url(parts),
    ensures
        validated_spec(o) == Ok::<OptionsView, Seq<char>>(o),
{
}

pub open spec fn patch_message() -> Seq<char> {
    "configuration must be an object"@
}

/// A configuration patch is merged only when it is an object.
pub fn check_patch(patch: &Json) -> (r: Result<(), String>)
    ensures
        r is Ok <==> patch is Object,
        r matches Err(message) ==> message@ == patch_message(),
{
    match patch {
        Json::Object(_) => Ok(()),
        _ => Err("configuration must be an object".to_owned()),
    }
}

/// Settings that validation accepts come back from a second validation unchanged.
pub proof fn validated_is_idempotent(o: OptionsView)
    requires
        validated_spec(o) is Ok,
    ensures
        validated_spec(validated_spec(o)->Ok_0) == validated_spec(o),
{
    let n = normalized(o);
    lemma_trim_end_of_idempotent(o.source_endpoint, '/');
    assert(normalized(n) == n);
}

/// A result of settings taken by its view.
pub open spec fn result_view(r: Result<Options, String>) -> Result<OptionsView, Seq<char>> {
    match r {
        Ok(o) => Ok(o@),
        Err(e) => Err(e@),
    }
}

fn path_or_none_exec(path: Option<String>) -> (r: Option<String>)
    ensures
        text_of(r) == path_or_none(text_of(path)),
{
    match path {
        Some(p) => if p.as_str().is_empty() {
            None
        } else {
            Some(p)
        },
        None => None,
    }
}

impl Options {
    /// The settings with the endpoint's trailing slashes and the empty paths removed.
    pub fn normalize(self) -> (r: Options)
        ensures
            r@ == normalized(self@),
    {
        let endpoint = chars_of(self.source_endpoint.as_str());
        let trimmed = trim_end_char(endpoint.as_slice(), '/');
        Options {
            source: self.source,
            source_endpoint: string_from_chars(trimmed.as_slice()),
            output: self.output,
            offset_ms: self.offset_ms,
            max_chars: self.max_chars,
            alignment: self.alignment,
            subtitle: self.subtitle,
            inactive_opacity: self.inactive_opacity,
            cover_dir: path_or_none_exec(self.cover_dir),
            current_cover: path_or_none_exec(self.current_cover),
            waybar_signal: self.waybar_signal,
        }
    }

    /// Whether every number lies in its accepted range.
    pub fn is_in_range(&self) -> (r: bool)
        ensures
            r == in_range(self@),
    {
        let signal_ok = match self.waybar_signal {
            Some(signal) => 1 <= signal && signal <= 30,
            None => true,
        };
        12 <= self.max_chars && self.max_chars <= 80 && 10 <= self.inactive_opacity
            && self.inactive_opacity <= 90 && -10000 <= self.offset_ms && self.offset_ms <= 10000
            && signal_ok
    }

    /// Checks normalized settings against what the URI parser made of their endpoint.
    pub fn checked(self, uri: Result<UriParts, String>) -> (r: Result<Options, String>)
        ensures
            result_view(r) == checked_spec(self@, uri_view(uri)),
    {
        match uri {
            Err(error) => Err(error),
            Ok(parts) => {
                let http = match &parts.scheme {
                    Some(scheme) => text_is(scheme.as_str(), "http") || text_is(
                        scheme.as_str(),
                        "https",
                    ),
                    None => false,
                };
                if !http || parts.host.is_none() {
                    Err("source_endpoint must be an absolute HTTP(S) URL".to_owned())
                } else if !self.is_in_range() {
                    Err("configuration value out of range".to_owned())
                } else {
                    Ok(self)
                }
            },
        }
    }

    /// Normalizes the settings and checks their endpoint and numbers.
    pub fn validated(self) -> (r: Result<Options, String>)
        ensures
            result_view(r) == validated_spec(self@),
    {
        let normalized = self.normalize();
        let uri = parse_uri(normalized.source_endpoint.as_str());
        assert(uri_view(uri) == parsed_uri(normalized@.source_endpoint));
        normalized.checked(uri)
    }

    /// Validates settings that a configuration patch was merged into; a failed
    /// merge is passed on.
    pub fn updated(merged: Result<Options, String>) -> (r: Result<Options, String>)
        ensures
            result_view(r) == match merged {
                Ok(o) => validated_spec(o@),
                Err(e) => Err(e@),
            },
    {
        match merged {
            Ok(options) => options.validated(),
            Err(error) => Err(error),
        }
    }
}

} // verus!
