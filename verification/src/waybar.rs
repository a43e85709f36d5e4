//! The Waybar output: Pango-escaped text, the module's JSON payload and when
//! to write it.
use vstd::prelude::*;

use crate::engine::Frame;
use crate::source::string_views;
use crate::cover::{find_char, first_index};
use crate::text::{
    chars_of, extend_chars, parse_unsigned, slice_range, string_from_chars,
    strip_prefix, stripped, text_is, trim, trimmed, unsigned_text,
};

verus! {

/// The Pango markup for one character: the five markup characters become
/// entities, every other character stands for itself.
pub open spec fn escaped(c: char) -> Seq<char> {
    if c == '&' {
        "&amp;"@
    } else if c == '<' {
        "&lt;"@
    } else if c == '>' {
        "&gt;"@
    } else if c == '\'' {
        "&apos;"@
    } else if c == '"' {
        "&quot;"@
    } else {
        seq![c]
    }
}

/// `s` as Pango markup text.
pub open spec fn escape_of(s: Seq<char>) -> Seq<char>
    decreases s.len(),
{
    if s.len() == 0 {
        Seq::empty()
    } else {
        escape_of(s.drop_last()) + escaped(s.last())
    }
}

fn push_escaped(out: &mut Vec<char>, c: char)
    ensures
        final(out)@ == old(out)@ + escaped(c),
{
    let entity = if c == '&' {
        "&amp;"
    } else if c == '<' {
        "&lt;"
    } else if c == '>' {
        "&gt;"
    } else if c == '\'' {
        "&apos;"
    } else if c == '"' {
        "&quot;"
    } else {
        out.push(c);
        assert(out@ =~= old(out)@ + seq![c]);
        return;
    };
    let e = chars_of(entity);
    extend_chars(out, e.as_slice());
}

/// `text` as Pango markup text, so that it shows as written.
pub fn escape_markup(text: &str) -> (r: String)
    ensures
        r@ == escape_of(text@),
{
    let chars = chars_of(text);
    let mut out: Vec<char> = Vec::new();
    let mut k: usize = 0;
    assert(chars@.take(0) =~= Seq::<char>::empty());
    while k < chars.len()
        invariant
            k <= chars@.len(),
            chars@ == text@,
            out@ == escape_of(chars@.take(k as int)),
        decreases chars@.len() - k,
    {
        assert(chars@.take(k + 1).drop_last() =~= chars@.take(k as int));
        push_escaped(&mut out, chars[k]);
        k = k + 1;
    }
    assert(chars@.take(k as int) =~= chars@);
    string_from_chars(out.as_slice())
}

/// A character that Pango would read as markup, apart from `&`.
pub open spec fn is_markup_char(c: char) -> bool {
    c == '<' || c == '>' || c == '\'' || c == '"'
}

/// Escaped text holds none of `<`, `>`, `'` and `"`, and it is the text itself
/// when the text holds none of the five markup characters.
pub proof fn escape_leaves_no_markup(s: Seq<char>)
    ensures
        forall|i: int| 0 <= i < escape_of(s).len() ==> !is_markup_char(#[trigger] escape_of(s)[i]),
        (forall|i: int| 0 <= i < s.len() ==> !is_markup_char(#[trigger] s[i]) && s[i] != '&')
            ==> escape_of(s) == s,
    decreases s.len(),
{
    if s.len() > 0 {
        escape_leaves_no_markup(s.drop_last());
        let front = escape_of(s.drop_last());
        let tail = escaped(s.last());
        reveal_strlit("&amp;");
        reveal_strlit("&lt;");
        reveal_strlit("&gt;");
        reveal_strlit("&apos;");
        reveal_strlit("&quot;");
        assert forall|i: int| 0 <= i < escape_of(s).len() implies !is_markup_char(
            #[trigger] escape_of(s)[i],
        ) by {
            if i < front.len() {
                assert(escape_of(s)[i] == front[i]);
            } else {
                assert(escape_of(s)[i] == tail[i - front.len()]);
            }
        }
        if forall|i: int| 0 <= i < s.len() ==> !is_markup_char(#[trigger] s[i]) && s[i] != '&' {
            assert(!is_markup_char(s[s.len() - 1]) && s[s.len() - 1] != '&');
            assert forall|i: int| 0 <= i < s.drop_last().len() implies !is_markup_char(
                #[trigger] s.drop_last()[i],
            ) && s.drop_last()[i] != '&' by {
                assert(s.drop_last()[i] == s[i]);
            }
            assert(s.drop_last().push(s.last()) =~= s);
        }
    }
}

/// The five entities that escaping writes.
pub open spec fn amp_entity() -> Seq<char> {
    seq!['&', 'a', 'm', 'p', ';']
}

pub open spec fn lt_entity() -> Seq<char> {
    seq!['&', 'l', 't', ';']
}

pub open spec fn gt_entity() -> Seq<char> {
    seq!['&', 'g', 't', ';']
}

pub open spec fn apos_entity() -> Seq<char> {
    seq!['&', 'a', 'p', 'o', 's', ';']
}

pub open spec fn quot_entity() -> Seq<char> {
    seq!['&', 'q', 'u', 'o', 't', ';']
}

/// One of the five entities starts at `i` in `s`.
pub open spec fn entity_at(s: Seq<char>, i: int) -> bool {
    let rest = s.skip(i);
    ||| amp_entity().is_prefix_of(rest)
    ||| lt_entity().is_prefix_of(rest)
    ||| gt_entity().is_prefix_of(rest)
    ||| apos_entity().is_prefix_of(rest)
    ||| quot_entity().is_prefix_of(rest)
}

/// Markup text with the five entities turned back into their characters.
pub open spec fn unescape(s: Seq<char>) -> Seq<char>
    decreases s.len(),
{
    if s.len() == 0 {
        Seq::empty()
    } else if amp_entity().is_prefix_of(s) {
        seq!['&'] + unescape(s.skip(5))
    } else if lt_entity().is_prefix_of(s) {
        seq!['<'] + unescape(s.skip(4))
    } else if gt_entity().is_prefix_of(s) {
        seq!['>'] + unescape(s.skip(4))
    } else if apos_entity().is_prefix_of(s) {
        seq!['\''] + unescape(s.skip(6))
    } else if quot_entity().is_prefix_of(s) {
        seq!['"'] + unescape(s.skip(6))
    } else {
        seq![s[0]] + unescape(s.drop_first())
    }
}

proof fn lemma_escaped_entities(c: char)
    ensures
        c == '&' ==> escaped(c) == amp_entity(),
        c == '<' ==> escaped(c) == lt_entity(),
        c == '>' ==> escaped(c) == gt_entity(),
        c == '\'' ==> escaped(c) == apos_entity(),
        c == '"' ==> escaped(c) == quot_entity(),
        c != '&' && c != '<' && c != '>' && c != '\'' && c != '"' ==> escaped(c) == seq![c],
{
    reveal_strlit("&amp;");
    reveal_strlit("&lt;");
    reveal_strlit("&gt;");
    reveal_strlit("&apos;");
    reveal_strlit("&quot;");
    assert("&amp;"@ =~= amp_entity());
    assert("&lt;"@ =~= lt_entity());
    assert("&gt;"@ =~= gt_entity());
    assert("&apos;"@ =~= apos_entity());
    assert("&quot;"@ =~= quot_entity());
}

proof fn lemma_escape_concat(a: Seq<char>, b: Seq<char>)
    ensures
        escape_of(a + b) == escape_of(a) + escape_of(b),
    decreases b.len(),
{
    if b.len() == 0 {
        assert(a + b =~= a);
        assert(escape_of(a) + escape_of(b) =~= escape_of(a));
    } else {
        lemma_escape_concat(a, b.drop_last());
        assert((a + b).drop_last() =~= a + b.drop_last());
        assert((a + b).last() == b.last());
        assert(escape_of(a) + escape_of(b) =~= escape_of(a) + escape_of(b.drop_last()) + escaped(
            b.last(),
        ));
    }
}

proof fn lemma_unescape_one(c: char, t: Seq<char>)
    ensures
        unescape(escaped(c) + t) == seq![c] + unescape(t),
{
    lemma_escaped_entities(c);
    let e = escaped(c) + t;
    if c == '&' {
        assert(amp_entity().is_prefix_of(e));
        assert(e.skip(5) =~= t);
    } else if c == '<' {
        assert(e[1] == 'l');
        assert(!amp_entity().is_prefix_of(e));
        assert(lt_entity().is_prefix_of(e));
        assert(e.skip(4) =~= t);
    } else if c == '>' {
        assert(e[1] == 'g');
        assert(!amp_entity().is_prefix_of(e));
        assert(!lt_entity().is_prefix_of(e));
        assert(gt_entity().is_prefix_of(e));
        assert(e.skip(4) =~= t);
    } else if c == '\'' {
        assert(e[1] == 'a' && e[2] == 'p');
        assert(!amp_entity().is_prefix_of(e));
        assert(!lt_entity().is_prefix_of(e));
        assert(!gt_entity().is_prefix_of(e));
        assert(apos_entity().is_prefix_of(e));
        assert(e.skip(6) =~= t);
    } else if c == '"' {
        assert(e[1] == 'q');
        assert(!amp_entity().is_prefix_of(e));
        assert(!lt_entity().is_prefix_of(e));
        assert(!gt_entity().is_prefix_of(e));
        assert(!apos_entity().is_prefix_of(e));
        assert(quot_entity().is_prefix_of(e));
        assert(e.skip(6) =~= t);
    } else {
        assert(e[0] == c);
        assert(!amp_entity().is_prefix_of(e));
        assert(!lt_entity().is_prefix_of(e));
        assert(!gt_entity().is_prefix_of(e));
        assert(!apos_entity().is_prefix_of(e));
        assert(!quot_entity().is_prefix_of(e));
        assert(e.drop_first() =~= t);
    }
}

proof fn lemma_unescape_escape(s: Seq<char>)
    ensures
        unescape(escape_of(s)) == s,
    decreases s.len(),
{
    if s.len() == 0 {
    } else {
        let rest = s.drop_first();
        lemma_unescape_escape(rest);
        assert(s =~= seq![s[0]] + rest);
        lemma_escape_concat(seq![s[0]], rest);
        let one = seq![s[0]];
        assert(one.drop_last() =~= Seq::<char>::empty());
        assert(one.last() == s[0]);
        assert(escape_of(one.drop_last()) == Seq::<char>::empty());
        assert(escape_of(one) == escape_of(one.drop_last()) + escaped(s[0]));
        assert(escape_of(one) =~= escaped(s[0]));
        lemma_unescape_one(s[0], escape_of(rest));
    }
}

proof fn lemma_prefix_extends(p: Seq<char>, a: Seq<char>, b: Seq<char>)
    requires
        p.is_prefix_of(a),
    ensures
        p.is_prefix_of(a + b),
{
    assert forall|i: int| 0 <= i < p.len() implies p[i] == (a + b)[i] by {}
}

proof fn lemma_amp_entities(s: Seq<char>)
    ensures
        forall|i: int| 0 <= i < escape_of(s).len() && #[trigger] escape_of(s)[i] == '&' ==> entity_at(
            escape_of(s),
            i,
        ),
    decreases s.len(),
{
    if s.len() > 0 {
        lemma_amp_entities(s.drop_last());
        let f = escape_of(s.drop_last());
        let t = escaped(s.last());
        lemma_escaped_entities(s.last());
        let e = escape_of(s);
        assert(e == f + t);
        assert forall|i: int| 0 <= i < e.len() && #[trigger] e[i] == '&' implies entity_at(e, i) by {
            if i < f.len() {
                assert(f[i] == '&');
                assert(entity_at(f, i));
                assert(e.skip(i) =~= f.skip(i) + t);
                if amp_entity().is_prefix_of(f.skip(i)) {
                    lemma_prefix_extends(amp_entity(), f.skip(i), t);
                } else if lt_entity().is_prefix_of(f.skip(i)) {
                    lemma_prefix_extends(lt_entity(), f.skip(i), t);
                } else if gt_entity().is_prefix_of(f.skip(i)) {
                    lemma_prefix_extends(gt_entity(), f.skip(i), t);
                } else if apos_entity().is_prefix_of(f.skip(i)) {
                    lemma_prefix_extends(apos_entity(), f.skip(i), t);
                } else {
                    lemma_prefix_extends(quot_entity(), f.skip(i), t);
                }
            } else {
                let j = i - f.len();
                assert(t[j] == '&');
                assert(j == 0);
                assert(e.skip(i) =~= t);
            }
        }
    }
}

/// Escaped text: every `&` in it starts one of the five entities, and
/// turning the entities back into their characters gives the text back.
pub proof fn escape_round_trips(s: Seq<char>)
    ensures
        forall|i: int| 0 <= i < escape_of(s).len() && #[trigger] escape_of(s)[i] == '&' ==> entity_at(
            escape_of(s),
            i,
        ),
        unescape(escape_of(s)) == s,
{
    lemma_amp_entities(s);
    lemma_unescape_escape(s);
}

/// What the Waybar module prints for one frame.
pub struct Payload {
    pub text: String,
    pub tooltip: String,
    pub class: Vec<String>,
    pub alt: String,
}

/// A payload taken by its texts: text, tooltip, classes and alt.
pub open spec fn payload_view(p: Payload) -> (Seq<char>, Seq<char>, Seq<Seq<char>>, Seq<char>) {
    (p.text@, p.tooltip@, string_views(p.class@), p.alt@)
}

/// The playback state a visible frame shows.
pub open spec fn state_of(f: Frame) -> Seq<char> {
    if f.playing {
        "playing"@
    } else {
        "paused"@
    }
}

/// The tooltip: the title, " — " and the artist when there is one, and the
/// source on a line of its own when there is one, all escaped.
pub open spec fn tooltip_of(f: Frame) -> Seq<char> {
    escape_of(f.title@) + (if f.artist@.len() > 0 {
        " — "@ + escape_of(f.artist@)
    } else {
        Seq::empty()
    }) + (if f.source@.len() > 0 {
        "\r"@ + escape_of(f.source@)
    } else {
        Seq::empty()
    })
}

/// The payload for a frame; `lyrics_markup` is the markup of the frame's
/// lyric line.
pub open spec fn payload_of(f: Frame, lyrics_markup: Seq<char>) -> (
    Seq<char>,
    Seq<char>,
    Seq<Seq<char>>,
    Seq<char>,
) {
    if !f.visible {
        (Seq::empty(), Seq::empty(), seq!["hidden"@], "hidden"@)
    } else {
        let content = if f.line is Some {
            "lyrics"@
        } else {
            "fallback"@
        };
        let class = if f.transition is Some {
            seq![state_of(f), content, "transitioning"@]
        } else {
            seq![state_of(f), content]
        };
        let text = if f.line is Some {
            lyrics_markup
        } else {
            escape_of(f.fallback_text@)
        };
        (text, tooltip_of(f), class, state_of(f))
    }
}

/// A visible frame with a lyric line shows the lyrics markup as its text,
/// whether or not a line change is under way, and is classed `lyrics`; one
/// without a line shows its escaped fallback title and is classed
/// `fallback`; a hidden frame shows nothing. A line change adds the class
/// `transitioning` and leaves the text as it is.
pub proof fn payload_text_follows_the_line(f: Frame, lyrics_markup: Seq<char>)
    ensures
        f.visible && f.line is Some ==> payload_of(f, lyrics_markup).0 == lyrics_markup
            && payload_of(f, lyrics_markup).2.contains("lyrics"@),
        f.visible && f.line is None ==> payload_of(f, lyrics_markup).0 == escape_of(
            f.fallback_text@,
        ) && payload_of(f, lyrics_markup).2.contains("fallback"@),
        !f.visible ==> payload_of(f, lyrics_markup).0 == Seq::<char>::empty(),
        f.visible ==> (payload_of(f, lyrics_markup).2.contains("transitioning"@)
            <== f.transition is Some),
        payload_of(f, lyrics_markup).0 == payload_of(
            Frame { transition: None, ..f },
            lyrics_markup,
        ).0,
{
    if f.visible {
        let p = payload_of(f, lyrics_markup);
        if f.line is Some {
            assert(p.2[1] == "lyrics"@);
        } else {
            assert(p.2[1] == "fallback"@);
        }
        if f.transition is Some {
            assert(p.2[2] == "transitioning"@);
        }
    }
}

fn tooltip(frame: &Frame) -> (r: String)
    ensures
        r@ == tooltip_of(*frame),
{
    let mut t = chars_of(escape_markup(frame.title.as_str()).as_str());
    if !frame.artist.as_str().is_empty() {
        let dash = chars_of(" — ");
        extend_chars(&mut t, dash.as_slice());
        let artist = chars_of(escape_markup(frame.artist.as_str()).as_str());
        extend_chars(&mut t, artist.as_slice());
    }
    let ghost with_artist = t@;
    if !frame.source.as_str().is_empty() {
        t.push('\r');
        let source = chars_of(escape_markup(frame.source.as_str()).as_str());
        extend_chars(&mut t, source.as_slice());
        proof {
            reveal_strlit("\r");
            assert(t@ =~= with_artist + "\r"@ + escape_of(frame.source@));
        }
    } else {
        assert(t@ =~= with_artist + Seq::<char>::empty());
    }
    string_from_chars(t.as_slice())
}

impl Payload {
    /// The payload for a frame; `lyrics_markup` is the markup of the frame's
    /// lyric line, used when it has one.
    pub fn from_frame(frame: &Frame, lyrics_markup: String) -> (r: Payload)
        ensures
            payload_view(r) == payload_of(*frame, lyrics_markup@),
    {
        if !frame.is_visible() {
            let mut class: Vec<String> = Vec::new();
            class.push("hidden".to_owned());
            let r = Payload {
                text: String::new(),
                tooltip: String::new(),
                class,
                alt: "hidden".to_owned(),
            };
            assert(string_views(r.class@) =~= seq!["hidden"@]);
            return r;
        }
        let state = if frame.is_playing() {
            "playing"
        } else {
            "paused"
        };
        let content = if frame.has_lyrics() {
            "lyrics"
        } else {
            "fallback"
        };
        let mut class: Vec<String> = Vec::new();
        class.push(state.to_owned());
        class.push(content.to_owned());
        if frame.is_transitioning() {
            class.push("transitioning".to_owned());
        }
        let text = if frame.has_lyrics() {
            lyrics_markup
        } else {
            escape_markup(frame.display_text().as_str())
        };
        let r = Payload { text, tooltip: tooltip(frame), class, alt: state.to_owned() };
        assert(string_views(r.class@) =~= payload_of(*frame, lyrics_markup@).2);
        r
    }
}

fn same_strings(a: &Vec<String>, b: &Vec<String>) -> (r: bool)
    ensures
        r == (string_views(a@) == string_views(b@)),
{
    if a.len() != b.len() {
        proof {
            assert(string_views(a@).len() != string_views(b@).len());
        }
        return false;
    }
    let mut k: usize = 0;
    while k < a.len()
        invariant
            k <= a@.len() == b@.len(),
            forall|i: int| 0 <= i < k ==> #[trigger] a@[i]@ == b@[i]@,
        decreases a@.len() - k,
    {
        if !text_is(a[k].as_str(), b[k].as_str()) {
            proof {
                assert(string_views(a@)[k as int] != string_views(b@)[k as int]);
            }
            return false;
        }
        k = k + 1;
    }
    assert(string_views(a@) =~= string_views(b@));
    true
}

/// Whether two payloads print the same.
pub fn same_payload(a: &Payload, b: &Payload) -> (r: bool)
    ensures
        r == (payload_view(*a) == payload_view(*b)),
{
    text_is(a.text.as_str(), b.text.as_str()) && text_is(a.tooltip.as_str(), b.tooltip.as_str())
        && same_strings(&a.class, &b.class) && text_is(a.alt.as_str(), b.alt.as_str())
}

/// The Waybar output's state: its settings, the cover it last announced and
/// the payload it last printed.
pub struct Waybar {
    pub inactive_opacity: u8,
    pub signal: Option<u8>,
    pub cover_path: String,
    pub last: Option<Payload>,
}

impl Waybar {
    /// An output that has announced no cover and printed nothing.
    pub fn new(inactive_opacity: u8, signal: Option<u8>) -> (r: Self)
        ensures
            r.inactive_opacity == inactive_opacity,
            r.signal == signal,
            r.cover_path@ == Seq::<char>::empty(),
            r.last is None,
    {
        Waybar { inactive_opacity, signal, cover_path: String::new(), last: None }
    }

    /// Notes the frame's cover; when it changed, the signal that makes Waybar
    /// reload the cover image, if one is configured.
    pub fn cover_signal(&mut self, frame: &Frame) -> (r: Option<u8>)
        ensures
            final(self).cover_path@ == frame.cover_path@,
            final(self).inactive_opacity == old(self).inactive_opacity,
            final(self).signal == old(self).signal,
            final(self).last == old(self).last,
            r == if old(self).cover_path@ != frame.cover_path@ {
                old(self).signal
            } else {
                None
            },
    {
        if !text_is(self.cover_path.as_str(), frame.cover_path.as_str()) {
            self.cover_path = frame.cover_path.clone();
            self.signal
        } else {
            None
        }
    }

    /// Whether the payload differs from the one printed last.
    pub fn should_print(&self, payload: &Payload) -> (r: bool)
        ensures
            r == match self.last {
                Some(last) => payload_view(last) != payload_view(*payload),
                None => true,
            },
    {
        match &self.last {
            Some(last) => !same_payload(last, payload),
            None => true,
        }
    }

    /// The payload was printed.
    pub fn printed(&mut self, payload: Payload)
        ensures
            final(self).last == Some(payload),
            final(self).cover_path == old(self).cover_path,
            final(self).inactive_opacity == old(self).inactive_opacity,
            final(self).signal == old(self).signal,
    {
        self.last = Some(payload);
    }
}

/// A line without the carriage return of a `\r\n` ending.
pub open spec fn without_cr(line: Seq<char>, ended: bool) -> Seq<char> {
    if ended && line.len() > 0 && line.last() == '\r' {
        line.drop_last()
    } else {
        line
    }
}

/// The value after `key` on the first line of `text` that starts with it,
/// reading lines as `str::lines` does.
pub open spec fn line_value(text: Seq<char>, key: Seq<char>) -> Option<Seq<char>>
    decreases text.len(),
{
    if text.len() == 0 {
        None
    } else {
        match first_index(text, '\n') {
            Some(i) => match stripped(without_cr(text.take(i), true), key) {
                Some(v) => Some(v),
                None => {
                    proof {
                        lemma_first_index_bound(text, '\n');
                    }
                    line_value(text.skip(i + 1), key)
                },
            },
            None => stripped(without_cr(text, false), key),
        }
    }
}

/// The first index of a character holds that character.
pub proof fn lemma_first_index_bound(s: Seq<char>, c: char)
    ensures
        first_index(s, c) matches Some(i) ==> 0 <= i < s.len() && s[i] == c,
    decreases s.len(),
{
    if s.len() > 0 && s[0] != c {
        lemma_first_index_bound(s.drop_first(), c);
    }
}

/// The value after `key` on the first line of `text` that starts with it.
pub fn line_field(text: &str, key: &str) -> (r: Option<String>)
    ensures
        match (r, line_value(text@, key@)) {
            (Some(v), Some(w)) => v@ == w,
            (None, None) => true,
            _ => false,
        },
{
    let chars = chars_of(text);
    let k = chars_of(key);
    let mut from: usize = 0;
    assert(chars@.skip(0) =~= chars@);
    while from < chars.len()
        invariant
            from <= chars@.len(),
            chars@ == text@,
            k@ == key@,
            line_value(text@, key@) == line_value(chars@.skip(from as int), key@),
        decreases chars@.len() - from,
    {
        let rest = slice_range(chars.as_slice(), from, chars.len());
        assert(rest@ =~= chars@.skip(from as int));
        proof {
            lemma_first_index_bound(rest@, '\n');
        }
        match find_char(rest.as_slice(), '\n') {
            Some(i) => {
                let mut line = slice_range(rest.as_slice(), 0, i);
                assert(line@ =~= rest@.take(i as int));
                if line.len() > 0 && line[line.len() - 1] == '\r' {
                    line.pop();
                }
                assert(line@ =~= without_cr(rest@.take(i as int), true));
                if let Some(v) = strip_prefix(line.as_slice(), k.as_slice()) {
                    return Some(string_from_chars(v.as_slice()));
                }
                assert(rest@.skip(i + 1) =~= chars@.skip(from + i + 1));
                from = from + i + 1;
            },
            None => {
                return match strip_prefix(rest.as_slice(), k.as_slice()) {
                    Some(v) => Some(string_from_chars(v.as_slice())),
                    None => None,
                };
            },
        }
    }
    None
}

/// What one process's status tells the search for the Waybar process.
#[derive(PartialEq, Eq, Structural, Debug, Clone, Copy)]
pub enum AncestorStep {
    /// This process is Waybar.
    Found,
    /// Look at this parent process next.
    Parent(u32),
    /// Give up: the status is unreadable, or the process has no parent.
    Stop,
}

/// The verdict on a process status (`/proc/<pid>/status`): Waybar when its
/// name is "waybar", else its parent when one is given and is not 0.
pub open spec fn step_of(status: Seq<char>) -> AncestorStep {
    match line_value(status, "Name:\t"@) {
        None => AncestorStep::Stop,
        Some(name) => if name == "waybar"@ {
            AncestorStep::Found
        } else {
            match line_value(status, "PPid:\t"@) {
                None => AncestorStep::Stop,
                Some(ppid) => match unsigned_text(trimmed(ppid)) {
                    Some(pid) => if 0 < pid <= u32::MAX {
                        AncestorStep::Parent(pid as u32)
                    } else {
                        AncestorStep::Stop
                    },
                    None => AncestorStep::Stop,
                },
            }
        },
    }
}

/// Reads a process status on the way up to the Waybar process.
pub fn ancestor_step(status: &str) -> (r: AncestorStep)
    ensures
        r == step_of(status@),
{
    let name = match line_field(status, "Name:\t") {
        Some(name) => name,
        None => {
            return AncestorStep::Stop;
        },
    };
    if text_is(name.as_str(), "waybar") {
        return AncestorStep::Found;
    }
    let ppid = match line_field(status, "PPid:\t") {
        Some(ppid) => ppid,
        None => {
            return AncestorStep::Stop;
        },
    };
    let p = chars_of(ppid.as_str());
    let t = string_from_chars(trim(p.as_slice()).as_slice());
    match parse_unsigned(t.as_str(), 4294967295u64) {
        Some(pid) => if pid == 0 {
            AncestorStep::Stop
        } else {
            AncestorStep::Parent(pid as u32)
        },
        None => AncestorStep::Stop,
    }
}

/// How many processes up the search for Waybar looks.
pub const ANCESTOR_DEPTH: usize = 4;

} // verus!
