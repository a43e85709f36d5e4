//! Choosing the player to follow and control among those on the session bus.
use vstd::prelude::*;

use crate::cover::{eq_ignore_ascii_case, eq_ignore_case, find_char, first_index};
use crate::options::{Control, SourceKind};
use crate::text::{chars_eq, chars_of, slice_range, starts_with, strip_prefix, stripped};

verus! {

/// The bus-name prefix of every MPRIS player.
pub open spec fn mpris_prefix() -> Seq<char> {
    "org.mpris.MediaPlayer2."@
}

/// The part of `s` before its first '.' (all of it without one).
pub open spec fn first_segment(s: Seq<char>) -> Seq<char> {
    match first_index(s, '.') {
        Some(i) => s.take(i),
        None => s,
    }
}

/// The source that serves the MPRIS player with bus name `name`, if any.
pub open spec fn player_source_of(name: Seq<char>) -> Option<SourceKind> {
    match stripped(name, mpris_prefix()) {
        Some(rest) => if first_segment(rest) == "splayer_next"@ {
            Some(SourceKind::Splayer)
        } else {
            None
        },
        None => None,
    }
}

/// The source that serves the MPRIS player with bus name `name`, if any.
pub fn player_source(name: &str) -> (r: Option<SourceKind>)
    ensures
        r == player_source_of(name@),
{
    let chars = chars_of(name);
    let prefix = chars_of("org.mpris.MediaPlayer2.");
    match strip_prefix(chars.as_slice(), prefix.as_slice()) {
        None => None,
        Some(rest) => {
            let segment = match find_char(rest.as_slice(), '.') {
                Some(i) => slice_range(rest.as_slice(), 0, i),
                None => rest,
            };
            let player = chars_of("splayer_next");
            if chars_eq(segment.as_slice(), player.as_slice()) {
                Some(SourceKind::Splayer)
            } else {
                None
            }
        },
    }
}

/// Whether the bus name `name` belongs to a player of `kind`.
pub open spec fn serves(name: Seq<char>, kind: SourceKind) -> bool {
    player_source_of(name) == Some(kind)
}

pub open spec fn no_player_message() -> Seq<char> {
    "no matching player"@
}

pub open spec fn ambiguous_message() -> Seq<char> {
    "multiple matching players; refusing ambiguous control"@
}

/// The one bus name among `names` of a player of `kind`; it is an error when
/// there is none, and when there are several.
pub fn select_player(names: &Vec<String>, kind: SourceKind) -> (r: Result<String, String>)
    ensures
        match r {
            Ok(name) => exists|i: int|
                0 <= i < names@.len() && #[trigger] names@[i]@ == name@ && serves(name@, kind)
                    && forall|j: int|
                    0 <= j < names@.len() && j != i ==> !serves(#[trigger] names@[j]@, kind),
            Err(message) => {
                ||| (message@ == no_player_message() && forall|j: int|
                    0 <= j < names@.len() ==> !serves(#[trigger] names@[j]@, kind))
                ||| (message@ == ambiguous_message() && exists|i: int, j: int|
                    0 <= i < j < names@.len() && serves(#[trigger] names@[i]@, kind) && serves(
                        #[trigger] names@[j]@,
                        kind,
                    ))
            },
        },
{
    let mut first: Option<usize> = None;
    let mut k: usize = 0;
    while k < names.len()
        invariant
            k <= names@.len(),
            match first {
                None => forall|j: int| 0 <= j < k ==> !serves(#[trigger] names@[j]@, kind),
                Some(i) => i < k && serves(names@[i as int]@, kind) && forall|j: int|
                    0 <= j < k && j != i ==> !serves(#[trigger] names@[j]@, kind),
            },
        decreases names@.len() - k,
    {
        if player_source(names[k].as_str()) == Some(kind) {
            match first {
                None => {
                    first = Some(k);
                },
                Some(i) => {
                    assert(serves(names@[i as int]@, kind) && serves(names@[k as int]@, kind));
                    return Err("multiple matching players; refusing ambiguous control".to_owned());
                },
            }
        }
        k = k + 1;
    }
    match first {
        None => Err("no matching player".to_owned()),
        Some(i) => {
            let name = names[i].clone();
            assert(names@[i as int]@ == name@);
            Ok(name)
        },
    }
}

/// The MPRIS method that carries out a command.
pub open spec fn mpris_method_of(command: Control) -> Seq<char> {
    match command {
        Control::Play => "Play"@,
        Control::Pause => "Pause"@,
        Control::Toggle => "PlayPause"@,
        Control::Previous => "Previous"@,
        Control::Next => "Next"@,
    }
}

/// The MPRIS method that carries out a command.
pub fn mpris_method(command: Control) -> (r: String)
    ensures
        r@ == mpris_method_of(command),
{
    match command {
        Control::Play => "Play".to_owned(),
        Control::Pause => "Pause".to_owned(),
        Control::Toggle => "PlayPause".to_owned(),
        Control::Previous => "Previous".to_owned(),
        Control::Next => "Next".to_owned(),
    }
}

/// A host that names this machine: "localhost" in any ASCII case, or a
/// loopback IP address (`loopback_ip`, as the caller's address parser found).
pub open spec fn is_local_host_of(host: Seq<char>, loopback_ip: bool) -> bool {
    eq_ignore_case(host, "localhost"@) || loopback_ip
}

/// Whether `host` names this machine; `loopback_ip` tells whether the host,
/// without IPv6 brackets, parses as a loopback IP address.
pub fn is_local_host(host: &str, loopback_ip: bool) -> (r: bool)
    ensures
        r == is_local_host_of(host@, loopback_ip),
{
    let h = chars_of(host);
    let localhost = chars_of("localhost");
    eq_ignore_ascii_case(h.as_slice(), localhost.as_slice()) || loopback_ip
}

/// What the MPRIS watcher reports.
pub enum MprisEvent {
    /// A player appeared, or its playback status or metadata changed.
    Activity(String),
    /// MPRIS cannot be watched; the reason.
    Unavailable(String),
}

/// What the router does to the configured source.
#[derive(PartialEq, Eq, Structural, Debug, Clone, Copy)]
pub enum RouterAction {
    /// Open the source; none is active yet.
    Open,
    /// Ask the active source to reconnect.
    Reconnect,
}

/// An event calls for the configured source: its player showed activity, or
/// MPRIS cannot tell and the configured source is used anyway.
pub open spec fn calls_for(event: MprisEvent, kind: SourceKind) -> bool {
    match event {
        MprisEvent::Activity(player) => serves(player@, kind),
        MprisEvent::Unavailable(_) => true,
    }
}

pub open spec fn waiting_player_message() -> Seq<char> {
    "waiting for a supported player"@
}

/// Follows the local player of one kind: the source opens once that player
/// shows activity and is asked to reconnect on later activity.
pub struct SourceRouter {
    pub kind: SourceKind,
    pub active: bool,
}

impl SourceRouter {
    /// A router with no source open yet.
    pub fn new(kind: SourceKind) -> (r: Self)
        ensures
            r.kind == kind,
            !r.active,
    {
        SourceRouter { kind, active: false }
    }

    /// What an MPRIS event asks of the configured source.
    pub fn on_event(&self, event: &MprisEvent) -> (r: Option<RouterAction>)
        ensures
            r == if calls_for(*event, self.kind) {
                Some(
                    if self.active {
                        RouterAction::Reconnect
                    } else {
                        RouterAction::Open
                    },
                )
            } else {
                None
            },
    {
        let calls = match event {
            MprisEvent::Activity(player) => player_source(player.as_str()) == Some(self.kind),
            MprisEvent::Unavailable(_) => true,
        };
        if calls {
            if self.active {
                Some(RouterAction::Reconnect)
            } else {
                Some(RouterAction::Open)
            }
        } else {
            None
        }
    }

    /// The source was opened.
    pub fn opened(&mut self)
        ensures
            final(self).active,
            final(self).kind == old(self).kind,
    {
        self.active = true;
    }

    /// Why there is no source to read from yet, if there is none.
    pub fn current(&self) -> (r: Result<(), String>)
        ensures
            match r {
                Ok(()) => self.active,
                Err(message) => !self.active && message@ == waiting_player_message(),
            },
    {
        if self.active {
            Ok(())
        } else {
            Err("waiting for a supported player".to_owned())
        }
    }
}

/// A bus name of an MPRIS player.
pub open spec fn is_player_of(name: Seq<char>) -> bool {
    mpris_prefix().is_prefix_of(name)
}

/// Whether the bus name `name` is that of an MPRIS player.
pub fn is_player(name: &str) -> (r: bool)
    ensures
        r == is_player_of(name@),
{
    let chars = chars_of(name);
    let prefix = chars_of("org.mpris.MediaPlayer2.");
    starts_with(chars.as_slice(), prefix.as_slice())
}

/// The owner recorded for `name`: that of its first entry.
pub open spec fn owner_in(entries: Seq<(String, String)>, name: Seq<char>) -> Option<Seq<char>>
    decreases entries.len(),
{
    if entries.len() == 0 {
        None
    } else if entries[0].0@ == name {
        Some(entries[0].1@)
    } else {
        owner_in(entries.drop_first(), name)
    }
}

/// No name has two entries.
pub open spec fn names_distinct(entries: Seq<(String, String)>) -> bool {
    forall|i: int, j: int|
        0 <= i < j < entries.len() ==> #[trigger] entries[i].0@ != #[trigger] entries[j].0@
}

/// The interface whose properties tell of a player's playback.
pub open spec fn player_interface() -> Seq<char> {
    "org.mpris.MediaPlayer2.Player"@
}

/// A property that tells of playback: its status or the track's metadata.
pub open spec fn is_playback_key(key: Seq<char>) -> bool {
    key == "PlaybackStatus"@ || key == "Metadata"@
}

/// A change of properties tells of playback: it is on the player interface
/// and touches the playback status or the metadata.
pub open spec fn tells_playback(
    interface: Seq<char>,
    changed: Seq<String>,
    invalidated: Seq<String>,
) -> bool {
    &&& interface == player_interface()
    &&& (exists|i: int| 0 <= i < changed.len() && is_playback_key(#[trigger] changed[i]@)) || (
    exists|i: int| 0 <= i < invalidated.len() && is_playback_key(#[trigger] invalidated[i]@))
}

fn any_playback_key(keys: &Vec<String>) -> (r: bool)
    ensures
        r == exists|i: int| 0 <= i < keys@.len() && is_playback_key(#[trigger] keys@[i]@),
{
    let mut k: usize = 0;
    while k < keys.len()
        invariant
            k <= keys@.len(),
            forall|i: int| 0 <= i < k ==> !is_playback_key(#[trigger] keys@[i]@),
        decreases keys@.len() - k,
    {
        if crate::text::text_is(keys[k].as_str(), "PlaybackStatus") || crate::text::text_is(
            keys[k].as_str(),
            "Metadata",
        ) {
            return true;
        }
        k = k + 1;
    }
    false
}

/// The MPRIS players on the bus and the unique names that own them.
pub struct PlayerOwners {
    pub entries: Vec<(String, String)>,
}

impl PlayerOwners {
    /// The owners as a map from player name to owner.
    pub open spec fn owner(&self, name: Seq<char>) -> Option<Seq<char>> {
        owner_in(self.entries@, name)
    }

    pub open spec fn wf(&self) -> bool {
        names_distinct(self.entries@)
    }

    /// No players known yet.
    pub fn new() -> (r: Self)
        ensures
            r.wf(),
            forall|n: Seq<char>| r.owner(n) is None,
    {
        PlayerOwners { entries: Vec::new() }
    }

    proof fn lemma_owner_index(entries: Seq<(String, String)>, name: Seq<char>)
        requires
            names_distinct(entries),
        ensures
            match owner_in(entries, name) {
                Some(o) => exists|i: int|
                    0 <= i < entries.len() && #[trigger] entries[i].0@ == name && entries[i].1@
                        == o,
                None => forall|i: int| 0 <= i < entries.len() ==> #[trigger] entries[i].0@ != name,
            },
            forall|i: int|
                0 <= i < entries.len() && #[trigger] entries[i].0@ == name ==> owner_in(entries, name)
                    == Some(entries[i].1@),
        decreases entries.len(),
    {
        if entries.len() > 0 {
            let rest = entries.drop_first();
            assert forall|i: int, j: int| 0 <= i < j < rest.len() implies #[trigger] rest[i].0@
                != #[trigger] rest[j].0@ by {
                assert(rest[i] == entries[i + 1] && rest[j] == entries[j + 1]);
            }
            Self::lemma_owner_index(rest, name);
            if entries[0].0@ != name {
                match owner_in(rest, name) {
                    Some(o) => {
                        let k = choose|k: int|
                            0 <= k < rest.len() && #[trigger] rest[k].0@ == name && rest[k].1@ == o;
                        assert(entries[k + 1] == rest[k]);
                    },
                    None => {
                        assert forall|i: int| 0 <= i < entries.len() implies #[trigger] entries[i].0@
                            != name by {
                            if i > 0 {
                                assert(entries[i] == rest[i - 1]);
                            }
                        }
                    },
                }
                assert forall|i: int|
                    0 <= i < entries.len() && #[trigger] entries[i].0@ == name implies owner_in(
                    entries,
                    name,
                ) == Some(entries[i].1@) by {
                    assert(i > 0);
                    assert(entries[i] == rest[i - 1]);
                }
            } else {
                assert forall|i: int|
                    0 <= i < entries.len() && #[trigger] entries[i].0@ == name implies owner_in(
                    entries,
                    name,
                ) == Some(entries[i].1@) by {
                    if i > 0 {
                        assert(entries[0].0@ != entries[i].0@);
                    }
                }
            }
        }
    }

    fn index_of(&self, name: &str) -> (r: Option<usize>)
        requires
            self.wf(),
        ensures
            match r {
                Some(i) => i < self.entries@.len() && self.entries@[i as int].0@ == name@,
                None => forall|i: int|
                    0 <= i < self.entries@.len() ==> #[trigger] self.entries@[i].0@ != name@,
            },
    {
        let mut k: usize = 0;
        while k < self.entries.len()
            invariant
                k <= self.entries@.len(),
                forall|i: int| 0 <= i < k ==> #[trigger] self.entries@[i].0@ != name@,
            decreases self.entries@.len() - k,
        {
            if crate::text::text_is(self.entries[k].0.as_str(), name) {
                return Some(k);
            }
            k = k + 1;
        }
        None
    }

    /// Records that `name` is now owned by `owner`.
    fn record(&mut self, name: &str, owner: &str)
        requires
            old(self).wf(),
        ensures
            final(self).wf(),
            forall|n: Seq<char>|
                #[trigger] final(self).owner(n) == if n == name@ {
                    Some(owner@)
                } else {
                    old(self).owner(n)
                },
    {
        let ghost before = self.entries@;
        match self.index_of(name) {
            Some(i) => {
                self.entries.set(i, (name.to_owned(), owner.to_owned()));
                proof {
                    assert forall|a: int, b: int| 0 <= a < b < self.entries@.len() implies #[trigger] self.entries@[a].0@
                        != #[trigger] self.entries@[b].0@ by {
                        if a != i && b != i {
                            assert(self.entries@[a] == before[a] && self.entries@[b] == before[b]);
                        } else if a == i {
                            assert(self.entries@[b] == before[b]);
                            assert(before[a].0@ != before[b].0@);
                        } else {
                            assert(self.entries@[a] == before[a]);
                            assert(before[a].0@ != before[b].0@);
                        }
                    }
                    assert forall|n: Seq<char>| #[trigger] self.owner(n) == if n == name@ {
                        Some(owner@)
                    } else {
                        owner_in(before, n)
                    } by {
                        Self::lemma_owner_index(before, n);
                        Self::lemma_owner_index(self.entries@, n);
                        if n != name@ {
                            match owner_in(before, n) {
                                Some(o) => {
                                    let k = choose|k: int|
                                        0 <= k < before.len() && #[trigger] before[k].0@ == n
                                            && before[k].1@ == o;
                                    assert(self.entries@[k] == before[k]);
                                },
                                None => {
                                    assert forall|k: int| 0 <= k < self.entries@.len() implies #[trigger] self.entries@[k].0@
                                        != n by {
                                        if k != i {
                                            assert(self.entries@[k] == before[k]);
                                        }
                                    }
                                },
                            }
                        } else {
                            assert(self.entries@[i as int].0@ == n);
                        }
                    }
                }
            },
            None => {
                self.entries.push((name.to_owned(), owner.to_owned()));
                proof {
                    assert forall|a: int, b: int| 0 <= a < b < self.entries@.len() implies #[trigger] self.entries@[a].0@
                        != #[trigger] self.entries@[b].0@ by {
                        if b < before.len() {
                            assert(self.entries@[a] == before[a] && self.entries@[b] == before[b]);
                        } else {
                            assert(self.entries@[a] == before[a]);
                        }
                    }
                    assert forall|n: Seq<char>| #[trigger] self.owner(n) == if n == name@ {
                        Some(owner@)
                    } else {
                        owner_in(before, n)
                    } by {
                        Self::lemma_owner_index(before, n);
                        Self::lemma_owner_index(self.entries@, n);
                        let last = before.len() as int;
                        if n != name@ {
                            match owner_in(before, n) {
                                Some(o) => {
                                    let k = choose|k: int|
                                        0 <= k < before.len() && #[trigger] before[k].0@ == n
                                            && before[k].1@ == o;
                                    assert(self.entries@[k] == before[k]);
                                },
                                None => {
                                    assert forall|k: int| 0 <= k < self.entries@.len() implies #[trigger] self.entries@[k].0@
                                        != n by {
                                        if k < last {
                                            assert(self.entries@[k] == before[k]);
                                        }
                                    }
                                },
                            }
                        } else {
                            assert(self.entries@[last].0@ == n);
                        }
                    }
                }
            },
        }
    }

    /// Forgets the owner of `name`.
    fn forget(&mut self, name: &str)
        requires
            old(self).wf(),
        ensures
            final(self).wf(),
            forall|n: Seq<char>|
                #[trigger] final(self).owner(n) == if n == name@ {
                    None
                } else {
                    old(self).owner(n)
                },
    {
        let ghost before = self.entries@;
        match self.index_of(name) {
            None => {
                proof {
                    assert forall|n: Seq<char>| #[trigger] self.owner(n) == if n == name@ {
                        None
                    } else {
                        owner_in(before, n)
                    } by {
                        Self::lemma_owner_index(before, n);
                        if n == name@ {
                            if owner_in(before, n) is Some {
                                let k = choose|k: int|
                                    0 <= k < before.len() && #[trigger] before[k].0@ == n
                                        && before[k].1@ == owner_in(before, n)->Some_0;
                                assert(before[k].0@ != name@);
                            }
                        }
                    }
                }
            },
            Some(i) => {
                self.entries.remove(i);
                proof {
                    assert forall|k: int| 0 <= k < self.entries@.len() implies #[trigger] self.entries@[k]
                        == before[if k < i { k } else { k + 1 }] by {}
                    assert forall|a: int, b: int| 0 <= a < b < self.entries@.len() implies #[trigger] self.entries@[a].0@
                        != #[trigger] self.entries@[b].0@ by {
                        let a2 = if a < i { a } else { a + 1 };
                        let b2 = if b < i { b } else { b + 1 };
                        assert(self.entries@[a] == before[a2] && self.entries@[b] == before[b2]);
                    }
                    assert forall|n: Seq<char>| #[trigger] self.owner(n) == if n == name@ {
                        None
                    } else {
                        owner_in(before, n)
                    } by {
                        Self::lemma_owner_index(before, n);
                        Self::lemma_owner_index(self.entries@, n);
                        if n != name@ {
                            match owner_in(before, n) {
                                Some(o) => {
                                    let k = choose|k: int|
                                        0 <= k < before.len() && #[trigger] before[k].0@ == n
                                            && before[k].1@ == o;
                                    let k2 = if k < i { k } else { k - 1 };
                                    assert(self.entries@[k2] == before[k]);
                                },
                                None => {
                                    assert forall|k: int| 0 <= k < self.entries@.len() implies #[trigger] self.entries@[k].0@
                                        != n by {
                                        let k2 = if k < i { k } else { k + 1 };
                                        assert(self.entries@[k] == before[k2]);
                                    }
                                },
                            }
                        } else {
                            assert forall|k: int| 0 <= k < self.entries@.len() implies #[trigger] self.entries@[k].0@
                                != n by {
                                let k2 = if k < i { k } else { k + 1 };
                                assert(self.entries@[k] == before[k2]);
                                assert(before[k2].0@ != before[i as int].0@);
                            }
                        }
                    }
                }
            },
        }
    }

    /// A player listed at start-up, with its owner: it is recorded and
    /// reported as active. Names that are not players are passed over.
    pub fn listed(&mut self, name: &str, owner: &str) -> (r: bool)
        requires
            old(self).wf(),
        ensures
            final(self).wf(),
            r == is_player_of(name@),
            forall|n: Seq<char>|
                #[trigger] final(self).owner(n) == if r && n == name@ {
                    Some(owner@)
                } else {
                    old(self).owner(n)
                },
    {
        if is_player(name) {
            self.record(name, owner);
            true
        } else {
            false
        }
    }

    /// A bus name changed owner: a player with a new owner is recorded and
    /// reported as active; one without an owner is forgotten.
    pub fn owner_changed(&mut self, name: &str, owner: &str) -> (r: bool)
        requires
            old(self).wf(),
        ensures
            final(self).wf(),
            r == (is_player_of(name@) && owner@.len() > 0),
            forall|n: Seq<char>|
                #[trigger] final(self).owner(n) == if is_player_of(name@) && n == name@ {
                    if owner@.len() > 0 {
                        Some(owner@)
                    } else {
                        None
                    }
                } else {
                    old(self).owner(n)
                },
    {
        if !is_player(name) {
            return false;
        }
        if owner.is_empty() {
            self.forget(name);
            false
        } else {
            self.record(name, owner);
            true
        }
    }

    /// Properties changed on the object of the bus name `sender`: when they
    /// tell of playback, the players that `sender` owns are active, in the
    /// order they were recorded.
    pub fn properties_changed(
        &self,
        interface: &str,
        changed: &Vec<String>,
        invalidated: &Vec<String>,
        sender: Option<String>,
    ) -> (r: Vec<String>)
        ensures
            string_views(r@) == match sender {
                Some(from) => if tells_playback(interface@, changed@, invalidated@) {
                    owned_by(self.entries@, from@)
                } else {
                    Seq::empty()
                },
                None => Seq::empty(),
            },
    {
        let mut r: Vec<String> = Vec::new();
        let relevant = crate::text::text_is(interface, "org.mpris.MediaPlayer2.Player") && (
        any_playback_key(changed) || any_playback_key(invalidated));
        assert(string_views(r@) =~= Seq::<Seq<char>>::empty());
        match sender {
            None => r,
            Some(from) => {
                if !relevant {
                    return r;
                }
                let mut k: usize = 0;
                assert(self.entries@.take(0) =~= Seq::<(String, String)>::empty());
                while k < self.entries.len()
                    invariant
                        k <= self.entries@.len(),
                        string_views(r@) == owned_by(self.entries@.take(k as int), from@),
                    decreases self.entries@.len() - k,
                {
                    assert(self.entries@.take(k + 1).drop_last() =~= self.entries@.take(k as int));
                    if crate::text::text_is(self.entries[k].1.as_str(), from.as_str()) {
                        let name = self.entries[k].0.clone();
                        r.push(name);
                        assert(string_views(r@) =~= owned_by(self.entries@.take(k as int), from@).push(
                            self.entries@[k as int].0@,
                        ));
                    }
                    k = k + 1;
                }
                assert(self.entries@.take(k as int) =~= self.entries@);
                r
            },
        }
    }
}

/// The texts of a sequence of strings.
pub open spec fn string_views(strings: Seq<String>) -> Seq<Seq<char>> {
    strings.map_values(|s: String| s@)
}

/// The names of the entries owned by `owner`, in order.
pub open spec fn owned_by(entries: Seq<(String, String)>, owner: Seq<char>) -> Seq<Seq<char>>
    decreases entries.len(),
{
    if entries.len() == 0 {
        Seq::empty()
    } else {
        let rest = owned_by(entries.drop_last(), owner);
        if entries.last().1@ == owner {
            rest.push(entries.last().0@)
        } else {
            rest
        }
    }
}

proof fn lemma_owned_by(entries: Seq<(String, String)>, owner: Seq<char>, n: Seq<char>)
    ensures
        owned_by(entries, owner).contains(n) <==> exists|i: int|
            0 <= i < entries.len() && #[trigger] entries[i].0@ == n && entries[i].1@ == owner,
    decreases entries.len(),
{
    if entries.len() > 0 {
        let front = entries.drop_last();
        lemma_owned_by(front, owner, n);
        let rest = owned_by(front, owner);
        let last = entries.len() - 1;
        if exists|i: int| 0 <= i < front.len() && #[trigger] front[i].0@ == n && front[i].1@ == owner {
            let i = choose|i: int|
                0 <= i < front.len() && #[trigger] front[i].0@ == n && front[i].1@ == owner;
            assert(entries[i] == front[i]);
        }
        if exists|i: int|
            0 <= i < entries.len() && #[trigger] entries[i].0@ == n && entries[i].1@ == owner {
            let i = choose|i: int|
                0 <= i < entries.len() && #[trigger] entries[i].0@ == n && entries[i].1@ == owner;
            if i < last {
                assert(front[i] == entries[i]);
            }
        }
        if entries.last().1@ == owner {
            assert(rest.push(entries.last().0@).contains(n) <==> (rest.contains(n) || n
                == entries.last().0@)) by {
                if rest.push(entries.last().0@).contains(n) {
                    let j = choose|j: int|
                        0 <= j < rest.len() + 1 && rest.push(entries.last().0@)[j] == n;
                    if j < rest.len() {
                        assert(rest[j] == n);
                    }
                }
                if rest.contains(n) {
                    let j = choose|j: int| 0 <= j < rest.len() && rest[j] == n;
                    assert(rest.push(entries.last().0@)[j] == n);
                }
                if n == entries.last().0@ {
                    assert(rest.push(entries.last().0@)[rest.len() as int] == n);
                }
            }
        }
    }
}

/// A change of properties that tells of playback reports a player exactly
/// when the recorded owner of that player sent it.
pub proof fn properties_report_owned_players(owners: PlayerOwners, from: Seq<char>, n: Seq<char>)
    requires
        owners.wf(),
    ensures
        owned_by(owners.entries@, from).contains(n) <==> owners.owner(n) == Some(from),
{
    lemma_owned_by(owners.entries@, from, n);
    PlayerOwners::lemma_owner_index(owners.entries@, n);
    if owners.owner(n) == Some(from) {
        let i = choose|i: int|
            0 <= i < owners.entries@.len() && #[trigger] owners.entries@[i].0@ == n
                && owners.entries@[i].1@ == from;
        assert(owners.entries@[i].0@ == n);
    }
}

} // verus!
