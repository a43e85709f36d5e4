//! The decisions of the main loop: what a new configuration rebuilds, when
//! to refresh from the source, and when a failing source clears the bar.
use vstd::prelude::*;

use crate::options::{text_of, Options, OptionsView};
use crate::text::text_is;

verus! {

/// What applying new settings has to redo.
pub struct Reconfigure {
    /// Open the source anew (and start a fresh engine).
    pub rebuild_source: bool,
    /// Point the running engine's cover cache at the new paths.
    pub reset_cover_cache: bool,
    /// Create the output anew.
    pub recreate_output: bool,
}

/// What a change from `current` to `next` settings redoes: the source when
/// there is no engine yet or it moved; otherwise the cover cache when a
/// cover path changed; the output when its kind, opacity or signal changed.
pub open spec fn reconfigure_of(current: OptionsView, next: OptionsView, has_engine: bool) -> (
    bool,
    bool,
    bool,
) {
    let source_changed = current.source != next.source || current.source_endpoint
        != next.source_endpoint;
    let rebuild = !has_engine || source_changed;
    let covers_changed = current.cover_dir != next.cover_dir || current.current_cover
        != next.current_cover;
    let output_changed = current.output != next.output || current.inactive_opacity
        != next.inactive_opacity || current.waybar_signal != next.waybar_signal;
    (rebuild, !rebuild && covers_changed, output_changed)
}

/// Applying the settings already in force to a running engine redoes nothing.
pub proof fn unchanged_settings_redo_nothing(o: OptionsView)
    ensures
        reconfigure_of(o, o, true) == (false, false, false),
{
}

fn same_path(a: &Option<String>, b: &Option<String>) -> (r: bool)
    ensures
        r == (text_of(*a) == text_of(*b)),
{
    match (a, b) {
        (Some(x), Some(y)) => text_is(x.as_str(), y.as_str()),
        (None, None) => true,
        _ => false,
    }
}

/// What applying `next` in place of `current` redoes.
pub fn reconfigure(current: &Options, next: &Options, has_engine: bool) -> (r: Reconfigure)
    ensures
        (r.rebuild_source, r.reset_cover_cache, r.recreate_output) == reconfigure_of(
            current@,
            next@,
            has_engine,
        ),
{
    let source_changed = current.source != next.source || !text_is(
        current.source_endpoint.as_str(),
        next.source_endpoint.as_str(),
    );
    let rebuild = !has_engine || source_changed;
    let covers_changed = !same_path(&current.cover_dir, &next.cover_dir) || !same_path(
        &current.current_cover,
        &next.current_cover,
    );
    let output_changed = current.output != next.output || current.inactive_opacity
        != next.inactive_opacity || current.waybar_signal != next.waybar_signal;
    Reconfigure {
        rebuild_source: rebuild,
        reset_cover_cache: !rebuild && covers_changed,
        recreate_output: output_changed,
    }
}

/// Milliseconds between scheduled refreshes from the source.
pub const RESYNC_MS: u64 = 1000;

/// Milliseconds of failing refreshes after which the playback is cleared.
pub const FAILURE_GRACE_MS: u64 = 2000;

/// The loop's clock-driven state: when the next scheduled refresh is due,
/// and since when refreshes have been failing.
pub struct Schedule {
    pub next_resync_ms: u64,
    pub failed_at_ms: Option<u64>,
}

/// What one turn of the loop does before drawing.
#[derive(PartialEq, Eq, Structural, Debug, Clone, Copy)]
pub enum TickStep {
    /// Refresh from the source.
    Refresh,
    /// The source reported an error; count it as a failed refresh.
    Failed,
    /// Nothing to do.
    Idle,
}

impl Schedule {
    /// A schedule with a refresh due at once and no failure.
    pub fn new(now_ms: u64) -> (r: Self)
        ensures
            r.next_resync_ms == now_ms,
            r.failed_at_ms is None,
    {
        Schedule { next_resync_ms: now_ms, failed_at_ms: None }
    }

    /// What to do given the source's update check at `now_ms`: refresh when
    /// it reports a change or a scheduled refresh is due (the next one then
    /// falls a second later).
    pub fn step(&mut self, update: &Result<bool, String>, now_ms: u64) -> (r: TickStep)
        requires
            now_ms <= u64::MAX - RESYNC_MS,
        ensures
            final(self).failed_at_ms == old(self).failed_at_ms,
            match update {
                Ok(changed) => if *changed || now_ms >= old(self).next_resync_ms {
                    r == TickStep::Refresh && final(self).next_resync_ms == now_ms + RESYNC_MS
                } else {
                    r == TickStep::Idle && final(self).next_resync_ms == old(self).next_resync_ms
                },
                Err(_) => r == TickStep::Failed && final(self).next_resync_ms == old(
                    self,
                ).next_resync_ms,
            },
    {
        match update {
            Ok(changed) => if *changed || now_ms >= self.next_resync_ms {
                self.next_resync_ms = now_ms + RESYNC_MS;
                TickStep::Refresh
            } else {
                TickStep::Idle
            },
            Err(_) => TickStep::Failed,
        }
    }

    /// Takes in how a refresh (or the update check) went at `now_ms`; tells
    /// whether the playback is to be cleared, which it is once refreshes
    /// have failed for two seconds.
    pub fn settle(&mut self, ok: bool, now_ms: u64) -> (clear: bool)
        ensures
            ok ==> final(self).failed_at_ms is None && !clear,
            !ok ==> {
                let since = match old(self).failed_at_ms {
                    Some(t) => t,
                    None => now_ms,
                };
                &&& final(self).failed_at_ms == Some(since)
                &&& clear == (now_ms >= since && now_ms - since >= FAILURE_GRACE_MS)
            },
            final(self).next_resync_ms == old(self).next_resync_ms,
    {
        if ok {
            self.failed_at_ms = None;
            false
        } else {
            let since = match self.failed_at_ms {
                Some(t) => t,
                None => now_ms,
            };
            self.failed_at_ms = Some(since);
            now_ms >= since && now_ms - since >= FAILURE_GRACE_MS
        }
    }
}

} // verus!
