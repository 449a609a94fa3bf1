//! Watcher logic: which filesystem events qualify as database changes, and
//! the debounce state machine that collapses event bursts.
//!
//! The blocking event loop itself lives outside the library; it feeds events
//! and clock readings into these verified decisions.

use vstd::prelude::*;

verus! {

use crate::fsmodel::{db_prefix_chars, db_prefix_str};
use crate::strutil::{basename_spec, basename_of, starts_with_spec, str_starts_with};
use crate::time::UtcTime;

/// The kinds of filesystem event the watcher distinguishes.
#[derive(Clone, Copy, Debug, PartialEq, Eq, Structural)]
pub enum FsEventKind {
    Create,
    Modify,
    Remove,
    Other,
}

/// One filesystem event: a kind and the affected paths.
pub struct FsEvent {
    pub kind: FsEventKind,
    pub paths: Vec<String>,
}

/// A qualifying event: a create or modify touching some path whose final
/// component begins with the database prefix.
pub open spec fn is_db_event_spec(kind: FsEventKind, paths: Seq<Seq<char>>) -> bool {
    &&& (kind == FsEventKind::Modify || kind == FsEventKind::Create)
    &&& exists|i: int|
        0 <= i < paths.len() && starts_with_spec(
            basename_spec(#[trigger] paths[i]),
            db_prefix_chars(),
        )
}

/// Check whether an event relates to `database.db*` files.
pub fn is_db_event(event: &FsEvent) -> (r: bool)
    ensures
        r == is_db_event_spec(event.kind, event.paths.deep_view()),
{
    let qualifies_kind = match event.kind {
        FsEventKind::Modify => true,
        FsEventKind::Create => true,
        _ => false,
    };
    if !qualifies_kind {
        return false;
    }
    let mut i: usize = 0;
    while i < event.paths.len()
        invariant
            i <= event.paths@.len(),
            event.kind == FsEventKind::Modify || event.kind == FsEventKind::Create,
            forall|j: int|
                0 <= j < i ==> !starts_with_spec(
                    basename_spec(#[trigger] event.paths.deep_view()[j]),
                    db_prefix_chars(),
                ),
        decreases event.paths@.len() - i,
    {
        let base = basename_of(event.paths[i].as_str());
        if str_starts_with(base, db_prefix_str()) {
            assert(event.paths.deep_view()[i as int] == event.paths@[i as int]@);
            return true;
        }
        assert(event.paths.deep_view()[i as int] == event.paths@[i as int]@);
        i += 1;
    }
    false
}

/// The debounce timer: the instant of the last qualifying event, in
/// milliseconds of some monotonic clock, or nothing while quiet.
pub struct DebounceState {
    pub last_event_ms: Option<u64>,
}

impl DebounceState {
    pub fn new() -> (s: DebounceState)
        ensures
            s.last_event_ms is None,
    {
        DebounceState { last_event_ms: None }
    }

    /// A qualifying event arrived now.
    pub fn note_event(&mut self, now_ms: u64)
        ensures
            final(self).last_event_ms == Some(now_ms),
    {
        self.last_event_ms = Some(now_ms);
    }

    /// A periodic tick: fire exactly when a burst ended at least the
    /// debounce window ago, and clear the timer when firing.
    pub fn poll_fire(&mut self, now_ms: u64, debounce_ms: u64) -> (fire: bool)
        ensures
            fire == (old(self).last_event_ms matches Some(t) && now_ms >= t && now_ms - t
                >= debounce_ms),
            final(self).last_event_ms == if fire {
                None::<u64>
            } else {
                old(self).last_event_ms
            },
    {
        match self.last_event_ms {
            Some(t) => {
                if now_ms >= t && now_ms - t >= debounce_ms {
                    self.last_event_ms = None;
                    true
                } else {
                    false
                }
            },
            None => false,
        }
    }
}

/// Event emitted when a debounced configuration change is detected.
pub struct ConfigChanged {
    pub config_dir: String,
    pub timestamp: UtcTime,
}

/// Watches the configuration directory with a debounce window in seconds.
pub struct ConfigWatcher {
    pub config_dir: String,
    pub debounce_secs: u64,
}

impl ConfigWatcher {
    pub fn new(config_dir: String, debounce_secs: u64) -> (w: ConfigWatcher)
        ensures
            w.config_dir == config_dir,
            w.debounce_secs == debounce_secs,
    {
        ConfigWatcher { config_dir, debounce_secs }
    }

    /// The debounce window in milliseconds, saturating at the type's top.
    pub fn debounce_millis(&self) -> (ms: u64)
        ensures
            self.debounce_secs <= u64::MAX / 1000 ==> ms == self.debounce_secs * 1000,
    {
        if self.debounce_secs <= u64::MAX / 1000 {
            self.debounce_secs * 1000
        } else {
            u64::MAX
        }
    }
}

} // verus!
