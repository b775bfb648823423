//! The watcher that forgets a shell's cached authentications once the shell
//! has gone.
//!
//! One watcher runs per shell. Whoever creates the shell's session marker
//! starts it. The watcher probes the shell once per interval; when the
//! shell is gone it removes the marker, then the shell's cache directory,
//! and ends. A removal that fails ends it at once with status 1.

use vstd::prelude::*;

verus! {

/// The pause between two probes of the shell, in milliseconds.
pub const POLL_INTERVAL_MILLIS: u64 = 1000;

/// What to do once the creation of the session marker was tried.
#[derive(Debug, Clone, Copy, PartialEq, Eq, Structural)]
pub enum SessionStart {
    /// The marker is new: start the watcher.
    SpawnWatcher,
    /// The marker was there: a watcher runs already.
    AlreadyWatched,
}

/// Where the watcher stands.
#[derive(Debug, Clone, Copy, PartialEq, Eq, Structural)]
pub enum WatchState {
    /// The shell was alive at the last probe, or was not probed yet.
    Watching,
    /// The shell is gone; the marker is being removed.
    RemovingMarker,
    /// The marker is removed; the cache directory is being removed.
    RemovingCache,
    /// Both are removed.
    Finished,
    /// A removal failed.
    Failed,
}

/// What the watcher learns from the system.
#[derive(Debug, Clone, Copy, PartialEq, Eq, Structural)]
pub enum WatchEvent {
    /// The probe of the shell came back.
    Probed { alive: bool },
    /// The removal that was asked for came back.
    Removed { ok: bool },
}

/// What the watcher does next.
#[derive(Debug, Clone, Copy, PartialEq, Eq, Structural)]
pub enum WatchAction {
    /// Wait for one interval, then probe the shell.
    SleepAndProbe,
    /// Remove the session marker of the shell.
    RemoveMarker,
    /// Remove the cache directory of the shell with all it holds.
    RemoveCacheDir,
    /// End with status 0.
    Exit,
    /// Report the failed removal and end with status 1.
    Fail,
}

/// The state that follows `state` on `event`. An event that does not
/// answer what the state waits for changes nothing.
pub open spec fn watch_next_spec(state: WatchState, event: WatchEvent) -> WatchState {
    match (state, event) {
        (WatchState::Watching, WatchEvent::Probed { alive: true }) => WatchState::Watching,
        (WatchState::Watching, WatchEvent::Probed { alive: false }) => WatchState::RemovingMarker,
        (WatchState::RemovingMarker, WatchEvent::Removed { ok: true }) => WatchState::RemovingCache,
        (WatchState::RemovingMarker, WatchEvent::Removed { ok: false }) => WatchState::Failed,
        (WatchState::RemovingCache, WatchEvent::Removed { ok: true }) => WatchState::Finished,
        (WatchState::RemovingCache, WatchEvent::Removed { ok: false }) => WatchState::Failed,
        _ => state,
    }
}

/// What the watcher does in `state`.
pub open spec fn watch_action_spec(state: WatchState) -> WatchAction {
    match state {
        WatchState::Watching => WatchAction::SleepAndProbe,
        WatchState::RemovingMarker => WatchAction::RemoveMarker,
        WatchState::RemovingCache => WatchAction::RemoveCacheDir,
        WatchState::Finished => WatchAction::Exit,
        WatchState::Failed => WatchAction::Fail,
    }
}

/// The state of a watcher that started watching and then saw `events`.
pub open spec fn watch_run_spec(events: Seq<WatchEvent>) -> WatchState
    decreases events.len(),
{
    if events.len() == 0 {
        WatchState::Watching
    } else {
        watch_next_spec(watch_run_spec(events.drop_last()), events.last())
    }
}

/// Says whether a watcher is to be started, given whether the session
/// marker could be created anew.
pub fn session_bootstrap(marker_created: bool) -> (start: SessionStart)
    ensures
        start == (if marker_created {
            SessionStart::SpawnWatcher
        } else {
            SessionStart::AlreadyWatched
        }),
{
    if marker_created {
        SessionStart::SpawnWatcher
    } else {
        SessionStart::AlreadyWatched
    }
}

/// What the watcher does in `state`.
pub fn watch_action(state: WatchState) -> (action: WatchAction)
    ensures
        action == watch_action_spec(state),
{
    match state {
        WatchState::Watching => WatchAction::SleepAndProbe,
        WatchState::RemovingMarker => WatchAction::RemoveMarker,
        WatchState::RemovingCache => WatchAction::RemoveCacheDir,
        WatchState::Finished => WatchAction::Exit,
        WatchState::Failed => WatchAction::Fail,
    }
}

/// Moves the watcher from `state` on `event`; returns the new state and
/// what to do in it.
pub fn watch_step(state: WatchState, event: WatchEvent) -> (next: (WatchState, WatchAction))
    ensures
        next.0 == watch_next_spec(state, event),
        next.1 == watch_action_spec(next.0),
{
    let to = match state {
        WatchState::Watching => match event {
            WatchEvent::Probed { alive } => if alive {
                WatchState::Watching
            } else {
                WatchState::RemovingMarker
            },
            _ => state,
        },
        WatchState::RemovingMarker => match event {
            WatchEvent::Removed { ok } => if ok {
                WatchState::RemovingCache
            } else {
                WatchState::Failed
            },
            _ => state,
        },
        WatchState::RemovingCache => match event {
            WatchEvent::Removed { ok } => if ok {
                WatchState::Finished
            } else {
                WatchState::Failed
            },
            _ => state,
        },
        _ => state,
    };
    (to, watch_action(to))
}

/// Nothing is removed while the shell lives: a watcher that has only seen
/// the shell alive goes on watching.
pub proof fn lemma_watches_while_alive(events: Seq<WatchEvent>)
    requires
        forall|i: int| 0 <= i < events.len() ==> events[i] == (WatchEvent::Probed { alive: true }),
    ensures
        watch_run_spec(events) == WatchState::Watching,
    decreases events.len(),
{
    if events.len() > 0 {
        lemma_watches_while_alive(events.drop_last());
    }
}

/// Once the shell is seen gone, the marker is removed, then the cache
/// directory, and the watcher ends with status 0.
pub proof fn lemma_cleanup_after_exit(alive_probes: Seq<WatchEvent>)
    requires
        forall|i: int|
            0 <= i < alive_probes.len() ==> alive_probes[i] == (WatchEvent::Probed { alive: true }),
    ensures
        ({
            let gone = alive_probes.push(WatchEvent::Probed { alive: false });
            let marker_removed = gone.push(WatchEvent::Removed { ok: true });
            let cache_removed = marker_removed.push(WatchEvent::Removed { ok: true });
            &&& watch_action_spec(watch_run_spec(gone)) == WatchAction::RemoveMarker
            &&& watch_action_spec(watch_run_spec(marker_removed)) == WatchAction::RemoveCacheDir
            &&& watch_action_spec(watch_run_spec(cache_removed)) == WatchAction::Exit
        }),
{
    lemma_watches_while_alive(alive_probes);
    let gone = alive_probes.push(WatchEvent::Probed { alive: false });
    let marker_removed = gone.push(WatchEvent::Removed { ok: true });
    let cache_removed = marker_removed.push(WatchEvent::Removed { ok: true });
    assert(gone.drop_last() =~= alive_probes);
    assert(marker_removed.drop_last() =~= gone);
    assert(cache_removed.drop_last() =~= marker_removed);
}

/// The cache directory is removed only after the marker was, and each
/// state is reached from the one before it only: the watcher skips no step.
pub proof fn lemma_watch_order(state: WatchState, event: WatchEvent)
    ensures
        watch_next_spec(state, event) == WatchState::RemovingMarker ==> state
            == WatchState::RemovingMarker || (state == WatchState::Watching && event == (
            WatchEvent::Probed { alive: false })),
        watch_next_spec(state, event) == WatchState::RemovingCache ==> state
            == WatchState::RemovingCache || (state == WatchState::RemovingMarker && event == (
            WatchEvent::Removed { ok: true })),
        watch_next_spec(state, event) == WatchState::Finished ==> state == WatchState::Finished || (
        state == WatchState::RemovingCache && event == (WatchEvent::Removed { ok: true })),
        state == WatchState::Finished || state == WatchState::Failed ==> watch_next_spec(state, event)
            == state,
{
}

} // verus!
