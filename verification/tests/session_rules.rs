use rudo::session::{
    session_bootstrap, watch_action, watch_step, SessionStart, WatchAction, WatchEvent,
    WatchState, POLL_INTERVAL_MILLIS,
};

#[test]
fn watcher_is_started_once_per_shell() {
    assert_eq!(session_bootstrap(true), SessionStart::SpawnWatcher);
    assert_eq!(session_bootstrap(false), SessionStart::AlreadyWatched);
}

#[test]
fn shell_is_probed_once_per_second() {
    assert_eq!(POLL_INTERVAL_MILLIS, 1000);
    assert_eq!(watch_action(WatchState::Watching), WatchAction::SleepAndProbe);
}

#[test]
fn session_cleanup_end_to_end() {
    let mut state = WatchState::Watching;
    for _ in 0..3 {
        let (next, action) = watch_step(state, WatchEvent::Probed { alive: true });
        assert_eq!((next, action), (WatchState::Watching, WatchAction::SleepAndProbe));
        state = next;
    }
    let (state, action) = watch_step(state, WatchEvent::Probed { alive: false });
    assert_eq!((state, action), (WatchState::RemovingMarker, WatchAction::RemoveMarker));
    let (state, action) = watch_step(state, WatchEvent::Removed { ok: true });
    assert_eq!((state, action), (WatchState::RemovingCache, WatchAction::RemoveCacheDir));
    let (state, action) = watch_step(state, WatchEvent::Removed { ok: true });
    assert_eq!((state, action), (WatchState::Finished, WatchAction::Exit));
    assert_eq!(session_bootstrap(true), SessionStart::SpawnWatcher);
}

#[test]
fn failed_removal_ends_the_watcher_with_failure() {
    let (state, action) = watch_step(WatchState::RemovingMarker, WatchEvent::Removed { ok: false });
    assert_eq!((state, action), (WatchState::Failed, WatchAction::Fail));
    let (state, action) = watch_step(WatchState::RemovingCache, WatchEvent::Removed { ok: false });
    assert_eq!((state, action), (WatchState::Failed, WatchAction::Fail));
    let (state, action) = watch_step(state, WatchEvent::Removed { ok: true });
    assert_eq!((state, action), (WatchState::Failed, WatchAction::Fail));
}

#[test]
fn events_that_answer_nothing_change_nothing() {
    assert_eq!(
        watch_step(WatchState::Watching, WatchEvent::Removed { ok: true }),
        (WatchState::Watching, WatchAction::SleepAndProbe)
    );
    assert_eq!(
        watch_step(WatchState::RemovingMarker, WatchEvent::Probed { alive: true }),
        (WatchState::RemovingMarker, WatchAction::RemoveMarker)
    );
    assert_eq!(
        watch_step(WatchState::Finished, WatchEvent::Probed { alive: false }),
        (WatchState::Finished, WatchAction::Exit)
    );
}
