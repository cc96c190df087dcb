//! The rebuild orchestrator's decisions: what happens after the initial
//! pass, how change notifications are debounced, and what a rebuild's
//! outcome means for the watch loop. The waiting itself — timers, watches,
//! sockets — runs outside the library and feeds events in.

use vstd::prelude::*;
use crate::config::BookConfig;

verus! {

/// Where the orchestrator stands.
#[derive(Debug, Clone, Copy, PartialEq, Eq, Structural)]
pub enum Phase {
    Idle,
    Building,
    WatchingDebounce,
    Terminated,
}

/// What the loop's driver must do next.
#[derive(Debug, Clone, Copy, PartialEq, Eq, Structural)]
pub enum LoopAction {
    SignalReload,
    LogError,
}

/// The debounce window's state: whether a change arrived since the last
/// tick.
#[derive(Debug, Clone, Copy, PartialEq, Eq, Structural)]
pub struct WatchState {
    pub phase: Phase,
    pub pending: bool,
}

/// Where the orchestrator goes after the initial pass: a failed pass is
/// fatal, a one-shot build ends cleanly, and a watch or serve run enters
/// the debounce loop.
pub fn after_initial_build(build_ok: bool, watch: bool, serve: bool) -> (r: WatchState)
    ensures
        !build_ok ==> r.phase == Phase::Terminated,
        build_ok && !watch && !serve ==> r.phase == Phase::Terminated,
        build_ok && (watch || serve) ==> r.phase == Phase::WatchingDebounce,
        !r.pending,
{
    if !build_ok {
        WatchState { phase: Phase::Terminated, pending: false }
    } else if watch || serve {
        WatchState { phase: Phase::WatchingDebounce, pending: false }
    } else {
        WatchState { phase: Phase::Terminated, pending: false }
    }
}

/// A change notification arrived: remember it; nothing rebuilds yet.
pub fn on_change(st: WatchState) -> (r: WatchState)
    ensures
        r.phase == st.phase,
        r.pending,
{
    WatchState { phase: st.phase, pending: true }
}

/// The debounce timer ticked: exactly when changes were pending, one
/// rebuild starts and the pending changes are drained.
pub fn on_tick(st: WatchState) -> (r: (WatchState, bool))
    requires
        st.phase == Phase::WatchingDebounce,
    ensures
        r.1 == st.pending,
        !r.0.pending,
        r.1 ==> r.0.phase == Phase::Building,
        !r.1 ==> r.0.phase == Phase::WatchingDebounce,
{
    if st.pending {
        (WatchState { phase: Phase::Building, pending: false }, true)
    } else {
        (WatchState { phase: Phase::WatchingDebounce, pending: false }, false)
    }
}

/// A rebuild finished: success tells the live-reload clients, failure is
/// logged and swallowed; either way the loop watches on.
pub fn on_rebuild_done(st: WatchState, rebuild_ok: bool) -> (r: (WatchState, LoopAction))
    requires
        st.phase == Phase::Building,
    ensures
        r.0.phase == Phase::WatchingDebounce,
        r.0.pending == st.pending,
        rebuild_ok ==> r.1 == LoopAction::SignalReload,
        !rebuild_ok ==> r.1 == LoopAction::LogError,
{
    if rebuild_ok {
        (WatchState { phase: Phase::WatchingDebounce, pending: st.pending }, LoopAction::SignalReload)
    } else {
        (WatchState { phase: Phase::WatchingDebounce, pending: st.pending }, LoopAction::LogError)
    }
}

/// The templates directory to watch, if the caller found it on disk.
pub fn get_templates_dir(config: &BookConfig, dir_exists: bool) -> (r: Option<String>)
    ensures
        dir_exists ==> (r matches Some(d) && d@ == config.paths.templates@),
        !dir_exists ==> r is None,
{
    if dir_exists {
        Some(config.paths.templates.clone())
    } else {
        None
    }
}

} // verus!
