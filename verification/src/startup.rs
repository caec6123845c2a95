//! Startup decisions at the process boundary: the single-instance
//! guard and the main-window singleton.
//!
//! The advisory lock file is acquired outside the library; the
//! decision on the outcome is made here. Failure to acquire the lock
//! means another instance owns the caches, and the new process exits
//! immediately and cleanly — exit code zero, no window created, no
//! cache mutated, no queuing and no waiting.

use vstd::prelude::*;

verus! {

/// Failure of the single-instance guard.
#[derive(Clone, Copy, PartialEq, Eq, Structural, Debug)]
pub enum LockError {
    /// Another instance holds the lock; fatal at startup, causes a
    /// clean exit.
    AlreadyHeld,
}

/// What the process does after trying to acquire the startup lock.
#[derive(Clone, Copy, PartialEq, Eq, Structural, Debug)]
pub enum StartupAction {
    /// The lock was acquired: this process owns the caches and runs
    /// the application.
    RunApp,
    /// The lock is held elsewhere: exit immediately with code zero,
    /// creating no window and mutating no cache.
    ExitCleanly,
}

/// Decides startup from the outcome of the exclusive lock attempt:
/// only a process holding the lock runs; any other exits cleanly at
/// once.
pub fn startup_decision(lock_acquired: bool) -> (a: StartupAction)
    ensures
        lock_acquired ==> a == StartupAction::RunApp,
        !lock_acquired ==> a == StartupAction::ExitCleanly,
{
    if lock_acquired {
        StartupAction::RunApp
    } else {
        StartupAction::ExitCleanly
    }
}

/// What startup does about the main window.
#[derive(Clone, Copy, PartialEq, Eq, Structural, Debug)]
pub enum WindowAction {
    /// A main window already exists: focus and unminimize it, create
    /// no second one.
    FocusExisting,
    /// No main window exists yet: create it.
    CreateNew,
}

/// Decides the window singleton: an existing main window is focused,
/// never duplicated.
pub fn window_startup_action(main_window_exists: bool) -> (a: WindowAction)
    ensures
        main_window_exists ==> a == WindowAction::FocusExisting,
        !main_window_exists ==> a == WindowAction::CreateNew,
{
    if main_window_exists {
        WindowAction::FocusExisting
    } else {
        WindowAction::CreateNew
    }
}

} // verus!
