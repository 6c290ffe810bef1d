//! The guardian: the daemon's "protect the extension" decision, taken once
//! per check. If the extension's heartbeat has gone stale (it was disabled,
//! removed or crashed), the supported browsers are closed; never while the
//! user's session is locked or the system suspended, never during the
//! startup grace period or while the daemon is shutting down on purpose,
//! and, when no heartbeat has arrived at all yet, only
//! after `NEVER_CONNECTED_TOLERANCE` consecutive checks.
//!
//! Times are milliseconds since the daemon started.

use vstd::prelude::*;
use crate::server::{AppState, HEARTBEAT_TIMEOUT_MS, heartbeat_fresh, extension_connected};

verus! {

/// How often the guardian checks.
pub const CHECK_INTERVAL_MS: u64 = 10_000;

/// Grace period after daemon startup before "no heartbeat yet" is treated as
/// "the extension is gone".
pub const STARTUP_GRACE_MS: u64 = 90_000;

/// How many consecutive post-grace checks without any heartbeat ever are
/// tolerated before the browsers are closed.
pub const NEVER_CONNECTED_TOLERANCE: u32 = 2;

/// Every supported Chromium-based browser's process name.
pub const SUPPORTED_BROWSER_PROCESSES: [&'static str; 7] = [
    "chrome",
    "chromium",
    "brave",
    "brave-browser",
    "msedge",
    "vivaldi-bin",
    "opera",
];

/// What one check decides.
#[derive(Debug, Clone, Copy, PartialEq, Eq, Structural)]
pub enum GuardianAction {
    /// Leave the browsers alone.
    Wait,
    /// Close every supported browser.
    CloseBrowsers,
}

/// The guardian's own memory between checks: how many consecutive
/// post-grace checks have seen no heartbeat ever.
#[derive(Debug, Clone, Copy)]
pub struct Guardian {
    never_connected_misses: u32,
}

/// One check: from the misses counted so far, the last heartbeat, the
/// current time, whether the session is locked and whether the daemon is
/// shutting down on purpose, the new count and the decision.
pub open spec fn guardian_step(misses: u32, last_heartbeat: Option<u64>, now: u64, session_locked: bool, shutting_down: bool) -> (u32, GuardianAction) {
    if shutting_down || now < STARTUP_GRACE_MS {
        (misses, GuardianAction::Wait)
    } else {
        match last_heartbeat {
            Some(t) => if !heartbeat_fresh(Some(t), now) && !session_locked {
                (0, GuardianAction::CloseBrowsers)
            } else {
                (0, GuardianAction::Wait)
            },
            None => if session_locked {
                (misses, GuardianAction::Wait)
            } else if misses + 1 < NEVER_CONNECTED_TOLERANCE {
                ((misses + 1) as u32, GuardianAction::Wait)
            } else {
                (0, GuardianAction::CloseBrowsers)
            },
        }
    }
}

impl Guardian {
    /// The count of consecutive never-connected misses.
    pub closed spec fn misses(self) -> u32 {
        self.never_connected_misses
    }

    /// The count stays below the tolerance: reaching it closes the browsers
    /// and starts the count again.
    pub closed spec fn wf(self) -> bool {
        self.never_connected_misses < NEVER_CONNECTED_TOLERANCE
    }

    /// A guardian that has seen nothing yet.
    pub fn new() -> (g: Self)
        ensures
            g.wf(),
            g.misses() == 0,
    {
        Guardian { never_connected_misses: 0 }
    }

    /// The number of consecutive never-connected misses so far.
    pub fn misses_so_far(&self) -> (n: u32)
        ensures
            n == self.misses(),
    {
        self.never_connected_misses
    }

    /// One check of the guardian.
    pub fn tick(&mut self, last_heartbeat: Option<u64>, now: u64, session_locked: bool, shutting_down: bool) -> (action: GuardianAction)
        requires
            old(self).wf(),
        ensures
            final(self).wf(),
            (final(self).misses(), action) == guardian_step(old(self).misses(), last_heartbeat, now, session_locked, shutting_down),
            shutting_down ==> action == GuardianAction::Wait && final(self).misses() == old(self).misses(),
    {
        if shutting_down || now < STARTUP_GRACE_MS {
            return GuardianAction::Wait;
        }
        match last_heartbeat {
            Some(t) => {
                self.never_connected_misses = 0;
                if !extension_connected(Some(t), now) {
                    if session_locked {
                        return GuardianAction::Wait;
                    }
                    return GuardianAction::CloseBrowsers;
                }
                GuardianAction::Wait
            },
            None => {
                if session_locked {
                    return GuardianAction::Wait;
                }
                self.never_connected_misses = self.never_connected_misses + 1;
                if self.never_connected_misses < NEVER_CONNECTED_TOLERANCE {
                    return GuardianAction::Wait;
                }
                self.never_connected_misses = 0;
                GuardianAction::CloseBrowsers
            },
        }
    }
}

/// After the browsers have been closed at `now`, the heartbeat timer starts
/// again: the user gets a full heartbeat timeout to reopen the browser and
/// let the extension reconnect.
pub fn note_browsers_closed(state: &mut AppState, now: u64)
    ensures
        final(state).last_heartbeat == Some(now),
        final(state).lock_state == old(state).lock_state,
        final(state).shutting_down == old(state).shutting_down,
{
    state.last_heartbeat = Some(now);
}

/// The guardian never closes the browsers while the session is locked or
/// the system is suspended.
pub proof fn never_closes_while_session_locked(misses: u32, last_heartbeat: Option<u64>, now: u64, shutting_down: bool)
    ensures
        guardian_step(misses, last_heartbeat, now, true, shutting_down).1 == GuardianAction::Wait,
{
}

/// The guardian never closes the browsers while the daemon is shutting down
/// on purpose, and keeps its count as it was.
pub proof fn never_closes_while_shutting_down(misses: u32, last_heartbeat: Option<u64>, now: u64, session_locked: bool)
    ensures
        guardian_step(misses, last_heartbeat, now, session_locked, true) == (misses, GuardianAction::Wait),
{
}

/// The guardian never closes the browsers during the startup grace period.
pub proof fn never_closes_during_startup_grace(misses: u32, last_heartbeat: Option<u64>, now: u64, session_locked: bool, shutting_down: bool)
    requires
        now < STARTUP_GRACE_MS,
    ensures
        guardian_step(misses, last_heartbeat, now, session_locked, shutting_down) == (misses, GuardianAction::Wait),
{
}

/// The guardian never closes the browsers while the heartbeat is fresh.
pub proof fn never_closes_while_heartbeat_fresh(misses: u32, last_heartbeat: Option<u64>, now: u64, session_locked: bool, shutting_down: bool)
    requires
        heartbeat_fresh(last_heartbeat, now),
    ensures
        guardian_step(misses, last_heartbeat, now, session_locked, shutting_down).1 == GuardianAction::Wait,
{
}

/// A heartbeat that was received and then went stale closes the browsers on
/// the very next check after the grace period, unless the session is locked.
pub proof fn stale_heartbeat_closes_at_once(misses: u32, t: u64, now: u64)
    requires
        now >= STARTUP_GRACE_MS,
        !heartbeat_fresh(Some(t), now),
    ensures
        guardian_step(misses, Some(t), now, false, false) == (0u32, GuardianAction::CloseBrowsers),
{
}

/// With no heartbeat ever, the first unlocked check after the grace period
/// only waits, and the second consecutive one closes the browsers.
pub proof fn never_connected_closes_on_second_check(now1: u64, now2: u64)
    requires
        now1 >= STARTUP_GRACE_MS,
        now2 >= STARTUP_GRACE_MS,
    ensures
        guardian_step(0, None, now1, false, false) == (1u32, GuardianAction::Wait),
        guardian_step(1, None, now2, false, false) == (0u32, GuardianAction::CloseBrowsers),
{
}

/// From any reachable count, a run of unlocked post-grace checks without any
/// heartbeat closes the browsers within `NEVER_CONNECTED_TOLERANCE` checks.
pub proof fn never_connected_closes_within_tolerance(misses: u32, now1: u64, now2: u64)
    requires
        misses < NEVER_CONNECTED_TOLERANCE,
        now1 >= STARTUP_GRACE_MS,
        now2 >= STARTUP_GRACE_MS,
    ensures
        guardian_step(misses, None, now1, false, false).1 == GuardianAction::CloseBrowsers
            || guardian_step(guardian_step(misses, None, now1, false, false).0, None, now2, false, false).1
            == GuardianAction::CloseBrowsers,
{
}

/// Closing the browsers restarts the heartbeat timer: for a full timeout
/// afterwards the extension counts as connected and the guardian waits.
pub proof fn closing_grants_a_full_timeout(closed_at: u64, now: u64, misses: u32, session_locked: bool, shutting_down: bool)
    requires
        closed_at <= now < closed_at + HEARTBEAT_TIMEOUT_MS,
    ensures
        heartbeat_fresh(Some(closed_at), now),
        guardian_step(misses, Some(closed_at), now, session_locked, shutting_down).1 == GuardianAction::Wait,
{
}

/// The status report and the guardian share one timeout, so they never
/// disagree: while the report says the extension is connected the guardian
/// waits, and once a received heartbeat is reported stale (past the grace
/// period, session unlocked) the guardian closes the browsers.
pub proof fn status_and_guardian_agree(misses: u32, t: u64, now: u64, session_locked: bool, shutting_down: bool)
    ensures
        heartbeat_fresh(Some(t), now) ==> guardian_step(misses, Some(t), now, session_locked, shutting_down).1 == GuardianAction::Wait,
        (!heartbeat_fresh(Some(t), now) && now >= STARTUP_GRACE_MS && !session_locked && !shutting_down)
            ==> guardian_step(misses, Some(t), now, session_locked, shutting_down).1 == GuardianAction::CloseBrowsers,
{
}

/// A check while the session is locked or the daemon is shutting down never
/// counts as a never-connected miss: with no heartbeat ever, the count stays
/// as it was. So after any number of such checks from a fresh guardian, the
/// first unlocked check past the grace period still only waits.
pub proof fn locked_checks_do_not_count_as_misses(misses: u32, now: u64, shutting_down: bool, later: u64)
    requires
        later >= STARTUP_GRACE_MS,
    ensures
        guardian_step(misses, None, now, true, shutting_down).0 == misses,
        guardian_step(misses, None, now, false, true).0 == misses,
        guardian_step(guardian_step(0, None, now, true, shutting_down).0, None, later, false, false)
            == (1u32, GuardianAction::Wait),
{
}

/// The count only grows by one per unlocked, post-grace check without any
/// heartbeat, and a received heartbeat (after the grace period) clears it.
pub proof fn misses_count_only_unlocked_silent_checks(misses: u32, last_heartbeat: Option<u64>, now: u64, session_locked: bool, shutting_down: bool)
    requires
        misses < NEVER_CONNECTED_TOLERANCE,
    ensures
        ({
            let (next, action) = guardian_step(misses, last_heartbeat, now, session_locked, shutting_down);
            &&& next <= misses + 1
            &&& next == misses + 1 ==> (last_heartbeat is None && !session_locked && !shutting_down
                && now >= STARTUP_GRACE_MS && action == GuardianAction::Wait)
            &&& (last_heartbeat is Some && !shutting_down && now >= STARTUP_GRACE_MS) ==> next == 0
        }),
{
}

} // verus!
