//! Whether the user's Linux session is locked or the system suspended, as
//! learned from systemd-logind: the state kept between D-Bus signals and
//! reconciliation passes, and how each piece of news changes it.
//!
//! Two flags are kept, not one: the session's own lock and the system's
//! suspend. They change independently (a resume can race an unlock), so
//! each is only ever written by the signal or property that owns it, and
//! the combined answer is their OR. Every failure before the first
//! successful connection falls back to "unlocked", never to a stale "locked".

use vstd::prelude::*;

verus! {

/// The watcher's state.
#[derive(Debug, Clone, Copy)]
pub struct SharedState {
    session_locked: bool,
    system_suspended: bool,
    state_known: bool,
    ever_connected: bool,
}

/// A piece of news delivered by logind as a signal.
#[derive(Debug, Clone, Copy)]
pub enum LoginSignal {
    /// `PrepareForSleep(start)`: a suspend is about to start, or has ended.
    PrepareForSleep(bool),
    /// The session was locked.
    Lock,
    /// The session was unlocked.
    Unlock,
}

/// A write to the watcher's state.
#[derive(Debug, Clone, Copy)]
pub enum SessionOp {
    SetSessionLocked(bool),
    SetSystemSuspended(bool),
    ResetToUnlocked,
    MarkKnown,
    MarkUnknown,
}

impl Default for SharedState {
    fn default() -> (s: Self)
        ensures
            s == SharedState::initial(),
            !s.session_locked(),
            !s.system_suspended(),
            !s.known(),
            !s.connected_once(),
    {
        SharedState { session_locked: false, system_suspended: false, state_known: false, ever_connected: false }
    }
}

impl SharedState {
    pub closed spec fn session_locked(self) -> bool {
        self.session_locked
    }

    pub closed spec fn system_suspended(self) -> bool {
        self.system_suspended
    }

    pub closed spec fn known(self) -> bool {
        self.state_known
    }

    /// The state before anything was learned.
    pub closed spec fn initial() -> SharedState {
        SharedState { session_locked: false, system_suspended: false, state_known: false, ever_connected: false }
    }

    /// The state after the write `op`.
    pub closed spec fn after(self, op: SessionOp) -> SharedState {
        match op {
            SessionOp::SetSessionLocked(b) => SharedState { session_locked: b, ..self },
            SessionOp::SetSystemSuspended(b) => SharedState { system_suspended: b, ..self },
            SessionOp::ResetToUnlocked => SharedState {
                session_locked: false,
                system_suspended: false,
                state_known: false,
                ..self
            },
            SessionOp::MarkKnown => SharedState { state_known: true, ..self },
            SessionOp::MarkUnknown => SharedState { state_known: false, ..self },
        }
    }

    /// A connection to logind has been made at least once.
    pub closed spec fn connected_once(self) -> bool {
        self.ever_connected
    }

    /// The session is locked, or the system is suspended.
    pub open spec fn locked(self) -> bool {
        self.session_locked() || self.system_suspended()
    }

    /// Whether the session is locked or the system suspended.
    pub fn is_locked(&self) -> (res: bool)
        ensures
            res == self.locked(),
    {
        self.session_locked || self.system_suspended
    }

    /// Whether the state was confirmed by a complete reconciliation.
    pub fn is_known(&self) -> (res: bool)
        ensures
            res == self.known(),
    {
        self.state_known
    }

    pub fn mark_known(&mut self)
        ensures
            *final(self) == old(self).after(SessionOp::MarkKnown),
            final(self).connected_once() == old(self).connected_once(),
            final(self).known(),
            final(self).session_locked() == old(self).session_locked(),
            final(self).system_suspended() == old(self).system_suspended(),
    {
        self.state_known = true;
    }

    pub fn mark_unknown(&mut self)
        ensures
            *final(self) == old(self).after(SessionOp::MarkUnknown),
            final(self).connected_once() == old(self).connected_once(),
            !final(self).known(),
            final(self).session_locked() == old(self).session_locked(),
            final(self).system_suspended() == old(self).system_suspended(),
    {
        self.state_known = false;
    }

    /// Sets the session-lock flag. Returns whether it changed, so the caller
    /// logs (naming `_source`) only actual transitions.
    pub fn set_session_locked(&mut self, locked: bool, _source: &str) -> (changed: bool)
        ensures
            *final(self) == old(self).after(SessionOp::SetSessionLocked(locked)),
            final(self).connected_once() == old(self).connected_once(),
            final(self).session_locked() == locked,
            final(self).system_suspended() == old(self).system_suspended(),
            final(self).known() == old(self).known(),
            changed == (old(self).session_locked() != locked),
    {
        let previous = self.session_locked;
        self.session_locked = locked;
        previous != locked
    }

    /// Sets the system-suspended flag. Returns whether it changed.
    pub fn set_system_suspended(&mut self, suspended: bool, _source: &str) -> (changed: bool)
        ensures
            *final(self) == old(self).after(SessionOp::SetSystemSuspended(suspended)),
            final(self).connected_once() == old(self).connected_once(),
            final(self).system_suspended() == suspended,
            final(self).session_locked() == old(self).session_locked(),
            final(self).known() == old(self).known(),
            changed == (old(self).system_suspended() != suspended),
    {
        let previous = self.system_suspended;
        self.system_suspended = suspended;
        previous != suspended
    }

    /// Falls back to "unlocked" after losing sight of logind, and marks the
    /// state as not confirmed. Returns whether the session was locked and
    /// whether the system was suspended before.
    pub fn reset_to_unlocked(&mut self, _reason: &str) -> (was: (bool, bool))
        ensures
            *final(self) == old(self).after(SessionOp::ResetToUnlocked),
            final(self).connected_once() == old(self).connected_once(),
            !final(self).session_locked(),
            !final(self).system_suspended(),
            !final(self).known(),
            was == (old(self).session_locked(), old(self).system_suspended()),
    {
        self.state_known = false;
        let was_locked = self.session_locked;
        let was_suspended = self.system_suspended;
        self.session_locked = false;
        self.system_suspended = false;
        (was_locked, was_suspended)
    }

    /// Applies a signal. Returns whether the flag it owns changed.
    pub fn apply_signal(&mut self, signal: LoginSignal) -> (changed: bool)
        ensures
            final(self).connected_once() == old(self).connected_once(),
            final(self).known() == old(self).known(),
            (old(self).session_locked() && !(signal is Unlock)) ==> final(self).locked(),
            match signal {
                LoginSignal::PrepareForSleep(start) => {
                    &&& final(self).system_suspended() == start
                    &&& final(self).session_locked() == old(self).session_locked()
                    &&& changed == (old(self).system_suspended() != start)
                },
                LoginSignal::Lock => {
                    &&& final(self).session_locked()
                    &&& final(self).system_suspended() == old(self).system_suspended()
                    &&& changed == !old(self).session_locked()
                },
                LoginSignal::Unlock => {
                    &&& !final(self).session_locked()
                    &&& final(self).system_suspended() == old(self).system_suspended()
                    &&& changed == old(self).session_locked()
                },
            },
    {
        match signal {
            LoginSignal::PrepareForSleep(start) => self.set_system_suspended(start, "PrepareForSleep signal"),
            LoginSignal::Lock => self.set_session_locked(true, "Lock signal"),
            LoginSignal::Unlock => self.set_session_locked(false, "Unlock signal"),
        }
    }

    /// A reconciliation pass, given what the direct property reads returned
    /// (`None` where a read failed). `PreparingForSleep` corrects the suspend
    /// flag both ways; `LockedHint` may only set the session lock, never
    /// clear it, since lockers are known to leave it false while locked.
    /// Returns whether `LockedHint` read false while the state is locked,
    /// which the caller reports.
    pub fn reconcile(&mut self, preparing_for_sleep: Option<bool>, locked_hint: Option<bool>) -> (hint_ignored: bool)
        ensures
            final(self).connected_once() == old(self).connected_once(),
            final(self).system_suspended() == match preparing_for_sleep {
                Some(s) => s,
                None => old(self).system_suspended(),
            },
            final(self).session_locked() == (locked_hint == Some(true) || old(self).session_locked()),
            final(self).known() == old(self).known(),
            old(self).session_locked() ==> final(self).session_locked(),
            hint_ignored == (locked_hint == Some(false) && final(self).locked()),
    {
        if let Some(suspended) = preparing_for_sleep {
            self.set_system_suspended(suspended, "reconciliation");
        }
        match locked_hint {
            Some(true) => {
                self.set_session_locked(true, "reconciliation");
                false
            },
            Some(false) => self.is_locked(),
            None => false,
        }
    }

    /// A connection to logind was made and its signals are being watched.
    pub fn mark_connected(&mut self)
        ensures
            final(self).connected_once(),
            final(self).session_locked() == old(self).session_locked(),
            final(self).system_suspended() == old(self).system_suspended(),
            final(self).known() == old(self).known(),
    {
        self.ever_connected = true;
    }

    /// The watch loop ended (connection failed or dropped). Until a
    /// connection has ever been made the state falls back to "unlocked";
    /// after that, the last known state is kept until it can be checked
    /// again. Returns whether the fallback was applied.
    pub fn connection_lost(&mut self) -> (reset: bool)
        ensures
            reset == !old(self).connected_once(),
            reset ==> {
                &&& !final(self).session_locked()
                &&& !final(self).system_suspended()
                &&& !final(self).known()
                &&& final(self).connected_once() == old(self).connected_once()
            },
            !reset ==> *final(self) == *old(self),
    {
        if !self.ever_connected {
            self.reset_to_unlocked("no connection to logind yet");
            true
        } else {
            false
        }
    }
}

/// The state reached from `s` by the writes `ops`, in order.
pub open spec fn run_ops(s: SharedState, ops: Seq<SessionOp>) -> SharedState
    decreases ops.len(),
{
    if ops.len() == 0 {
        s
    } else {
        run_ops(s, ops.drop_last()).after(ops.last())
    }
}

/// The last value written to the session-lock flag; false if none was.
pub open spec fn last_session_write(ops: Seq<SessionOp>) -> bool
    decreases ops.len(),
{
    if ops.len() == 0 {
        false
    } else {
        match ops.last() {
            SessionOp::SetSessionLocked(b) => b,
            SessionOp::ResetToUnlocked => false,
            _ => last_session_write(ops.drop_last()),
        }
    }
}

/// The last value written to the suspended flag; false if none was.
pub open spec fn last_suspend_write(ops: Seq<SessionOp>) -> bool
    decreases ops.len(),
{
    if ops.len() == 0 {
        false
    } else {
        match ops.last() {
            SessionOp::SetSystemSuspended(b) => b,
            SessionOp::ResetToUnlocked => false,
            _ => last_suspend_write(ops.drop_last()),
        }
    }
}

proof fn lemma_flags_follow_writes(ops: Seq<SessionOp>)
    ensures
        run_ops(SharedState::initial(), ops).session_locked() == last_session_write(ops),
        run_ops(SharedState::initial(), ops).system_suspended() == last_suspend_write(ops),
    decreases ops.len(),
{
    if ops.len() > 0 {
        lemma_flags_follow_writes(ops.drop_last());
    }
}

/// From the initial state, after any sequence of writes, the watcher reports
/// locked exactly when the last write to the session flag or the last write
/// to the suspended flag was true; marking the state known or unknown never
/// changes the answer.
pub proof fn locked_follows_last_writes(ops: Seq<SessionOp>)
    ensures
        run_ops(SharedState::initial(), ops).locked() == (last_session_write(ops) || last_suspend_write(ops)),
        !SharedState::initial().locked(),
        run_ops(SharedState::initial(), ops.push(SessionOp::MarkKnown)).locked()
            == run_ops(SharedState::initial(), ops).locked(),
        run_ops(SharedState::initial(), ops.push(SessionOp::MarkUnknown)).locked()
            == run_ops(SharedState::initial(), ops).locked(),
{
    lemma_flags_follow_writes(ops);
    assert(ops.push(SessionOp::MarkKnown).drop_last() =~= ops);
    assert(ops.push(SessionOp::MarkUnknown).drop_last() =~= ops);
}

/// Picks the logind session to watch from a listing: the first one with a
/// seat (an unseated session is e.g. an SSH login).
pub fn first_seated_session(seat_ids: &Vec<String>) -> (res: Option<usize>)
    ensures
        match res {
            Some(i) => {
                &&& i < seat_ids@.len()
                &&& seat_ids@[i as int]@.len() > 0
                &&& forall|j: int| 0 <= j < i ==> #[trigger] seat_ids@[j]@.len() == 0
            },
            None => forall|j: int| 0 <= j < seat_ids@.len() ==> #[trigger] seat_ids@[j]@.len() == 0,
        },
{
    let mut i: usize = 0;
    while i < seat_ids.len()
        invariant
            0 <= i <= seat_ids@.len(),
            forall|j: int| 0 <= j < i ==> #[trigger] seat_ids@[j]@.len() == 0,
        decreases seat_ids@.len() - i,
    {
        if !seat_ids[i].as_str().is_empty() {
            return Some(i);
        }
        i += 1;
    }
    None
}

} // verus!
