//! A notification cell for one waiter.
//!
//! A producer signals that something changed; a consumer waits for the next
//! signal. The cell remembers one signal that nobody has seen yet, or one
//! waiter that no signal has reached yet, never both and never more.

use vstd::prelude::*;

verus! {

/// What a signal cell holds.
pub enum SignalState<W> {
    /// No signal is pending and nobody waits.
    Idle,
    /// A signal was given that no waiter has seen yet.
    PendingEvent,
    /// A waiter is registered and no signal has reached it yet.
    Waiting(W),
}

/// The state after `signal()` in state `s`, and the waiter that the signal
/// reaches.
pub open spec fn signal_step<W>(s: SignalState<W>) -> (SignalState<W>, Option<W>) {
    match s {
        SignalState::Idle => (SignalState::PendingEvent, None),
        SignalState::PendingEvent => (SignalState::PendingEvent, None),
        SignalState::Waiting(w) => (SignalState::Idle, Some(w)),
    }
}

/// The state after `waiter` starts to wait in state `s`, and whether its
/// wait is over at once.
pub open spec fn wait_step<W>(s: SignalState<W>, waiter: W) -> (SignalState<W>, bool) {
    match s {
        SignalState::PendingEvent => (SignalState::Idle, true),
        _ => (SignalState::Waiting(waiter), false),
    }
}

/// One poll of a wait in state `s`: the state after it, whether the wait
/// is over, and whether `waiter` is registered after it.
///
/// A waiter that was registered and finds no waiter in the cell has been
/// reached by a signal: its wait is over, and the cell stays as it is. Any
/// other poll starts or renews the wait.
pub open spec fn poll_step<W>(s: SignalState<W>, registered: bool, waiter: W) -> (
    SignalState<W>,
    bool,
    bool,
) {
    if registered && !(s is Waiting) {
        (s, true, false)
    } else {
        (wait_step(s, waiter).0, wait_step(s, waiter).1, !wait_step(s, waiter).1)
    }
}

/// The state after the waiter gives up in state `s`.
pub open spec fn cancel_step<W>(s: SignalState<W>) -> SignalState<W> {
    match s {
        SignalState::Waiting(_) => SignalState::Idle,
        _ => s,
    }
}

/// A notification cell for one waiter of kind `W`.
pub struct Signal<W> {
    pending: bool,
    waiter: Option<W>,
}

impl<W> Signal<W> {
    /// What the cell holds.
    pub closed spec fn state(&self) -> SignalState<W> {
        match self.waiter {
            Some(w) => SignalState::Waiting(w),
            None => if self.pending {
                SignalState::PendingEvent
            } else {
                SignalState::Idle
            },
        }
    }

    /// A cell in which nothing is pending and nobody waits.
    pub fn new() -> (s: Self)
        ensures
            s.state() == SignalState::<W>::Idle,
    {
        Signal { pending: false, waiter: None }
    }

    /// Signals a change. The waiter, if there is one, is handed back to be
    /// woken, and has then seen the signal; without a waiter the signal
    /// stays pending, one signal however often it is given.
    pub fn signal(&mut self) -> (woken: Option<W>)
        ensures
            (final(self).state(), woken) == signal_step(old(self).state()),
    {
        let woken = self.waiter.take();
        self.pending = woken.is_none();
        woken
    }

    /// Starts or renews the wait of `waiter`. A pending signal ends the
    /// wait at once and is used up by it. Otherwise `waiter` is the one
    /// that the next signal reaches, in place of any other that waited.
    pub fn poll_wait(&mut self, waiter: W) -> (ready: bool)
        ensures
            (final(self).state(), ready) == wait_step(old(self).state(), waiter),
    {
        if self.pending && self.waiter.is_none() {
            self.pending = false;
            true
        } else {
            self.pending = false;
            self.waiter = Some(waiter);
            false
        }
    }

    /// One poll of the wait of `waiter`, which is `registered` if an
    /// earlier poll of the same wait has registered it. The result says
    /// whether the wait is over and whether `waiter` is registered now.
    pub fn poll(&mut self, registered: bool, waiter: W) -> (r: (bool, bool))
        ensures
            (final(self).state(), r.0, r.1) == poll_step(old(self).state(), registered, waiter),
    {
        if registered && self.waiter.is_none() {
            (true, false)
        } else {
            let ready = self.poll_wait(waiter);
            (ready, !ready)
        }
    }

    /// Gives up the wait: nobody is registered afterwards. A pending signal
    /// stays.
    pub fn cancel(&mut self)
        ensures
            final(self).state() == cancel_step(old(self).state()),
    {
        if self.waiter.is_some() {
            self.waiter = None;
            self.pending = false;
        }
    }

    /// Whether a signal is pending.
    pub fn is_pending(&self) -> (b: bool)
        ensures
            b == (self.state() is PendingEvent),
    {
        self.pending && self.waiter.is_none()
    }

    /// Whether a waiter is registered.
    pub fn is_waiting(&self) -> (b: bool)
        ensures
            b == (self.state() is Waiting),
    {
        self.waiter.is_some()
    }
}

/// A signal that is given before anyone waits ends the next wait at once,
/// and only that one: the wait after it is suspended.
pub proof fn law_signal_before_wait<W>(s: SignalState<W>, first: W, second: W)
    requires
        !(s is Waiting),
    ensures
        signal_step(s).1 is None,
        wait_step(signal_step(s).0, first) == (SignalState::<W>::Idle, true),
        wait_step(wait_step(signal_step(s).0, first).0, second) == (
            SignalState::Waiting(second),
            false,
        ),
{
}

/// Signals that no wait separates count as one: the state after the
/// second is the state after the first, so one wait uses them up.
pub proof fn law_signals_coalesce<W>(s: SignalState<W>, first: W, second: W)
    requires
        !(s is Waiting),
    ensures
        signal_step(signal_step(s).0) == signal_step(s),
        wait_step(signal_step(signal_step(s).0).0, first) == (SignalState::<W>::Idle, true),
        wait_step(wait_step(signal_step(signal_step(s).0).0, first).0, second).1 == false,
{
}

/// The next signal reaches the waiter that registered last, and nobody
/// waits after it.
pub proof fn law_signal_reaches_last_waiter<W>(s: SignalState<W>, first: W, second: W)
    requires
        !(s is PendingEvent),
    ensures
        signal_step(wait_step(s, first).0) == (SignalState::<W>::Idle, Some(first)),
        signal_step(wait_step(wait_step(s, first).0, second).0) == (
            SignalState::<W>::Idle,
            Some(second),
        ),
{
}

/// A wait that is given up leaves no waiter behind: nobody is registered
/// after it, whether the wait began with or without a pending signal. A
/// pending signal outlasts a cancellation that no wait went before.
pub proof fn law_cancel_leaves_nothing<W>(waiter: W)
    ensures
        cancel_step(wait_step(SignalState::<W>::Idle, waiter).0) == SignalState::<W>::Idle,
        cancel_step(wait_step(SignalState::<W>::PendingEvent, waiter).0) == SignalState::<
            W,
        >::Idle,
        cancel_step(SignalState::<W>::PendingEvent) == SignalState::<W>::PendingEvent,
        cancel_step(SignalState::<W>::Idle) == SignalState::<W>::Idle,
{
}

/// A wait ends with the next signal, and with no poll before it.
///
/// A waiter whose first poll finds nothing pending is registered and
/// suspended. As long as no signal is given, every further poll suspends
/// it again. After the next signal its next poll ends the wait, and the
/// waiter is registered no more.
pub proof fn law_wait_ends_with_next_signal<W>(s: SignalState<W>, waiter: W)
    requires
        !(s is PendingEvent),
    ensures
        poll_step(s, false, waiter) == (SignalState::Waiting(waiter), false, true),
        poll_step(SignalState::Waiting(waiter), true, waiter) == (
            SignalState::Waiting(waiter),
            false,
            true,
        ),
        signal_step(SignalState::Waiting(waiter)) == (SignalState::<W>::Idle, Some(waiter)),
        poll_step(SignalState::<W>::Idle, true, waiter) == (SignalState::<W>::Idle, true, false),
{
}

} // verus!
