//! Control core of the restartable idle timer.
//!
//! The worker thread that owns a timer alternates between a bounded wait
//! (while counting down) and an unbounded wait (while idle), and reacts to
//! each thing it observes — a signal from the channel or the expiry of its
//! bounded wait — by moving to a new phase and possibly emitting one action
//! to the registered callback.  That reaction is a pure function of the
//! current phase and the observed event; it lives here, fully specified,
//! while the channel, the waits and the callback invocation live with the
//! thread that drives it.

use vstd::prelude::*;

use crate::{ACTION, SIGNAL};

verus! {

/// The worker's control phase: counting down, idle after a timeout has
/// fired, or terminated for good.
#[derive(Clone, Copy, Debug, PartialEq, Eq, Structural)]
pub enum TimerPhase {
    /// The timer is armed: the worker waits with a bounded timeout.
    Running,
    /// The timeout has fired: the worker blocks until the next signal.
    Idle,
    /// A terminate signal was processed: the worker exits.
    Stopped,
}

/// One thing the worker can observe while waiting: a signal taken from the
/// channel, or the expiry of its bounded wait.
#[derive(Clone, Copy, Debug, PartialEq)]
pub enum TimerEvent<T> {
    /// A signal arrived before the wait ran out.
    Signal(SIGNAL<T>),
    /// The bounded wait ran out with no signal.
    Elapsed,
}

/// The phase after observing `event` in phase `phase`.
///
/// A start signal always (re)arms the timer; a terminate signal always stops
/// it; a custom signal never changes the phase; an expired wait moves an
/// armed timer to idle and is ignored otherwise.  A stopped timer stays
/// stopped whatever arrives.
pub open spec fn step_phase<T>(phase: TimerPhase, event: TimerEvent<T>) -> TimerPhase {
    match phase {
        TimerPhase::Stopped => TimerPhase::Stopped,
        _ => match event {
            TimerEvent::Signal(SIGNAL::START) => TimerPhase::Running,
            TimerEvent::Signal(SIGNAL::TERMINATE) => TimerPhase::Stopped,
            TimerEvent::Signal(SIGNAL::OTHER(_)) => phase,
            TimerEvent::Elapsed => TimerPhase::Idle,
        },
    }
}

/// The action emitted while observing `event` in phase `phase`, if any.
///
/// A start signal reports whether the timer was already counting down; an
/// expired wait while counting down reports the timeout; everything else is
/// silent.
pub open spec fn step_action<T>(phase: TimerPhase, event: TimerEvent<T>) -> Option<ACTION> {
    match phase {
        TimerPhase::Stopped => None,
        TimerPhase::Running => match event {
            TimerEvent::Signal(SIGNAL::START) => Some(ACTION::START { restarted: true }),
            TimerEvent::Elapsed => Some(ACTION::TIMEOUT),
            _ => None,
        },
        TimerPhase::Idle => match event {
            TimerEvent::Signal(SIGNAL::START) => Some(ACTION::START { restarted: false }),
            _ => None,
        },
    }
}

/// The phase after observing a whole sequence of events in order.
pub open spec fn run_phase<T>(phase: TimerPhase, events: Seq<TimerEvent<T>>) -> TimerPhase
    decreases events.len(),
{
    if events.len() == 0 {
        phase
    } else {
        run_phase(step_phase(phase, events[0]), events.skip(1))
    }
}

/// Every action emitted while observing a sequence of events in order.
pub open spec fn run_actions<T>(phase: TimerPhase, events: Seq<TimerEvent<T>>) -> Seq<ACTION>
    decreases events.len(),
{
    if events.len() == 0 {
        Seq::empty()
    } else {
        let rest = run_actions(step_phase(phase, events[0]), events.skip(1));
        match step_action(phase, events[0]) {
            Some(a) => seq![a] + rest,
            None => rest,
        }
    }
}

/// The state a timer worker keeps for itself: its phase and the idle
/// timeout (in milliseconds) to use for its next bounded wait.
pub struct TimerCore {
    phase: TimerPhase,
    timeout_ms: u64,
}

impl TimerCore {
    /// The current control phase.
    pub closed spec fn phase(&self) -> TimerPhase {
        self.phase
    }

    /// The timeout used for the next bounded wait, in milliseconds.
    pub closed spec fn spec_timeout(&self) -> u64 {
        self.timeout_ms
    }

    /// A freshly constructed timer is armed immediately.
    pub fn new(timeout_ms: u64) -> (r: Self)
        ensures
            r.phase() == TimerPhase::Running,
            r.spec_timeout() == timeout_ms,
    {
        TimerCore { phase: TimerPhase::Running, timeout_ms }
    }

    /// React to one observed event: move to the next phase and hand back the
    /// action to deliver to the callback, if any.
    pub fn handle_event<T>(&mut self, event: &TimerEvent<T>) -> (r: Option<ACTION>)
        ensures
            final(self).phase() == step_phase(old(self).phase(), *event),
            r == step_action(old(self).phase(), *event),
            final(self).spec_timeout() == old(self).spec_timeout(),
    {
        match self.phase {
            TimerPhase::Stopped => None,
            TimerPhase::Running => match event {
                TimerEvent::Signal(SIGNAL::START) => Some(ACTION::START { restarted: true }),
                TimerEvent::Signal(SIGNAL::TERMINATE) => {
                    self.phase = TimerPhase::Stopped;
                    None
                },
                TimerEvent::Signal(SIGNAL::OTHER(_)) => None,
                TimerEvent::Elapsed => {
                    self.phase = TimerPhase::Idle;
                    Some(ACTION::TIMEOUT)
                },
            },
            TimerPhase::Idle => match event {
                TimerEvent::Signal(SIGNAL::START) => {
                    self.phase = TimerPhase::Running;
                    Some(ACTION::START { restarted: false })
                },
                TimerEvent::Signal(SIGNAL::TERMINATE) => {
                    self.phase = TimerPhase::Stopped;
                    None
                },
                TimerEvent::Signal(SIGNAL::OTHER(_)) => None,
                TimerEvent::Elapsed => None,
            },
        }
    }

    /// Whether the timer is counting down.
    pub fn is_running(&self) -> (r: bool)
        ensures
            r == (self.phase() is Running),
    {
        match self.phase {
            TimerPhase::Running => true,
            _ => false,
        }
    }

    /// Whether a terminate signal has been processed.
    pub fn is_stopped(&self) -> (r: bool)
        ensures
            r == (self.phase() is Stopped),
    {
        match self.phase {
            TimerPhase::Stopped => true,
            _ => false,
        }
    }

    /// Set the timeout for the next bounded wait; the phase is untouched.
    pub fn set_timeout(&mut self, timeout_ms: u64)
        ensures
            final(self).spec_timeout() == timeout_ms,
            final(self).phase() == old(self).phase(),
    {
        self.timeout_ms = timeout_ms;
    }

    /// The timeout for the next bounded wait, in milliseconds.
    pub fn timeout(&self) -> (r: u64)
        ensures
            r == self.spec_timeout(),
    {
        self.timeout_ms
    }
}

/// Law: a stopped timer is silent forever — no later event produces an
/// action, and the phase never leaves `Stopped`.
pub proof fn lemma_stopped_is_silent<T>(events: Seq<TimerEvent<T>>)
    ensures
        run_actions(TimerPhase::Stopped, events) == Seq::<ACTION>::empty(),
        run_phase(TimerPhase::Stopped, events) == TimerPhase::Stopped,
    decreases events.len(),
{
    if events.len() > 0 {
        lemma_stopped_is_silent::<T>(events.skip(1));
    }
}

/// Law: a terminate signal placed after any backlog of events adds no action
/// of its own — every event before it is still processed, in order, and the
/// emitted actions are exactly those of the backlog.  Together with
/// [`lemma_stopped_is_silent`] this is the shutdown guarantee: nothing fires
/// after the terminate signal has been processed.
pub proof fn lemma_terminate_flushes<T>(phase: TimerPhase, events: Seq<TimerEvent<T>>)
    ensures
        run_actions(phase, events.push(TimerEvent::Signal(SIGNAL::TERMINATE))) == run_actions(
            phase,
            events,
        ),
        run_phase(phase, events.push(TimerEvent::Signal(SIGNAL::TERMINATE)))
            == TimerPhase::Stopped,
    decreases events.len(),
{
    let term = TimerEvent::Signal(SIGNAL::<T>::TERMINATE);
    if events.len() == 0 {
        let s = events.push(term);
        let after = step_phase(phase, term);
        assert(s[0] == term);
        assert(s.skip(1) =~= Seq::<TimerEvent<T>>::empty());
        assert(step_action(phase, term) is None);
        assert(run_actions(after, Seq::<TimerEvent<T>>::empty()) == Seq::<ACTION>::empty());
        assert(run_phase(after, Seq::<TimerEvent<T>>::empty()) == after);
        assert(after == TimerPhase::Stopped);
        assert(run_actions(phase, s) == Seq::<ACTION>::empty());
        assert(run_actions(phase, events) == Seq::<ACTION>::empty());
    } else {
        assert(events.push(term)[0] == events[0]);
        assert(events.push(term).skip(1) =~= events.skip(1).push(term));
        lemma_terminate_flushes(step_phase(phase, events[0]), events.skip(1));
    }
}

/// Law: while no start signal arrives, an idle or stopped timer emits
/// nothing at all, and never returns to the counting-down phase.
pub proof fn lemma_no_start_stays_silent<T>(phase: TimerPhase, events: Seq<TimerEvent<T>>)
    requires
        phase is Idle || phase is Stopped,
        forall|i: int|
            0 <= i < events.len() ==> !(#[trigger] events[i] matches TimerEvent::Signal(
                SIGNAL::START,
            )),
    ensures
        run_actions(phase, events) == Seq::<ACTION>::empty(),
        run_phase(phase, events) is Idle || run_phase(phase, events) is Stopped,
    decreases events.len(),
{
    if events.len() > 0 {
        assert(!(events[0] matches TimerEvent::Signal(SIGNAL::START)));
        lemma_no_start_stays_silent(step_phase(phase, events[0]), events.skip(1));
    }
}

/// Law: a counting-down timer whose wait expires emits exactly one timeout
/// action, and nothing further for as long as no start signal arrives.
pub proof fn lemma_single_timeout<T>(events: Seq<TimerEvent<T>>)
    requires
        forall|i: int|
            0 <= i < events.len() ==> !(#[trigger] events[i] matches TimerEvent::Signal(
                SIGNAL::START,
            )),
    ensures
        run_actions(TimerPhase::Running, seq![TimerEvent::<T>::Elapsed] + events) == seq![
            ACTION::TIMEOUT,
        ],
{
    let all = seq![TimerEvent::<T>::Elapsed] + events;
    assert(all.skip(1) =~= events);
    lemma_no_start_stays_silent(TimerPhase::Idle, events);
    assert(run_actions(TimerPhase::Running, all) =~= seq![ACTION::TIMEOUT]);
}

/// Law: start signals sent faster than the timeout — so that no wait ever
/// expires in between — never produce a timeout action: every one of them
/// (after the one that armed the timer) reports `restarted == true`, and the
/// timer stays armed throughout.
pub proof fn lemma_rapid_restarts<T>(events: Seq<TimerEvent<T>>)
    requires
        forall|i: int|
            0 <= i < events.len() ==> #[trigger] events[i] == TimerEvent::Signal(
                SIGNAL::<T>::START,
            ),
    ensures
        run_phase(TimerPhase::Running, events) == TimerPhase::Running,
        run_actions(TimerPhase::Running, events) =~= Seq::new(
            events.len(),
            |i: int| ACTION::START { restarted: true },
        ),
    decreases events.len(),
{
    if events.len() > 0 {
        assert(events[0] == TimerEvent::Signal(SIGNAL::<T>::START));
        lemma_rapid_restarts::<T>(events.skip(1));
    }
}

/// Law: after a timeout has fired, the next start signal reports
/// `restarted == false` — the timer was woken, not kept alive — and every
/// further start signal before another expiry reports `restarted == true`.
pub proof fn lemma_wake_after_timeout<T>(starts: Seq<TimerEvent<T>>)
    requires
        forall|i: int|
            0 <= i < starts.len() ==> #[trigger] starts[i] == TimerEvent::Signal(
                SIGNAL::<T>::START,
            ),
    ensures
        run_actions(
            TimerPhase::Running,
            seq![TimerEvent::<T>::Elapsed, TimerEvent::Signal(SIGNAL::<T>::START)] + starts,
        ) =~= seq![ACTION::TIMEOUT, ACTION::START { restarted: false }] + Seq::new(
            starts.len(),
            |i: int| ACTION::START { restarted: true },
        ),
{
    let start = TimerEvent::Signal(SIGNAL::<T>::START);
    let all = seq![TimerEvent::<T>::Elapsed, start] + starts;
    let tail = all.skip(1);
    lemma_rapid_restarts::<T>(starts);
    let trues = Seq::new(starts.len(), |i: int| ACTION::START { restarted: true });
    assert(all[0] == TimerEvent::<T>::Elapsed);
    assert(tail[0] == start);
    assert(tail.skip(1) =~= starts);
    assert(run_actions(TimerPhase::Idle, tail) == seq![ACTION::START { restarted: false }]
        + run_actions(TimerPhase::Running, starts));
    assert(run_actions(TimerPhase::Running, all) == seq![ACTION::TIMEOUT] + (seq![
        ACTION::START { restarted: false },
    ] + trues));
}

} // verus!
