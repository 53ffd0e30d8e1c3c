//! Classification of button presses into gestures.
//!
//! The button task is a loop of waits: for an edge of the button line, with
//! or without a time limit. What it waits for next, and which gesture a
//! finished wait gives, depends only on where in a press it stands. That
//! decision is the state machine of this module; the waiting itself is left
//! to the caller, which reports how each wait ended as a [`Signal`].

use vstd::prelude::*;

verus! {

/// Time in milliseconds after a release within which a second press makes a
/// double click.
pub const DOUBLE_CLICK_DELAY: u64 = 250;

/// Time in milliseconds a press must last to count as a hold.
pub const HOLD_DELAY: u64 = 1000;

/// A classified interaction with the button.
#[derive(Debug, Clone, Copy, PartialEq, Eq, Structural)]
pub enum ButtonEvent {
    Hold,
    SingleClick,
    DoubleClick,
}

/// A change of the button line.
#[derive(Debug, Clone, Copy, PartialEq, Eq, Structural)]
pub enum Edge {
    /// The button went down.
    Rising,
    /// The button came up.
    Falling,
}

/// How a wait ended.
#[derive(Debug, Clone, Copy, PartialEq, Eq, Structural)]
pub enum Signal {
    /// The button went down.
    Rising,
    /// The button came up.
    Falling,
    /// The time limit of the wait ran out first.
    Timeout,
}

/// What the button task waits for.
#[derive(Debug, Clone, Copy, PartialEq, Eq, Structural)]
pub struct Wait {
    /// The edge that ends the wait.
    pub edge: Edge,
    /// The time limit in milliseconds, if the wait has one.
    pub timeout_ms: Option<u64>,
}

/// Where in a press the button task stands.
#[derive(Debug, Clone, Copy, PartialEq, Eq, Structural)]
pub enum Phase {
    /// No press is under way.
    Idle,
    /// The button is down and the press is not classified yet.
    Pressed,
    /// The button came up in time; a second press may still follow.
    Released,
    /// The gesture is published and the button is still down.
    Releasing,
}

impl Phase {
    /// The wait of this phase: the edge that moves the press on and, where a
    /// gesture is decided by time, the limit after which it is decided.
    pub open spec fn wait_spec(self) -> Wait {
        match self {
            Phase::Idle => Wait { edge: Edge::Rising, timeout_ms: None },
            Phase::Pressed => Wait { edge: Edge::Falling, timeout_ms: Some(HOLD_DELAY) },
            Phase::Released => Wait { edge: Edge::Rising, timeout_ms: Some(DOUBLE_CLICK_DELAY) },
            Phase::Releasing => Wait { edge: Edge::Falling, timeout_ms: None },
        }
    }

    /// Whether `signal` can end the wait of this phase.
    pub open spec fn expects(self, signal: Signal) -> bool {
        match signal {
            Signal::Rising => self.wait_spec().edge == Edge::Rising,
            Signal::Falling => self.wait_spec().edge == Edge::Falling,
            Signal::Timeout => self.wait_spec().timeout_ms is Some,
        }
    }

    /// The phase that follows when the wait of this phase ends with `signal`.
    /// A signal the phase does not wait for changes nothing.
    pub open spec fn next(self, signal: Signal) -> Phase {
        match (self, signal) {
            (Phase::Idle, Signal::Rising) => Phase::Pressed,
            (Phase::Pressed, Signal::Falling) => Phase::Released,
            (Phase::Pressed, Signal::Timeout) => Phase::Releasing,
            (Phase::Released, Signal::Rising) => Phase::Releasing,
            (Phase::Released, Signal::Timeout) => Phase::Idle,
            (Phase::Releasing, Signal::Falling) => Phase::Idle,
            _ => self,
        }
    }

    /// The gesture that is published when the wait of this phase ends with
    /// `signal`, if that decides one.
    pub open spec fn published(self, signal: Signal) -> Option<ButtonEvent> {
        match (self, signal) {
            (Phase::Pressed, Signal::Timeout) => Some(ButtonEvent::Hold),
            (Phase::Released, Signal::Timeout) => Some(ButtonEvent::SingleClick),
            (Phase::Released, Signal::Rising) => Some(ButtonEvent::DoubleClick),
            _ => None,
        }
    }

    /// The phase the button task starts in.
    pub fn new() -> (phase: Phase)
        ensures
            phase == Phase::Idle,
    {
        Phase::Idle
    }

    /// What to wait for in this phase.
    pub fn wait(self) -> (wait: Wait)
        ensures
            wait == self.wait_spec(),
    {
        match self {
            Phase::Idle => Wait { edge: Edge::Rising, timeout_ms: None },
            Phase::Pressed => Wait { edge: Edge::Falling, timeout_ms: Some(HOLD_DELAY) },
            Phase::Released => Wait { edge: Edge::Rising, timeout_ms: Some(DOUBLE_CLICK_DELAY) },
            Phase::Releasing => Wait { edge: Edge::Falling, timeout_ms: None },
        }
    }

    /// One decision of the button task: given how the wait of this phase
    /// ended, the phase to go on with and the gesture to publish, if any.
    pub fn advance(self, signal: Signal) -> (step: (Phase, Option<ButtonEvent>))
        ensures
            step.0 == self.next(signal),
            step.1 == self.published(signal),
            !self.expects(signal) ==> step.0 == self && step.1 is None,
    {
        match self {
            Phase::Idle => match signal {
                Signal::Rising => (Phase::Pressed, None),
                _ => (self, None),
            },
            Phase::Pressed => match signal {
                Signal::Timeout => (Phase::Releasing, Some(ButtonEvent::Hold)),
                Signal::Falling => (Phase::Released, None),
                Signal::Rising => (self, None),
            },
            Phase::Released => match signal {
                Signal::Timeout => (Phase::Idle, Some(ButtonEvent::SingleClick)),
                Signal::Rising => (Phase::Releasing, Some(ButtonEvent::DoubleClick)),
                Signal::Falling => (self, None),
            },
            Phase::Releasing => match signal {
                Signal::Falling => (Phase::Idle, None),
                _ => (self, None),
            },
        }
    }

    /// The number of gestures a press in this phase has yet to give: one
    /// while the press is not classified, none before it and after.
    pub open spec fn owed(self) -> nat {
        match self {
            Phase::Pressed | Phase::Released => 1,
            Phase::Idle | Phase::Releasing => 0,
        }
    }
}

/// The phase reached from `phase` when the waits end with `signals` in turn.
pub open spec fn phase_after(phase: Phase, signals: Seq<Signal>) -> Phase
    decreases signals.len(),
{
    if signals.len() == 0 {
        phase
    } else {
        phase_after(phase.next(signals[0]), signals.drop_first())
    }
}

/// The gestures published from `phase` on when the waits end with `signals`
/// in turn.
pub open spec fn gestures_of(phase: Phase, signals: Seq<Signal>) -> Seq<ButtonEvent>
    decreases signals.len(),
{
    if signals.len() == 0 {
        Seq::empty()
    } else {
        (match phase.published(signals[0]) {
            Some(gesture) => seq![gesture],
            None => Seq::empty(),
        }) + gestures_of(phase.next(signals[0]), signals.drop_first())
    }
}

/// The number of presses that begin from `phase` on when the waits end with
/// `signals` in turn: the times the button goes down with no press under
/// way.
pub open spec fn presses_begun(phase: Phase, signals: Seq<Signal>) -> nat
    decreases signals.len(),
{
    if signals.len() == 0 {
        0
    } else {
        (if phase == Phase::Idle && signals[0] == Signal::Rising {
            1nat
        } else {
            0nat
        }) + presses_begun(phase.next(signals[0]), signals.drop_first())
    }
}

/// Every press gives one gesture and no more: however the waits end, the
/// gestures published are as many as the presses begun, less the one press
/// that may still be unclassified at the end.
pub proof fn lemma_one_gesture_per_press(phase: Phase, signals: Seq<Signal>)
    ensures
        gestures_of(phase, signals).len() + phase_after(phase, signals).owed() == presses_begun(
            phase,
            signals,
        ) + phase.owed(),
    decreases signals.len(),
{
    if signals.len() > 0 {
        lemma_one_gesture_per_press(phase.next(signals[0]), signals.drop_first());
    }
}

} // verus!
