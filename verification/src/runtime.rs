//! Pieces for the runtime that drives the probes.

use vstd::prelude::*;
use std::future::Future;
use std::pin::Pin;
use std::task::{Context, Poll};
use std::time::Duration;

verus! {

/// `std::pin::Pin`, a pointer whose target does not move. Nothing is
/// claimed of it: it is only passed through.
#[verifier::external_type_specification]
#[verifier::external_body]
#[verifier::reject_recursive_types(Ptr)]
pub struct ExPin<Ptr>(Pin<Ptr>);

/// `std::task::Context`, what a task is polled with. Nothing is claimed of
/// it: it is only passed through.
#[verifier::external_type_specification]
#[verifier::external_body]
pub struct ExContext<'a>(Context<'a>);

/// `std::task::Poll`, the answer of a poll, with its two variants `Ready`
/// and `Pending`.
#[verifier::external_type_specification]
#[verifier::reject_recursive_types(T)]
pub struct ExPoll<T>(Poll<T>);

/// A waker for probes that their runtime polls until they are done: waking
/// one has nothing left to do.
pub struct FastWaker;

impl FastWaker {
    /// Wakes the task. Nothing changes.
    pub fn wake() {
    }
}

/// A timer over a duration that is ready as soon as it is polled: it
/// stands in for a delay where none is wanted.
#[derive(Clone, Copy, Debug)]
pub struct HighPrecisionTimer {
    duration: Duration,
}

impl HighPrecisionTimer {
    /// The duration the timer was made with.
    pub closed spec fn spec_duration(&self) -> Duration {
        self.duration
    }

    /// A timer over `duration`.
    pub fn new(duration: Duration) -> (timer: HighPrecisionTimer)
        ensures
            timer.spec_duration() == duration,
    {
        HighPrecisionTimer { duration }
    }

    /// The duration the timer was made with.
    #[verifier::when_used_as_spec(spec_duration)]
    pub fn duration(&self) -> (duration: Duration)
        ensures
            duration == self.spec_duration(),
    {
        self.duration
    }
}

impl Future for HighPrecisionTimer {
    type Output = ();

    /// Always ready: the timer never makes its task wait.
    fn poll(self: Pin<&mut Self>, _cx: &mut Context<'_>) -> (answer: Poll<()>)
        ensures
            answer == Poll::Ready(()),
    {
        Poll::Ready(())
    }
}

} // verus!
