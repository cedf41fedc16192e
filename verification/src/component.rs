use crate::cmd::Cmd;
use crate::cmd::Tasks;
use vstd::prelude::*;

verus! {

/// A state machine: a state that consumes one event at a time.
///
/// A transition is a matter of the state and the event alone: the same
/// state and the same event lead to the same next state and ask for the same
/// tasks. The two spec functions name both. A transition returns promptly
/// and does not wait for anything; whatever takes time or reaches outside
/// the state is described as a task in the bag that it returns. It has no
/// way to fail: what goes wrong is told by an event like any other.
///
/// An implementation outside verified code never has its spec functions
/// run: it gives them a body that does not return.
pub trait Component<E>: Sized {
    /// The state that `event` leads to from `self`.
    spec fn next(self, event: E) -> Self;

    /// The tasks that the transition from `self` on `event` asks for.
    spec fn commands(self, event: E) -> Tasks<E>;

    /// Consumes `event`: moves to the next state and returns the bag of
    /// tasks to perform.
    fn update(&mut self, event: E) -> (cmd: Cmd<E>)
        ensures
            *final(self) == old(self).next(event),
            cmd@ == old(self).commands(event),
    ;
}

} // verus!
