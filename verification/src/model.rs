use crate::component::Component;
use crate::task::Deferred;
use crate::task::Job;
use vstd::prelude::*;

verus! {

/// The state that a run of `events` leads to from `state`: the left fold of
/// the transition over the events.
pub open spec fn replay<S: Component<E>, E>(state: S, events: Seq<E>) -> S {
    events.fold_left(state, |s: S, e: E| s.next(e))
}

/// The tasks that a run of `events` from `state` asks for: the bags of the
/// transitions one after another, in the order of the events.
pub open spec fn emitted<S: Component<E>, E>(state: S, events: Seq<E>) -> Seq<Deferred<E>>
    decreases events.len(),
{
    if events.len() == 0 {
        Seq::empty()
    } else {
        emitted(state, events.drop_last()) + replay(state, events.drop_last()).commands(
            events.last(),
        )
    }
}

/// What an application is, seen from its driver.
pub struct Model<S, E> {
    /// The state of the state machine.
    pub state: S,
    /// The events that wait for the next drain, oldest first.
    pub pending: Seq<E>,
    /// The jobs handed to the executor so far, oldest first.
    pub submitted: Seq<Job>,
}

impl<S: Component<E>, E> Model<S, E> {
    /// The model after `events` came in behind what was pending.
    pub open spec fn receive(self, events: Seq<E>) -> Self {
        Model { state: self.state, pending: self.pending + events, submitted: self.submitted }
    }

    /// The model after one drain: the state machine has consumed every
    /// pending event in turn, and for every task that this asked for the
    /// executor has been handed what `job` makes of it.
    pub open spec fn drain(self, job: spec_fn(Deferred<E>) -> Job) -> Self {
        Model {
            state: replay(self.state, self.pending),
            pending: Seq::empty(),
            submitted: self.submitted + emitted(self.state, self.pending).map_values(job),
        }
    }

    /// The model after one drain for every part of `parts`, in turn: before
    /// each drain the events of its part came in.
    pub open spec fn drain_each(self, parts: Seq<Seq<E>>, job: spec_fn(Deferred<E>) -> Job) -> Self
        decreases parts.len(),
    {
        if parts.len() == 0 {
            self
        } else {
            self.drain_each(parts.drop_last(), job).receive(parts.last()).drain(job)
        }
    }
}

/// One more event at the end of a run is one more transition at the end.
pub proof fn lemma_replay_push<S: Component<E>, E>(state: S, events: Seq<E>, event: E)
    ensures
        replay(state, events.push(event)) == replay(state, events).next(event),
{
    assert(events.push(event).drop_last() =~= events);
}

/// One more event at the end of a run adds the bag of its transition at the
/// end of the tasks.
pub proof fn lemma_emitted_push<S: Component<E>, E>(state: S, events: Seq<E>, event: E)
    ensures
        emitted(state, events.push(event)) == emitted(state, events) + replay(
            state,
            events,
        ).commands(event),
{
    assert(events.push(event).drop_last() =~= events);
}

/// A run of two parts is the run of the second part from where the first
/// part ends.
pub proof fn lemma_replay_concat<S: Component<E>, E>(state: S, first: Seq<E>, second: Seq<E>)
    ensures
        replay(state, first + second) == replay(replay(state, first), second),
    decreases second.len(),
{
    if second.len() == 0 {
        assert(first + second =~= first);
    } else {
        let front = second.drop_last();
        lemma_replay_concat(state, first, front);
        assert(first + second =~= (first + front).push(second.last()));
        lemma_replay_push(state, first + front, second.last());
        assert(second =~= front.push(second.last()));
        lemma_replay_push(replay(state, first), front, second.last());
    }
}

/// A run of two parts asks for the tasks of the first part, then for those
/// of the second part run from where the first part ends.
pub proof fn lemma_emitted_concat<S: Component<E>, E>(state: S, first: Seq<E>, second: Seq<E>)
    ensures
        emitted(state, first + second) == emitted(state, first) + emitted(
            replay(state, first),
            second,
        ),
    decreases second.len(),
{
    if second.len() == 0 {
        assert(first + second =~= first);
        assert(emitted(state, first) + Seq::<Deferred<E>>::empty() =~= emitted(state, first));
    } else {
        let front = second.drop_last();
        let last = second.last();
        lemma_emitted_concat(state, first, front);
        lemma_replay_concat(state, first, front);
        assert(first + second =~= (first + front).push(last));
        lemma_emitted_push(state, first + front, last);
        assert(second =~= front.push(last));
        lemma_emitted_push(replay(state, first), front, last);
        let bag = replay(state, first + front).commands(last);
        assert((emitted(state, first) + emitted(replay(state, first), front)) + bag =~= emitted(
            state,
            first,
        ) + (emitted(replay(state, first), front) + bag));
    }
}

/// A run in which every transition returns the empty bag asks for no task.
pub proof fn lemma_emitted_quiet<S: Component<E>, E>(state: S, events: Seq<E>)
    requires
        forall|i: int|
            0 <= i < events.len() ==> (#[trigger] replay(state, events.take(i))).commands(
                events[i],
            ).len() == 0,
    ensures
        emitted(state, events) == Seq::<Deferred<E>>::empty(),
    decreases events.len(),
{
    if events.len() > 0 {
        let front = events.drop_last();
        assert forall|i: int| 0 <= i < front.len() implies (#[trigger] replay(
            state,
            front.take(i),
        )).commands(front[i]).len() == 0 by {
            assert(front.take(i) =~= events.take(i));
        }
        lemma_emitted_quiet(state, front);
        assert(events.take(events.len() - 1) =~= front);
        assert(emitted(state, events) =~= Seq::<Deferred<E>>::empty());
    }
}

} // verus!
