use crate::component::Component;
use crate::model::emitted;
use crate::model::lemma_emitted_concat;
use crate::model::lemma_emitted_push;
use crate::model::lemma_emitted_quiet;
use crate::model::lemma_replay_concat;
use crate::model::replay;
use crate::model::Model;
use crate::task::Deferred;
use crate::task::Job;
use vstd::prelude::*;

verus! {

/// Events are consumed in the order in which they were scheduled.
///
/// Three events are scheduled one after another, while the tasks of earlier
/// drains deliver `a1`, `a2`, `a3` and `a4` in between. The next drain then
/// consumes one queue in which the three events stand in the order of the
/// calls, each behind what came in before it, and ends in the state that the
/// run of that whole queue leads to. What comes in after the drain has begun
/// (`late`) is no part of it: it waits, and the state does not depend on it.
pub proof fn law_order_of_scheduling<S: Component<E>, E>(
    before: Model<S, E>,
    a1: Seq<E>,
    e1: E,
    a2: Seq<E>,
    e2: E,
    a3: Seq<E>,
    e3: E,
    a4: Seq<E>,
    late: Seq<E>,
    job: spec_fn(Deferred<E>) -> Job,
)
    ensures
        ({
            let scheduled = before.receive(a1).receive(seq![e1]).receive(a2).receive(
                seq![e2],
            ).receive(a3).receive(seq![e3]);
            let queue = scheduled.receive(a4).pending;
            let after = scheduled.receive(a4).drain(job);
            let i: int = (before.pending.len() + a1.len()) as int;
            let j: int = i + 1 + a2.len();
            let k: int = j + 1 + a3.len();
            &&& queue == before.pending + a1 + seq![e1] + a2 + seq![e2] + a3 + seq![e3] + a4
            &&& 0 <= i < j < k < queue.len()
            &&& queue[i] == e1
            &&& queue[j] == e2
            &&& queue[k] == e3
            &&& after.state == replay(before.state, queue)
            &&& after.pending == Seq::<E>::empty()
            &&& after.receive(late).state == after.state
            &&& after.receive(late).pending == late
        }),
{
    let scheduled = before.receive(a1).receive(seq![e1]).receive(a2).receive(seq![e2]).receive(
        a3,
    ).receive(seq![e3]);
    let after = scheduled.receive(a4).drain(job);
    assert(after.receive(late).pending =~= late);
}

/// With nothing pending before and nothing delivered in between, three
/// scheduled events take the state through their three transitions in the
/// order of the calls.
pub proof fn law_three_in_order<S: Component<E>, E>(
    before: Model<S, E>,
    e1: E,
    e2: E,
    e3: E,
    job: spec_fn(Deferred<E>) -> Job,
)
    requires
        before.pending == Seq::<E>::empty(),
    ensures
        before.receive(seq![e1]).receive(seq![e2]).receive(seq![e3]).drain(job).state
            == before.state.next(e1).next(e2).next(e3),
{
    let queue = before.receive(seq![e1]).receive(seq![e2]).receive(seq![e3]).pending;
    assert(queue =~= seq![e1, e2, e3]);
    assert(queue.drop_last() =~= seq![e1, e2]);
    assert(queue.drop_last().drop_last() =~= seq![e1]);
    assert(queue.drop_last().drop_last().drop_last() =~= Seq::<E>::empty());
    reveal_with_fuel(Seq::fold_left, 4);
}

/// Where every transition of a drain returns the empty bag, the drain hands
/// nothing to the executor, and the state ends as the left fold of the
/// transition over the pending events.
pub proof fn law_quiet_drain<S: Component<E>, E>(
    before: Model<S, E>,
    job: spec_fn(Deferred<E>) -> Job,
)
    requires
        forall|i: int|
            0 <= i < before.pending.len() ==> (#[trigger] replay(
                before.state,
                before.pending.take(i),
            )).commands(before.pending[i]).len() == 0,
    ensures
        before.drain(job).submitted == before.submitted,
        before.drain(job).state == before.pending.fold_left(
            before.state,
            |s: S, e: E| s.next(e),
        ),
{
    lemma_emitted_quiet(before.state, before.pending);
    assert(before.submitted + Seq::<Deferred<E>>::empty().map_values(job) =~= before.submitted);
}

/// A bag of exactly one task makes exactly one job: the one that stands for
/// that task.
pub proof fn law_one_task_one_job<S: Component<E>, E>(
    before: Model<S, E>,
    event: E,
    job: spec_fn(Deferred<E>) -> Job,
)
    requires
        before.pending == seq![event],
        before.state.commands(event).len() == 1,
    ensures
        before.drain(job).submitted == before.submitted.push(
            job(before.state.commands(event)[0]),
        ),
{
    let bag = before.state.commands(event);
    let nothing = Seq::<E>::empty();
    assert(before.pending =~= nothing.push(event));
    lemma_emitted_push(before.state, nothing, event);
    assert(replay(before.state, nothing) == before.state);
    assert(emitted(before.state, nothing) =~= Seq::<Deferred<E>>::empty());
    assert(emitted(before.state, before.pending) =~= bag);
    assert(bag.map_values(job) =~= seq![job(bag[0])]);
    assert(before.submitted + seq![job(bag[0])] =~= before.submitted.push(job(bag[0])));
}

/// A drain that follows a drain, with nothing scheduled and nothing
/// delivered in between, changes nothing: not the state, not the queue, and
/// it hands nothing to the executor.
pub proof fn law_second_drain_idle<S: Component<E>, E>(
    before: Model<S, E>,
    job: spec_fn(Deferred<E>) -> Job,
)
    ensures
        before.drain(job).receive(Seq::empty()).drain(job) == before.drain(job),
{
    let once = before.drain(job);
    let again = once.receive(Seq::empty()).drain(job);
    assert(once.receive(Seq::empty()).pending =~= Seq::<E>::empty());
    assert(again.submitted =~= once.submitted);
}

/// However the events that tasks deliver are split over the drains that
/// follow, each of them is consumed exactly once and in the order of its
/// delivery: two drains, each with its share, come to what one drain with
/// all of them comes to.
pub proof fn law_drains_compose<S: Component<E>, E>(
    before: Model<S, E>,
    first: Seq<E>,
    second: Seq<E>,
    job: spec_fn(Deferred<E>) -> Job,
)
    ensures
        before.receive(first).drain(job).receive(second).drain(job) == before.receive(
            first + second,
        ).drain(job),
{
    let start = before.state;
    let head = before.pending + first;
    let stepwise = before.receive(first).drain(job).receive(second).drain(job);
    let at_once = before.receive(first + second).drain(job);
    assert(before.receive(first).drain(job).receive(second).pending =~= second);
    assert(before.receive(first + second).pending =~= head + second);
    lemma_replay_concat(start, head, second);
    lemma_emitted_concat(start, head, second);
    assert((emitted(start, head) + emitted(replay(start, head), second)).map_values(job)
        =~= emitted(start, head).map_values(job) + emitted(replay(start, head), second).map_values(
        job,
    ));
    assert(stepwise.submitted =~= at_once.submitted);
}

/// However many drains there are, and however the events that tasks
/// deliver are split over them, the drains taken together consume every
/// delivered event exactly once and in the order of its delivery: one drain
/// for each part of `parts`, each with the events of its part, comes to
/// what a single drain with all the events of all the parts comes to.
pub proof fn law_any_number_of_drains<S: Component<E>, E>(
    before: Model<S, E>,
    parts: Seq<Seq<E>>,
    job: spec_fn(Deferred<E>) -> Job,
)
    requires
        parts.len() > 0,
    ensures
        before.drain_each(parts, job) == before.receive(parts.flatten()).drain(job),
    decreases parts.len(),
{
    let front = parts.drop_last();
    let last = parts.last();
    parts.lemma_flatten_and_flatten_alt_are_equivalent();
    front.lemma_flatten_and_flatten_alt_are_equivalent();
    assert(parts.flatten() =~= front.flatten() + last);
    if front.len() == 0 {
        assert(front.flatten() =~= Seq::<E>::empty());
        assert(parts.flatten() =~= last);
        assert(before.drain_each(front, job) == before);
    } else {
        law_any_number_of_drains(before, front, job);
        law_drains_compose(before, front.flatten(), last, job);
    }
}

} // verus!
