use crate::component::Component;
use crate::executor::Executor;
use crate::feedback::Feedback;
use crate::model::emitted;
use crate::model::lemma_emitted_push;
use crate::model::lemma_replay_push;
use crate::model::replay;
use crate::model::Model;
use crate::task::Deferred;
use crate::task::Job;
use vstd::prelude::*;

verus! {

/// The orchestrator: it owns the state machine, the executor and the queue
/// of pending events, and ties them together in its drain cycle.
///
/// The driver schedules events and asks for a drain. A drain feeds every
/// pending event to the state machine and hands the tasks that this asks
/// for to the executor, each as a job that runs the task, delivers the
/// task's event back to this application and calls the notification hook.
/// The driver answers the hook with the next drain.
///
/// Every operation that changes the application takes it by `&mut`: there
/// is one driver at a time, and no drain runs beside another.
///
/// What tasks deliver comes in from other threads at moments of their own.
/// The application looks for it at the start of [`Application::schedule`]
/// and of [`Application::update`]; the contracts call what it finds there
/// `arrived`.
///
/// Looking takes a lock for the moment of one emptying, as a delivery takes
/// it for the moment of one append; no transition and no task runs under
/// it. Taking the lock cannot fail, and the lock cannot be poisoned: a call
/// waits until the lock is free. No operation here has a failure of its own
/// to report. Should a thread die in the moment in which it holds the lock,
/// which only a process out of memory brings about, every later call of
/// `schedule` and `update` would wait for ever.
#[verifier::reject_recursive_types(E)]
pub struct Application<S, E, N: Fn(), X> {
    state: S,
    executor: X,
    inbox: Vec<E>,
    feedback: Feedback<E, N>,
}

impl<S, E, N, X> View for Application<S, E, N, X> where
    S: Component<E>,
    E: Send + Sync + 'static,
    N: Fn() + Send + Sync + 'static,
    X: Executor,
 {
    type V = Model<S, E>;

    closed spec fn view(&self) -> Model<S, E> {
        Model { state: self.state, pending: self.inbox@, submitted: self.executor.submitted() }
    }
}

impl<S, E, N, X> Application<S, E, N, X> where
    S: Component<E>,
    E: Send + Sync + 'static,
    N: Fn() + Send + Sync + 'static,
    X: Executor,
 {
    /// The way back that this application gives to every job it submits.
    /// It stays the same for as long as the application lives.
    pub closed spec fn feedback(&self) -> Feedback<E, N> {
        self.feedback
    }

    /// The notification hook.
    pub open spec fn hook(&self) -> N {
        self.feedback().hook()
    }

    /// What this application makes of a task before it hands it to the
    /// executor.
    pub open spec fn job(&self) -> spec_fn(Deferred<E>) -> Job {
        |task: Deferred<E>| self.feedback().job(task)
    }

    /// An application in the state `root`, with nothing pending, that has
    /// its tasks run by `executor` and calls `notify` whenever a task has
    /// delivered its event.
    ///
    /// The application takes `root` and `executor` as they are: making it
    /// feeds the state machine no event and hands the executor no job, so
    /// the executor's record is what it was.
    ///
    /// `notify` has to be callable at any time.
    pub fn new(root: S, executor: X, notify: N) -> (app: Self)
        requires
            call_requires(notify, ()),
        ensures
            app@.state == root,
            app@.pending == Seq::<E>::empty(),
            app@.submitted == executor.submitted(),
            app.hook() == notify,
    {
        Application { state: root, executor, inbox: Vec::new(), feedback: Feedback::new(notify) }
    }

    /// Puts `event` at the end of the queue, behind whatever tasks have
    /// delivered up to now. It neither drains the queue nor calls the hook.
    pub fn schedule(&mut self, event: E) -> (app: &mut Self)
        ensures
            exists|arrived: Seq<E>|
                app@ == #[trigger] old(self)@.receive(arrived).receive(seq![event]),
            app.feedback() == old(self).feedback(),
            *final(self) == *final(app),
    {
        let arrived = self.feedback.collect();
        let ghost came = arrived@;
        self.receive(arrived);
        self.inbox.push(event);
        assert(self@ == old(self)@.receive(came).receive(seq![event])) by {
            assert(self.inbox@ =~= old(self).inbox@ + came + seq![event]);
        }
        self
    }

    /// Calls the notification hook once and does nothing else.
    pub fn notify(&self) -> (app: &Self)
        ensures
            call_ensures(self.hook(), (), ()),
            app == self,
    {
        self.feedback.notify();
        self
    }

    /// The drain cycle: takes in what tasks have delivered up to now, then
    /// feeds every pending event to the state machine, oldest first, and
    /// hands the executor one job for every task that this asks for.
    ///
    /// It returns when the last job is handed over, and waits for none of
    /// them. What the jobs deliver is left for a later drain.
    pub fn update(&mut self) -> (app: &mut Self)
        ensures
            exists|arrived: Seq<E>|
                app@ == #[trigger] old(self)@.receive(arrived).drain(old(self).job()),
            app.feedback() == old(self).feedback(),
            *final(self) == *final(app),
    {
        let arrived = self.feedback.collect();
        let ghost came = arrived@;
        self.receive(arrived);
        self.drain();
        assert(self@ == old(self)@.receive(came).drain(old(self).job()));
        self
    }

    /// Puts `events` at the end of the queue in the order in which they
    /// stand, without looking for what tasks have delivered.
    pub fn receive(&mut self, events: Vec<E>)
        ensures
            final(self)@ == old(self)@.receive(events@),
            final(self).feedback() == old(self).feedback(),
    {
        let mut events = events;
        self.inbox.append(&mut events);
    }

    /// Feeds every event that is pending now to the state machine, oldest
    /// first, and hands the executor one job for every task that this asks
    /// for, without looking for what tasks have delivered.
    pub fn drain(&mut self)
        ensures
            final(self)@ == old(self)@.drain(old(self).job()),
            final(self).feedback() == old(self).feedback(),
    {
        let mut events: Vec<E> = Vec::new();
        core::mem::swap(&mut events, &mut self.inbox);
        let ghost queue = events@;
        let ghost start = self@;
        let ghost job = self.job();
        let ghost fed: Seq<E> = Seq::empty();
        assert(start.submitted + emitted(start.state, fed).map_values(job) =~= start.submitted);
        for event in each: events
            invariant
                each.seq() == queue,
                fed == queue.take(each.index() as int),
                self@.state == replay(start.state, fed),
                self@.pending == Seq::<E>::empty(),
                self@.submitted == start.submitted + emitted(start.state, fed).map_values(job),
                self.feedback() == old(self).feedback(),
                job == self.job(),
        {
            let ghost bag = self.state.commands(event);
            let cmd = self.state.update(event);
            self.submit(cmd.unpack());
            proof {
                assert(queue.take(each.index() + 1) =~= fed.push(event));
                lemma_replay_push(start.state, fed, event);
                lemma_emitted_push(start.state, fed, event);
                assert((emitted(start.state, fed) + bag).map_values(job) =~= emitted(
                    start.state,
                    fed,
                ).map_values(job) + bag.map_values(job));
                fed = fed.push(event);
            }
        }
        assert(queue.take(queue.len() as int) =~= queue);
    }

    /// Hands the executor the job of every task in `tasks`, in the order in
    /// which they stand.
    fn submit(&mut self, tasks: Vec<Deferred<E>>)
        ensures
            final(self)@ == (Model {
                submitted: old(self)@.submitted + tasks@.map_values(old(self).job()),
                ..old(self)@
            }),
            final(self).feedback() == old(self).feedback(),
    {
        let ghost bag = tasks@;
        let ghost start = self@;
        let ghost job = self.job();
        assert(start.submitted + bag.take(0).map_values(job) =~= start.submitted);
        for task in each: tasks
            invariant
                each.seq() == bag,
                self@.state == start.state,
                self@.pending == start.pending,
                self@.submitted == start.submitted + bag.take(each.index() as int).map_values(job),
                self.feedback() == old(self).feedback(),
                job == self.job(),
        {
            let next = self.feedback.wire(task);
            self.executor.spawn(next);
            proof {
                let done = bag.take(each.index() as int);
                assert(bag.take(each.index() + 1) =~= done.push(task));
                assert(done.push(task).map_values(job) =~= done.map_values(job).push(job(task)));
            }
        }
        assert(bag.take(bag.len() as int) =~= bag);
    }
}

} // verus!
