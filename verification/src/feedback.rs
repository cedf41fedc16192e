use crate::mailbox::Mailbox;
use crate::share::clone_arc;
use crate::task::Deferred;
use crate::task::Job;
use crate::task::Task;
use std::sync::Arc;
use vstd::prelude::*;

verus! {

/// The way back from a task to the application: the mailbox that takes the
/// task's event, and the hook that tells the driver that something came in.
///
/// Every job holds a handle to the way back of the application that made
/// it. All handles lead to one mailbox and one hook.
#[verifier::reject_recursive_types(E)]
pub struct Feedback<E, N: Fn()> {
    mailbox: Arc<Mailbox<E>>,
    hook: Arc<N>,
}

/// What an executor runs for one task of a command bag: the task, then the
/// delivery of its event.
#[verifier::reject_recursive_types(E)]
struct Continuation<E, N: Fn()> {
    task: Deferred<E>,
    feedback: Feedback<E, N>,
}

impl<E, N: Fn()> Feedback<E, N> {
    #[verifier::type_invariant]
    spec fn callable(self) -> bool {
        call_requires(*self.hook, ())
    }
}

impl<E: Send + Sync + 'static, N: Fn() + Send + Sync + 'static> Feedback<E, N> {
    /// The hook: the callback that every delivery calls.
    pub closed spec fn hook(&self) -> N {
        *self.hook
    }

    /// The job that stands for `task`: it runs the task, then delivers the
    /// event that the task yields on this way back.
    pub closed spec fn job(&self, task: Deferred<E>) -> Job {
        Deferred::of(Continuation { task, feedback: *self })
    }

    /// A way back with an empty mailbox and with `notify` as its hook.
    pub(crate) fn new(notify: N) -> (feedback: Self)
        requires
            call_requires(notify, ()),
        ensures
            feedback.hook() == notify,
    {
        Feedback { mailbox: Arc::new(Mailbox::new()), hook: Arc::new(notify) }
    }

    /// Another handle to the same mailbox and the same hook.
    pub(crate) fn share(&self) -> (other: Self)
        ensures
            other == *self,
    {
        proof {
            use_type_invariant(self);
        }
        Feedback { mailbox: clone_arc(&self.mailbox), hook: clone_arc(&self.hook) }
    }

    /// Calls the hook once and does nothing else.
    pub(crate) fn notify(&self)
        ensures
            call_ensures(self.hook(), (), ()),
    {
        proof {
            use_type_invariant(self);
        }
        (self.hook)();
    }

    /// Posts `event` to the mailbox, then calls the hook once.
    pub(crate) fn deliver(&self, event: E)
        ensures
            call_ensures(self.hook(), (), ()),
    {
        self.mailbox.post(event);
        self.notify();
    }

    /// Takes out the events delivered since the last call, oldest first.
    pub(crate) fn collect(&self) -> (arrived: Vec<E>) {
        self.mailbox.take()
    }

    /// Makes the job that stands for `task`.
    pub(crate) fn wire(&self, task: Deferred<E>) -> (job: Job)
        ensures
            job == self.job(task),
    {
        Deferred::new(Continuation { task, feedback: self.share() })
    }
}

impl<E: Send + Sync + 'static, N: Fn() + Send + Sync + 'static> Task<()> for Continuation<E, N> {
    /// A continuation has run when its task has yielded an event and the
    /// hook has been called.
    closed spec fn yields(&self, outcome: ()) -> bool {
        &&& exists|event: E| self.task.yields(event)
        &&& call_ensures(self.feedback.hook(), (), ())
    }

    /// Runs the task, posts the one event it yields and calls the hook, each
    /// once and in this order.
    fn run(self: Box<Self>) {
        let Continuation { task, feedback } = *self;
        let event = task.run();
        feedback.deliver(event);
    }
}

} // verus!
