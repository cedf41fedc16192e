use std::marker::PhantomData;
use vstd::prelude::*;

verus! {

/// A deferred unit of work that yields one value of `E` when it is run.
///
/// Running a task uses it up: it can run once and no more. A task may be
/// handed to another thread before it runs, so it is `Send`. What it yields
/// may depend on the world it runs in; the task says which values it can be.
///
/// An implementation outside verified code never has its spec function run:
/// it gives it a body that does not return.
pub trait Task<E>: Send {
    /// Whether `outcome` is a value that a run of the task may yield.
    spec fn yields(&self, outcome: E) -> bool;

    /// Performs the work and returns what it produced.
    fn run(self: Box<Self>) -> (outcome: E)
        ensures
            self.yields(outcome),
    ;
}

/// A task of any type behind one pointer, as bags and executors hold it.
#[verifier::reject_recursive_types(E)]
pub struct Deferred<E> {
    task: Box<dyn Task<E>>,
}

/// A deferred task that is run for what it does, not for what it yields.
pub type Job = Deferred<()>;

/// A closure that takes nothing, held as a task.
#[verifier::reject_recursive_types(E)]
struct Thunk<E, F: FnOnce() -> E> {
    call: F,
    yields: PhantomData<E>,
}

impl<E, F: FnOnce() -> E> Thunk<E, F> {
    #[verifier::type_invariant]
    spec fn callable(self) -> bool {
        call_requires(self.call, ())
    }
}

impl<E: Send, F: FnOnce() -> E + Send> Task<E> for Thunk<E, F> {
    /// A closure yields what a call of it may return.
    closed spec fn yields(&self, outcome: E) -> bool {
        call_ensures(self.call, (), outcome)
    }

    fn run(self: Box<Self>) -> (outcome: E) {
        proof {
            use_type_invariant(&*self);
        }
        let thunk = *self;
        (thunk.call)()
    }
}

impl<E> Deferred<E> {
    /// The deferred form of `task`.
    pub closed spec fn of<T: Task<E> + 'static>(task: T) -> Deferred<E> {
        Deferred { task: Box::new(task) }
    }

    /// Puts `task` behind a pointer.
    pub fn new<T: Task<E> + 'static>(task: T) -> (deferred: Self)
        ensures
            deferred == Self::of(task),
    {
        Deferred { task: Box::new(task) }
    }

    /// Whether `outcome` is a value that running the task may yield.
    pub closed spec fn yields(&self, outcome: E) -> bool {
        self.task.yields(outcome)
    }

    /// Runs the task, which uses it up, and returns what it produced.
    pub fn run(self) -> (outcome: E)
        ensures
            self.yields(outcome),
    {
        self.task.run()
    }
}

impl<E: Send + 'static> Deferred<E> {
    /// The deferred form of the closure `call`.
    pub closed spec fn of_fn<F: FnOnce() -> E + Send + 'static>(call: F) -> Deferred<E> {
        Self::of(Thunk { call, yields: PhantomData })
    }

    /// Makes a task of a closure that may be called with no arguments.
    pub fn from_fn<F: FnOnce() -> E + Send + 'static>(call: F) -> (deferred: Self)
        requires
            call_requires(call, ()),
        ensures
            deferred == Self::of_fn(call),
    {
        Self::new(Thunk { call, yields: PhantomData })
    }
}

} // verus!
