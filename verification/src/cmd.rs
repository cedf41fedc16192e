use crate::task::Deferred;
use vstd::prelude::*;

verus! {

/// The tasks of a bag, as contracts speak of them.
pub type Tasks<E> = Seq<Deferred<E>>;

/// The bag of tasks that one state transition asks to have performed.
///
/// The model of a bag is the sequence in which [`Cmd::unpack`] releases its
/// tasks. A bag promises no order to those who fill it: its tasks run
/// independently of one another, and none may count on running before or
/// after another.
#[verifier::reject_recursive_types(E)]
pub struct Cmd<E> {
    tasks: Vec<Deferred<E>>,
}

impl<E> View for Cmd<E> {
    type V = Tasks<E>;

    closed spec fn view(&self) -> Tasks<E> {
        self.tasks@
    }
}

impl<E> Cmd<E> {
    /// The bag that holds no task.
    pub fn none() -> (cmd: Self)
        ensures
            cmd@ == Seq::<Deferred<E>>::empty(),
    {
        Cmd { tasks: Vec::new() }
    }

    /// The bag that holds `task` and nothing else.
    pub fn single(task: Deferred<E>) -> (cmd: Self)
        ensures
            cmd@ == seq![task],
    {
        let mut tasks: Vec<Deferred<E>> = Vec::new();
        tasks.push(task);
        let cmd = Cmd { tasks };
        assert(cmd@ =~= seq![task]);
        cmd
    }

    /// The bag of the tasks in `tasks`, each as often as it stands there.
    pub fn batch(tasks: Vec<Deferred<E>>) -> (cmd: Self)
        ensures
            cmd@ == tasks@,
    {
        Cmd { tasks }
    }

    /// The number of tasks in the bag.
    pub fn len(&self) -> (n: usize)
        ensures
            n == self@.len(),
    {
        self.tasks.len()
    }

    /// Whether the bag holds no task.
    pub fn is_empty(&self) -> (empty: bool)
        ensures
            empty <==> self@.len() == 0,
    {
        self.tasks.len() == 0
    }

    /// Consumes the bag and releases its tasks, every one exactly once.
    pub fn unpack(self) -> (tasks: Vec<Deferred<E>>)
        ensures
            tasks@ == self@,
    {
        self.tasks
    }
}

} // verus!
