use vstd::prelude::*;
use vstd::rwlock::RwLock;
use vstd::rwlock::RwLockPredicate;

verus! {

/// The lock's rule for what the queue may hold: any events at all.
pub(crate) struct AnyEvents {}

impl<E> RwLockPredicate<Vec<E>> for AnyEvents {
    open spec fn inv(self, events: Vec<E>) -> bool {
        true
    }
}

/// A queue of events that many threads append to and one owner empties.
///
/// The queue sits behind a lock that is held for one append or for one
/// emptying and for nothing else. What it holds at a given moment depends on
/// what other threads have done, so no contract here speaks of it.
///
/// Taking the lock cannot fail. The lock knows no poisoned state: whoever
/// asks for it waits until it is free and then has it. It is given back by
/// hand, and nothing gives it back for a holder that dies while holding it:
/// after that every later append and every later emptying would wait for
/// ever. Between taking the lock and giving it back this module runs no
/// code but its own, one push to a vector or one exchange of vectors, so a
/// holder dies there only where the process is out of memory.
pub(crate) struct Mailbox<E> {
    queue: RwLock<Vec<E>, AnyEvents>,
}

impl<E> Mailbox<E> {
    /// An empty mailbox.
    pub(crate) fn new() -> (mailbox: Self) {
        Mailbox { queue: RwLock::new(Vec::new(), Ghost(AnyEvents {})) }
    }

    /// Appends `event` behind everything posted before.
    pub(crate) fn post(&self, event: E) {
        let (mut events, handle) = self.queue.acquire_write();
        events.push(event);
        handle.release_write(events);
    }

    /// Takes out everything posted since the last call, oldest first.
    pub(crate) fn take(&self) -> (events: Vec<E>) {
        let (events, handle) = self.queue.acquire_write();
        handle.release_write(Vec::new());
        events
    }
}

} // verus!
