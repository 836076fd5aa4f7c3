use vstd::prelude::*;
use crossbeam_deque::{Injector, Steal, Stealer, Worker};

verus! {

/// The capacity that a processor's local queue is balanced against.
pub const LQ_SIZE: usize = 256;

/// Half of `LQ_SIZE`: the most items one steal moves from the global queue.
pub const LQ_HALF_SIZE: usize = 128;

#[verifier::external_type_specification]
#[verifier::external_body]
#[verifier::reject_recursive_types(T)]
pub struct ExWorker<T>(Worker<T>);

#[verifier::external_type_specification]
#[verifier::external_body]
#[verifier::reject_recursive_types(T)]
pub struct ExStealer<T>(Stealer<T>);

#[verifier::external_type_specification]
#[verifier::external_body]
#[verifier::reject_recursive_types(T)]
pub struct ExInjector<T>(Injector<T>);

/// The outcome of one attempt to steal from a queue.
pub enum Stolen<T> {
    /// The queue was empty when it was looked at.
    Empty,
    /// An item was taken.
    Success(T),
    /// The attempt met a concurrent change and may be tried again.
    Retry,
}

impl<T> Stolen<T> {
    /// The item taken, if the attempt took one.
    pub fn success(self) -> (r: Option<T>)
        ensures
            self matches Stolen::Success(t) ==> r == Some(t),
            !(self is Success) ==> r is None,
    {
        match self {
            Stolen::Success(t) => Some(t),
            _ => None,
        }
    }
}

/// `Worker::new_fifo` of crossbeam-deque: a new, empty first-in first-out
/// queue owned by one thread. Nothing is stated of its contents, which the
/// stealers that it hands out share with other threads.
#[verifier::external_body]
fn worker_new_fifo<T>() -> Worker<T> {
    Worker::new_fifo()
}

/// `Worker::push` of crossbeam-deque: appends `task` at the back. Nothing is
/// stated of the queue's contents, which other threads may change at once.
#[verifier::external_body]
fn worker_push<T>(w: &Worker<T>, task: T) {
    w.push(task)
}

/// `Worker::pop` of crossbeam-deque: takes the front item, `None` when empty.
/// Which item comes out depends on what other threads have taken: nothing is
/// stated of the result.
#[verifier::external_body]
fn worker_pop<T>(w: &Worker<T>) -> Option<T> {
    w.pop()
}

/// `Worker::stealer` of crossbeam-deque: a handle through which other
/// threads take items from this queue.
#[verifier::external_body]
fn worker_stealer<T>(w: &Worker<T>) -> Stealer<T> {
    w.stealer()
}

/// `Stealer::len` of crossbeam-deque: the number of items in the queue at
/// the time of the call; other threads change it at any moment, so nothing
/// is stated of it.
#[verifier::external_body]
pub(crate) fn stealer_len<T>(s: &Stealer<T>) -> usize {
    s.len()
}

/// `Stealer::steal` of crossbeam-deque: takes the front item of the queue,
/// reports it empty, or asks for a retry; which depends on other threads.
#[verifier::external_body]
pub(crate) fn stealer_steal<T>(s: &Stealer<T>) -> Stolen<T> {
    match s.steal() {
        Steal::Empty => Stolen::Empty,
        Steal::Success(t) => Stolen::Success(t),
        Steal::Retry => Stolen::Retry,
    }
}

/// `Stealer::steal_batch_with_limit_and_pop` of crossbeam-deque: moves up to
/// `limit` items into `dest` and returns one of them. The crate asserts that
/// `limit` is not zero; what is moved depends on other threads.
#[verifier::external_body]
pub(crate) fn stealer_steal_batch_with_limit_and_pop<T>(s: &Stealer<T>, dest: &Worker<T>, limit: usize) -> Stolen<T>
    requires
        limit > 0,
{
    match s.steal_batch_with_limit_and_pop(dest, limit) {
        Steal::Empty => Stolen::Empty,
        Steal::Success(t) => Stolen::Success(t),
        Steal::Retry => Stolen::Retry,
    }
}

/// `Injector::new` of crossbeam-deque: a new, empty queue shared by all threads.
#[verifier::external_body]
fn injector_new<T>() -> Injector<T> {
    Injector::new()
}

/// `Injector::push` of crossbeam-deque: appends `task` at the back.
#[verifier::external_body]
fn injector_push<T>(q: &Injector<T>, task: T) {
    q.push(task)
}

/// `Injector::len` of crossbeam-deque: the number of queued items at the time
/// of the call; other threads change it at any moment, so nothing is stated.
#[verifier::external_body]
fn injector_len<T>(q: &Injector<T>) -> usize {
    q.len()
}

/// `Injector::steal` of crossbeam-deque: takes the front item, reports the
/// queue empty, or asks for a retry; which depends on other threads.
#[verifier::external_body]
fn injector_steal<T>(q: &Injector<T>) -> Stolen<T> {
    match q.steal() {
        Steal::Empty => Stolen::Empty,
        Steal::Success(t) => Stolen::Success(t),
        Steal::Retry => Stolen::Retry,
    }
}

/// `Injector::steal_batch_with_limit_and_pop` of crossbeam-deque: moves up to
/// `limit` items into `dest` and returns one of them. The crate asserts that
/// `limit` is not zero; what is moved depends on other threads.
#[verifier::external_body]
fn injector_steal_batch_with_limit_and_pop<T>(q: &Injector<T>, dest: &Worker<T>, limit: usize) -> Stolen<T>
    requires
        limit > 0,
{
    match q.steal_batch_with_limit_and_pop(dest, limit) {
        Steal::Empty => Stolen::Empty,
        Steal::Success(t) => Stolen::Success(t),
        Steal::Retry => Stolen::Retry,
    }
}

/// The queue that one processor fills and drains; others steal from it.
#[verifier::reject_recursive_types(T)]
pub struct LocalQueue<T> {
    queue: Worker<T>,
}

impl<T> LocalQueue<T> {
    /// The crossbeam queue that holds the items.
    pub closed spec fn worker(&self) -> Worker<T> {
        self.queue
    }

    pub fn new() -> LocalQueue<T> {
        LocalQueue { queue: worker_new_fifo() }
    }

    pub fn pop(&self) -> Option<T> {
        worker_pop(&self.queue)
    }

    pub fn push(&self, t: T) {
        worker_push(&self.queue, t)
    }

    pub fn stealer(&self) -> Stealer<T> {
        worker_stealer(&self.queue)
    }

    pub fn get_ref(&self) -> (w: &Worker<T>)
        ensures
            *w == self.worker(),
    {
        &self.queue
    }
}

/// The queue that all processors share; new work goes here.
#[verifier::reject_recursive_types(T)]
pub struct GlobalQueue<T> {
    queue: Injector<T>,
}

impl<T> GlobalQueue<T> {
    /// The crossbeam queue that holds the items.
    pub closed spec fn injector(&self) -> Injector<T> {
        self.queue
    }

    pub fn new() -> GlobalQueue<T> {
        GlobalQueue { queue: injector_new() }
    }

    pub fn push(&self, t: T) {
        injector_push(&self.queue, t)
    }

    pub fn len(&self) -> usize {
        injector_len(&self.queue)
    }

    pub fn get_ref(&self) -> (q: &Injector<T>)
        ensures
            *q == self.injector(),
    {
        &self.queue
    }

    pub fn steal(&self) -> Stolen<T> {
        injector_steal(&self.queue)
    }

    pub fn steal_batch_with_limit_and_pop(&self, dest: &Worker<T>, limit: usize) -> Stolen<T>
        requires
            limit > 0,
    {
        injector_steal_batch_with_limit_and_pop(&self.queue, dest, limit)
    }
}

} // verus!
