use vstd::prelude::*;
use vstd::string::StringExecFns;
use crate::job::{JobHandle, StackJob};
use crate::processor::{Local, Other, Processor, Shard};
use crate::queue::LocalQueue;
use crossbeam_utils::sync::Unparker;
use std::sync::Arc;

verus! {

/// The number of worker threads that work is spread over.
///
/// Calls `num_cpus::get`, which reports the processors available to this
/// process; its documentation promises at least one. Which number comes back
/// depends on the machine, so nothing ties two calls together.
#[verifier::external_body]
pub(crate) fn get_num() -> (n: usize)
    ensures
        n >= 1,
{
    num_cpus::get()
}

/// Starts `f` as a job and returns at once with the handle that collects
/// its result. The job has not run yet: whoever drives the runtime takes it
/// (`JobHandle::execute`, or `Runtime::go` to queue it for a processor), and
/// the handle's latch is raised once it has.
pub fn go<F, R>(f: F) -> (h: JobHandle<F, R>) where F: FnOnce() -> R
    ensures
        h.job().func() == Some(f),
        h.job().output() == None::<R>,
        !h.job().finished(),
{
    JobHandle::new(f)
}

/// Whatever two closures return, `join` hands the results back in the order
/// of the closures: where each closure's result is fixed by its `ensures`,
/// joining them the other way round gives the pair swapped.
pub proof fn lemma_join_swap<F1, F2, R1, R2>(f1: F1, f2: F2, r: (R1, R2), s: (R2, R1)) where
    F1: FnOnce() -> R1,
    F2: FnOnce() -> R2,

    requires
        f1.ensures((), r.0),
        f2.ensures((), r.1),
        f2.ensures((), s.0),
        f1.ensures((), s.1),
        forall|x: R1, y: R1| f1.ensures((), x) && f1.ensures((), y) ==> x == y,
        forall|x: R2, y: R2| f2.ensures((), x) && f2.ensures((), y) ==> x == y,
    ensures
        s == (r.1, r.0),
{
}

/// Runs two closures and returns both results, `f1`'s first.
///
/// Both closures are evaluated on the calling thread, `f1` before `f2`;
/// the thread pool of the application crate offers the variant that hands
/// them to worker threads.
pub fn join<F1, F2, R1, R2>(f1: F1, f2: F2) -> (res: (R1, R2)) where
    F1: FnOnce() -> R1,
    F2: FnOnce() -> R2,

    requires
        f1.requires(()),
        f2.requires(()),
    ensures
        f1.ensures((), res.0),
        f2.ensures((), res.1),
{
    let r1 = f1();
    let r2 = f2();
    (r1, r2)
}

/// Which runtime drives concurrent work.
#[derive(Clone, Copy, Debug, Default)]
pub enum RuntimeType {
    #[default]
    Default,
    Tokio,
}

/// The error of a task that the runtime could not complete.
#[derive(Debug, Clone)]
pub struct RuntimeError {
    message: String,
}

/// The text that every runtime error message starts with.
pub open spec fn runtime_error_prefix() -> Seq<char> {
    "runtime task failed: "@
}

impl RuntimeError {
    /// The message that the error carries.
    pub closed spec fn message(&self) -> Seq<char> {
        self.message@
    }

    /// The error of a task that failed to join, with `message`.
    pub fn join(message: &str) -> (e: RuntimeError)
        ensures
            e.message() == message@,
    {
        RuntimeError { message: String::from_str(message) }
    }

    /// The error's text: the fixed prefix followed by its message.
    pub fn to_string(&self) -> (s: String)
        ensures
            s@ == runtime_error_prefix() + self.message(),
    {
        let mut s = String::from_str("runtime task failed: ");
        s.append(self.message.as_str());
        s
    }
}

/// The runtime of the tokio crate.
#[derive(Clone, Default)]
pub struct TokioRuntime;

/// A runtime that runs each task on the calling thread.
#[derive(Clone, Default)]
pub struct InlineRuntime;

/// The process-wide runtime of this library.
#[derive(Clone, Default)]
pub struct GlobalRuntime;


/// `Clone::clone` of `Arc`: another pointer to the same allocation, so the
/// value it points to is the same.
#[verifier::external_body]
fn arc_clone<T>(a: &Arc<T>) -> (r: Arc<T>)
    ensures
        *r == **a,
{
    a.clone()
}

/// What the thread that joins two jobs does next.
pub enum JoinStep<T> {
    /// Run this job, taken from the queues, and ask again.
    Run(T),
    /// Nothing to run: let other threads go first, and ask again.
    Yield,
    /// Both jobs are done: collect their results.
    Finish,
}

/// The work-stealing runtime: the processors' shared data, the processor
/// that the thread that created the runtime drives, and the number of
/// worker threads.
#[verifier::reject_recursive_types(T)]
pub struct Runtime<T> {
    main_p: Processor<T>,
    share: Arc<Shard<T>>,
    thead_num: usize,
}

impl<T> Runtime<T> {
    #[verifier::type_invariant]
    spec fn wf(&self) -> bool {
        &&& self.main_p.count() == self.share.count()
        &&& self.main_p.id() == self.thead_num
        &&& self.main_p.shared() == self.share
    }

    /// The data that all processors share.
    pub closed spec fn shard(&self) -> Arc<Shard<T>> {
        self.share
    }

    /// The processor that the creating thread drives.
    pub closed spec fn main_processor(&self) -> Processor<T> {
        self.main_p
    }

    /// The number of processors: the worker threads' and the main one.
    pub closed spec fn processors(&self) -> nat {
        self.share.count()
    }

    /// The number of worker threads.
    pub closed spec fn workers(&self) -> usize {
        self.thead_num
    }

    /// The index of the processor that the creating thread drives.
    pub closed spec fn main_index(&self) -> usize {
        self.main_p.id()
    }

    /// A runtime of `worker_threads` worker threads and the creating thread,
    /// whose processors wake their threads through `unparkers` (one per
    /// processor, in index order). Returns the runtime, which drives the last
    /// processor, and the processors for the worker threads, in index order.
    pub fn new(worker_threads: usize, unparkers: Vec<Unparker>) -> (res: (Runtime<T>, Vec<Processor<T>>))
        requires
            worker_threads < usize::MAX,
            unparkers@.len() == worker_threads + 1,
        ensures
            res.0.processors() == worker_threads + 1,
            res.0.workers() == worker_threads,
            res.0.main_index() == worker_threads,
            res.1@.len() == worker_threads,
            forall|i: int| 0 <= i < worker_threads ==> (#[trigger] res.1@[i]).id() == i
                && res.1@[i].count() == worker_threads + 1,
            forall|i: int| 0 <= i < worker_threads ==> (#[trigger] res.1@[i]).local_queue()
                == res.0.shard().entry(i).local_queue() && res.1@[i].shared() == res.0.shard(),
            res.0.main_processor().local_queue() == res.0.shard().entry(worker_threads as int).local_queue(),
            res.0.main_processor().shared() == res.0.shard(),
            forall|i: int| 0 <= i <= worker_threads ==> (#[trigger] res.0.shard().entry(i)).waker()
                == unparkers@[i],
    {
        let ghost given = unparkers@;
        let count = worker_threads + 1;
        let mut unparkers = unparkers;
        let mut others: Vec<Other<T>> = Vec::new();
        let mut queues: Vec<Arc<LocalQueue<T>>> = Vec::new();
        let mut i: usize = 0;
        while i < count
            invariant
                count == worker_threads + 1,
                0 <= i <= count,
                others@.len() == i,
                queues@.len() == i,
                unparkers@.len() == count - i,
                given.len() == count,
                unparkers@ == given.skip(i as int),
                forall|k: int| 0 <= k < i ==> (#[trigger] others@[k]).local_queue() == queues@[k]
                    && others@[k].waker() == given[k],
            decreases count - i,
        {
            let queue = Arc::new(LocalQueue::new());
            proof {
                assert(unparkers@[0] == given[i as int]);
            }
            let unparker = unparkers.remove(0);
            others.push(Other::new(arc_clone(&queue), unparker));
            queues.push(queue);
            i = i + 1;
            proof {
                assert(unparkers@ =~= given.skip(i as int));
            }
        }
        let shard = Arc::new(Shard::new(others));
        let mut processors: Vec<Processor<T>> = Vec::new();
        let mut j: usize = 0;
        while j < worker_threads
            invariant
                count == worker_threads + 1,
                0 <= j <= worker_threads,
                queues@.len() == count,
                shard.count() == count,
                processors@.len() == j,
                forall|k: int| 0 <= k < j ==> (#[trigger] processors@[k]).id() == k
                    && processors@[k].count() == count,
                forall|k: int| 0 <= k < count ==> (#[trigger] shard.entry(k)).local_queue() == queues@[k]
                    && shard.entry(k).waker() == given[k],
                forall|k: int| 0 <= k < j ==> (#[trigger] processors@[k]).local_queue() == queues@[k]
                    && processors@[k].shared() == shard,
            decreases worker_threads - j,
        {
            let local = Local::new(arc_clone(&queues[j]));
            processors.push(Processor::new(j, arc_clone(&shard), local));
            j = j + 1;
        }
        let main_p = Processor::new(worker_threads, arc_clone(&shard), Local::new(arc_clone(&queues[worker_threads])));
        (Runtime { main_p: main_p, share: shard, thead_num: worker_threads }, processors)
    }

    /// The number of worker threads.
    pub fn thread_num(&self) -> (n: usize)
        ensures
            n == self.workers(),
    {
        self.thead_num
    }

    /// Queues `job` on the global queue and wakes one sleeping processor.
    pub fn go(&self, job: T) {
        self.share.queue().push(job);
        self.share.unpark_one();
    }

    /// Queues two jobs on the global queue and wakes two sleeping processors;
    /// the caller then drives `join_step` until both are done.
    pub fn join(&self, job1: T, job2: T) {
        self.share.queue().push(job1);
        self.share.queue().push(job2);
        self.share.unpark_two();
    }

    /// The results of two jobs that `join` queued, once both latches are
    /// raised: the first job's result first.
    pub fn join_results<F1, R1, F2, R2>(&self, job1: StackJob<F1, R1>, job2: StackJob<F2, R2>) -> (res: (R1, R2)) where
        F1: FnOnce() -> R1,
        F2: FnOnce() -> R2,

        requires
            job1.finished(),
            job2.finished(),
        ensures
            job1.output() == Some(res.0),
            job2.output() == Some(res.1),
    {
        let r1 = job1.get_res();
        let r2 = job2.get_res();
        (r1, r2)
    }

    /// The next thing the joining thread does, given whether it still waits
    /// for the first and for the second job: while it waits for either, it
    /// runs a job that it can steal, or yields when there is none. Stealing
    /// looks at the processors numbered 0 to 5, so the runtime must have at
    /// least six; with fewer, a steal that finds the lower queues empty would
    /// reach past the last processor, which no precondition can single out.
    pub fn join_step(&self, waiting1: bool, waiting2: bool) -> (step: JoinStep<T>)
        requires
            self.processors() >= 6,
        ensures
            !waiting1 && !waiting2 <==> step is Finish,
    {
        proof {
            use_type_invariant(self);
        }
        if waiting2 || waiting1 {
            match self.main_p.steal_job() {
                Some(job) => JoinStep::Run(job),
                None => JoinStep::Yield,
            }
        } else {
            JoinStep::Finish
        }
    }
}

} // verus!
