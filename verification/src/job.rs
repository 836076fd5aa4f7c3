use vstd::prelude::*;

verus! {

/// What a job has produced so far.
pub enum JobResult<T> {
    /// The job's function has not returned (it has not run, or it panicked).
    Absent,
    /// The value that the job's function returned.
    Done(T),
}

impl<T> JobResult<T> {
    /// The produced value, if there is one.
    pub open spec fn value(self) -> Option<T> {
        match self {
            JobResult::Absent => None,
            JobResult::Done(x) => Some(x),
        }
    }
}

/// A flag that a job raises once it has run; until then its owner waits.
pub struct SpinLatch {
    b: bool,
}

impl SpinLatch {
    /// Whether the latch has been raised.
    pub closed spec fn is_set(&self) -> bool {
        self.b
    }

    /// A latch that has not been raised.
    pub fn new() -> (l: SpinLatch)
        ensures
            !l.is_set(),
    {
        SpinLatch { b: false }
    }

    /// Tests whether the latch is set; the owner waits while it is not.
    pub fn wait(&self) -> (set: bool)
        ensures
            set == self.is_set(),
    {
        self.b
    }

    /// Raises the latch. Nothing lowers it again: a raised latch stays raised,
    /// and raising it twice leaves it raised.
    pub fn done(&mut self)
        ensures
            final(self).is_set(),
    {
        self.b = true;
    }
}

/// A function to run once, the latch that tells when it has run, and its result.
#[verifier::reject_recursive_types(R)]
pub struct StackJob<F, R> where F: FnOnce() -> R {
    f: Option<F>,
    pub(crate) lock: SpinLatch,
    result: JobResult<R>,
}

impl<F, R> StackJob<F, R> where F: FnOnce() -> R {
    /// A job whose latch is raised has a result.
    #[verifier::type_invariant]
    spec fn finished_has_result(&self) -> bool {
        self.lock.is_set() ==> self.result is Done
    }

    /// The latch that tells when the job has run.
    pub fn latch(&self) -> (l: &SpinLatch)
        ensures
            l.is_set() == self.finished(),
    {
        &self.lock
    }

    /// The function still to run, if it has not been taken yet.
    pub closed spec fn func(&self) -> Option<F> {
        self.f
    }

    /// Whether the job's latch has been raised.
    pub closed spec fn finished(&self) -> bool {
        self.lock.is_set()
    }

    /// The value the function returned, once it has.
    pub closed spec fn output(&self) -> Option<R> {
        self.result.value()
    }

    /// A job that will run `f`; nothing has run yet.
    pub fn new(f: F) -> (job: StackJob<F, R>)
        ensures
            job.func() == Some(f),
            job.output() == None::<R>,
            !job.finished(),
    {
        StackJob { f: Some(f), lock: SpinLatch::new(), result: JobResult::Absent }
    }

    /// Runs the job: takes its function, stores what it returns and raises the latch.
    pub fn execute(&mut self)
        requires
            old(self).func() is Some,
            old(self).func().unwrap().requires(()),
        ensures
            final(self).func() is None,
            final(self).finished(),
            final(self).output() is Some,
            old(self).func().unwrap().ensures((), final(self).output().unwrap()),
    {
        let mut taken = StackJob { f: None, lock: SpinLatch::new(), result: JobResult::Absent };
        std::mem::swap(self, &mut taken);
        let StackJob { f, lock, result: _ } = taken;
        let func = f.unwrap();
        let res = func();
        let mut lock = lock;
        lock.done();
        *self = StackJob { f: None, lock, result: JobResult::Done(res) };
    }

    /// The value the job's function returned. A job whose latch is not yet
    /// raised has no result: it is left out.
    pub fn get_res(self) -> (r: R)
        requires
            self.finished(),
        ensures
            self.output() == Some(r),
    {
        proof {
            use_type_invariant(&self);
        }
        match self.result {
            JobResult::Absent => vstd::pervasive::unreached(),
            JobResult::Done(x) => x,
        }
    }
}

/// The handle that the caller of `go` keeps to collect the job's result.
#[verifier::reject_recursive_types(R)]
pub struct JobHandle<F, R>(pub(crate) Box<StackJob<F, R>>) where F: FnOnce() -> R;

impl<F, R> JobHandle<F, R> where F: FnOnce() -> R {
    /// The job that the handle owns.
    pub closed spec fn job(&self) -> StackJob<F, R> {
        *self.0
    }

    /// A handle on a job that will run `f`.
    pub fn new(f: F) -> (h: JobHandle<F, R>)
        ensures
            h.job().func() == Some(f),
            h.job().output() == None::<R>,
            !h.job().finished(),
    {
        JobHandle(Box::new(StackJob::new(f)))
    }

    /// Runs the job that the handle owns.
    pub fn execute(&mut self)
        requires
            old(self).job().func() is Some,
            old(self).job().func().unwrap().requires(()),
        ensures
            final(self).job().func() is None,
            final(self).job().finished(),
            final(self).job().output() is Some,
            old(self).job().func().unwrap().ensures((), final(self).job().output().unwrap()),
    {
        self.0.execute();
    }

    /// Whether the owner still has to wait: true until the job has run.
    pub fn waiting(&self) -> (w: bool)
        ensures
            w == !self.job().finished(),
    {
        !self.0.lock.wait()
    }

    /// The value the job's function returned, once its latch is raised.
    pub fn get_res(self) -> (r: R)
        requires
            self.job().finished(),
        ensures
            self.job().output() == Some(r),
    {
        let _ = self.0.lock.wait();
        self.0.get_res()
    }
}

} // verus!
