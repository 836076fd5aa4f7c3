use vstd::prelude::*;
use vstd::rwlock::{RwLock, RwLockPredicate};
use crossbeam_utils::sync::Unparker;
use std::sync::Arc;
use crate::queue::{
    GlobalQueue, LocalQueue, Stolen, LQ_HALF_SIZE, stealer_len, stealer_steal,
    stealer_steal_batch_with_limit_and_pop,
};

verus! {

#[verifier::external_type_specification]
#[verifier::external_body]
pub struct ExUnparker(Unparker);

/// `Unparker::unpark` of crossbeam-utils: wakes the thread parked on the
/// matching `Parker`, or lets its next `park` return at once.
#[verifier::external_body]
fn unparker_unpark(u: &Unparker) {
    u.unpark()
}

/// Takes the last `max` processors off the list of sleepers, or all of them
/// where fewer sleep: the processors taken are the list's last entries,
/// latest first, and the list keeps the others in their order.
pub fn pop_sleepers(sleepers: &mut Vec<usize>, max: usize) -> (woken: Vec<usize>)
    ensures
        woken@.len() == if max < old(sleepers)@.len() { max as int } else { old(sleepers)@.len() as int },
        final(sleepers)@ == old(sleepers)@.take(old(sleepers)@.len() - woken@.len()),
        forall|i: int| 0 <= i < woken@.len() ==> woken@[i] == old(sleepers)@[old(sleepers)@.len() - 1 - i],
{
    let ghost before = sleepers@;
    let mut woken: Vec<usize> = Vec::new();
    let mut k: usize = 0;
    while k < max
        invariant
            0 <= k <= max,
            woken@.len() <= k,
            woken@.len() < k ==> sleepers@.len() == 0,
            woken@.len() <= before.len(),
            sleepers@ == before.take(before.len() - woken@.len()),
            forall|i: int| 0 <= i < woken@.len() ==> woken@[i] == before[before.len() - 1 - i],
        decreases max - k,
    {
        if let Some(i) = sleepers.pop() {
            woken.push(i);
        }
        k = k + 1;
    }
    woken
}

/// What the list of sleeping processors may hold: indices below `bound`.
pub struct SleepersBelow {
    pub bound: usize,
}

impl RwLockPredicate<Vec<usize>> for SleepersBelow {
    open spec fn inv(self, v: Vec<usize>) -> bool {
        forall|i: int| 0 <= i < v@.len() ==> v@[i] < self.bound
    }
}

/// The processors that have gone to sleep, latest last.
pub struct Idle {
    sleepers: RwLock<Vec<usize>, SleepersBelow>,
}

impl Idle {
    /// The number of processors; every sleeping index is below it.
    pub closed spec fn bound(&self) -> usize {
        self.sleepers.pred().bound
    }

    fn new(Ghost(count): Ghost<usize>) -> (idle: Idle)
        ensures
            idle.bound() == count,
    {
        let v: Vec<usize> = Vec::new();
        Idle { sleepers: RwLock::new(v, Ghost(SleepersBelow { bound: count })) }
    }

    /// Records that processor `p` goes to sleep.
    pub fn processor_to_parked(&self, p: usize)
        requires
            p < self.bound(),
    {
        let (mut sleepers, handle) = self.sleepers.acquire_write();
        sleepers.push(p);
        handle.release_write(sleepers);
    }

    /// Takes the processor that went to sleep last, if any is asleep.
    pub fn processor_to_notify(&self) -> (p: Option<usize>)
        ensures
            p matches Some(i) ==> i < self.bound(),
    {
        let (mut sleepers, handle) = self.sleepers.acquire_write();
        let p = sleepers.pop();
        handle.release_write(sleepers);
        p
    }
}


/// What every processor can reach of another one: its queue, to steal
/// from, and the handle that wakes its thread.
#[verifier::reject_recursive_types(T)]
pub struct Other<T> {
    queue: Arc<LocalQueue<T>>,
    unparker: Unparker,
}

impl<T> Other<T> {
    /// The processor's local queue, as others reach it.
    pub closed spec fn local_queue(&self) -> Arc<LocalQueue<T>> {
        self.queue
    }

    /// The handle that wakes the processor's thread.
    pub closed spec fn waker(&self) -> Unparker {
        self.unparker
    }

    pub fn new(queue: Arc<LocalQueue<T>>, unparker: Unparker) -> (o: Other<T>)
        ensures
            o.local_queue() == queue,
            o.waker() == unparker,
    {
        Other { queue: queue, unparker: unparker }
    }
}

/// The data that all processors share: one entry per processor, the global
/// queue and the list of sleeping processors.
#[verifier::reject_recursive_types(T)]
pub struct Shard<T> {
    others: Vec<Other<T>>,
    pub(crate) queue: GlobalQueue<T>,
    pub(crate) idle: Idle,
    steal_order: usize,
}

impl<T> Shard<T> {
    #[verifier::type_invariant]
    spec fn wf(&self) -> bool {
        &&& self.idle.bound() == self.others@.len()
        &&& self.steal_order == self.others@.len()
    }

    /// The number of processors.
    pub closed spec fn count(&self) -> nat {
        self.others@.len()
    }

    /// The entry of processor `i`.
    pub closed spec fn entry(&self, i: int) -> Other<T> {
        self.others@[i]
    }

    /// The queue that all processors share.
    pub closed spec fn global(&self) -> GlobalQueue<T> {
        self.queue
    }

    /// The shared data of the processors whose entries are `others`, in
    /// index order; the global queue is empty and nobody sleeps.
    pub fn new(others: Vec<Other<T>>) -> (s: Shard<T>)
        ensures
            s.count() == others@.len(),
            forall|i: int| 0 <= i < others@.len() ==> #[trigger] s.entry(i) == others@[i],
    {
        let count = others.len();
        Shard {
            others: others,
            queue: GlobalQueue::new(),
            idle: Idle::new(Ghost(count)),
            steal_order: count,
        }
    }

    /// The number of processors.
    pub fn len(&self) -> (n: usize)
        ensures
            n == self.count(),
    {
        self.others.len()
    }

    /// The queue that all processors share; new work goes here.
    pub fn queue(&self) -> (q: &GlobalQueue<T>)
        ensures
            *q == self.global(),
    {
        &self.queue
    }

    /// Wakes the processor that went to sleep last, if any is asleep.
    pub fn unpark_one(&self) {
        proof {
            use_type_invariant(self);
        }
        if let Some(i) = self.idle.processor_to_notify() {
            unparker_unpark(&self.others[i].unparker);
        }
    }

    /// Wakes the two processors that went to sleep last, or as many as sleep,
    /// and takes them off the list (`pop_sleepers` with at most two).
    pub fn unpark_two(&self) {
        proof {
            use_type_invariant(self);
        }
        let (mut sleepers, handle) = self.idle.sleepers.acquire_write();
        let woken = pop_sleepers(&mut sleepers, 2);
        let mut k: usize = 0;
        while k < woken.len()
            invariant
                forall|j: int| 0 <= j < woken@.len() ==> woken@[j] < self.others@.len(),
            decreases woken@.len() - k,
        {
            unparker_unpark(&self.others[woken[k]].unparker);
            k = k + 1;
        }
        handle.release_write(sleepers);
    }

    /// Wakes every processor that is asleep; they stay on the list.
    pub fn unpark_all(&self) {
        proof {
            use_type_invariant(self);
        }
        let handle = self.idle.sleepers.acquire_read();
        let sleepers = handle.borrow();
        let mut k: usize = 0;
        while k < sleepers.len()
            invariant
                self.idle.sleepers.inv(*sleepers),
                self.idle.bound() == self.others@.len(),
            decreases sleepers@.len() - k,
        {
            unparker_unpark(&self.others[sleepers[k]].unparker);
            k = k + 1;
        }
        handle.release_read();
    }
}


/// How many items one steal from the global queue may move: an even share
/// of the queued items plus one, but never more than half a local queue.
pub open spec fn spec_global_batch_limit(queued: usize, processors: usize) -> int {
    let share = queued / processors + 1;
    if share < LQ_HALF_SIZE { share } else { LQ_HALF_SIZE as int }
}

/// The global batch limit is the even share of the queued items plus one,
/// capped at half a local queue: one less than the limit, times the number
/// of processors, never exceeds what is queued, and below the cap the limit
/// times the number of processors already exceeds it.
pub proof fn lemma_global_batch_limit(queued: usize, processors: usize)
    requires
        processors > 0,
    ensures
        1 <= spec_global_batch_limit(queued, processors) <= LQ_HALF_SIZE,
        (spec_global_batch_limit(queued, processors) - 1) * processors <= queued,
        spec_global_batch_limit(queued, processors) < LQ_HALF_SIZE ==> queued
            < spec_global_batch_limit(queued, processors) * processors,
        spec_global_batch_limit(queued, processors) <= queued / processors + 1,
{
    let p = processors as int;
    let q = queued as int;
    let d = q / p;
    vstd::arithmetic::div_mod::lemma_fundamental_div_mod(q, p);
    vstd::arithmetic::div_mod::lemma_mod_bound(q, p);
    let n = spec_global_batch_limit(queued, processors);
    assert(d >= 0) by (nonlinear_arith)
        requires
            q == p * d + q % p,
            0 <= q % p < p,
            q >= 0,
            p > 0;
    if d + 1 < LQ_HALF_SIZE {
        assert(n == d + 1);
        assert((n - 1) * p <= q && q < n * p) by (nonlinear_arith)
            requires
                n == d + 1,
                q == p * d + q % p,
                0 <= q % p < p;
    } else {
        assert(n == LQ_HALF_SIZE);
        assert((n - 1) * p <= q) by (nonlinear_arith)
            requires
                n - 1 <= d,
                q == p * d + q % p,
                0 <= q % p,
                p > 0,
                n >= 1;
    }
}

/// The batch limit for a steal from the global queue, which holds `queued`
/// items, shared by `processors` processors: `min(queued / processors + 1,
/// LQ_HALF_SIZE)`.
pub fn global_batch_limit(queued: usize, processors: usize) -> (n: usize)
    requires
        processors > 0,
    ensures
        n == spec_global_batch_limit(queued, processors),
        1 <= n <= LQ_HALF_SIZE,
        n <= queued / processors + 1,
        (n - 1) * processors <= queued,
        n < LQ_HALF_SIZE ==> queued < n * processors,
{
    proof {
        lemma_global_batch_limit(queued, processors);
    }
    let even = queued / processors;
    if even < LQ_HALF_SIZE - 1 { even + 1 } else { LQ_HALF_SIZE }
}

/// How many items one steal from another processor may move: half of what
/// it holds, and at least one.
pub open spec fn spec_victim_batch_limit(held: usize) -> int {
    if held / 2 < 1 { 1 } else { (held / 2) as int }
}

/// The victim batch limit is half of what the victim holds, rounded down,
/// and one where that half is nothing.
pub proof fn lemma_victim_batch_limit(held: usize)
    ensures
        spec_victim_batch_limit(held) >= 1,
        held >= 2 ==> 2 * spec_victim_batch_limit(held) <= held < 2 * spec_victim_batch_limit(held) + 2,
        held < 2 ==> spec_victim_batch_limit(held) == 1,
{
}

/// The batch limit for a steal from a processor whose queue holds `held`
/// items: half of them, rounded down, and at least one.
pub fn victim_batch_limit(held: usize) -> (n: usize)
    ensures
        n == spec_victim_batch_limit(held),
        n >= 1,
        held >= 2 ==> 2 * n <= held < 2 * n + 2,
        held < 2 ==> n == 1,
{
    proof {
        lemma_victim_batch_limit(held);
    }
    let half = held / 2;
    if half < 1 { 1 } else { half }
}

/// The processor that a steal round starting at `start` visits in step `k`.
pub open spec fn spec_steal_order_at(start: usize, k: usize, count: usize) -> int {
    (start + k) % (count as int)
}

/// The index visited in step `k` of a steal round over `count` processors
/// that starts at `start`.
pub fn steal_order_at(start: usize, k: usize, count: usize) -> (i: usize)
    requires
        k < count,
    ensures
        i == spec_steal_order_at(start, k, count),
        i == (start + k) % (count as int),
        i < count,
{
    let s = start % count;
    let room = count - s;
    if k < room {
        proof {
            lemma_mod_shift(start as int, k as int, count as int, 0);
        }
        s + k
    } else {
        proof {
            lemma_mod_shift(start as int, k as int, count as int, 1);
        }
        k - room
    }
}

proof fn lemma_mod_shift(start: int, k: int, count: int, wrap: int)
    requires
        0 <= start,
        0 <= k < count,
        wrap == 0 || wrap == 1,
        0 <= start % count + k - wrap * count < count,
    ensures
        (start + k) % count == start % count + k - wrap * count,
{
    let q = start / count;
    vstd::arithmetic::div_mod::lemma_fundamental_div_mod(start, count);
    assert(start + k == (q + wrap) * count + (start % count + k - wrap * count)) by (nonlinear_arith)
        requires
            start == count * q + start % count;
    vstd::arithmetic::div_mod::lemma_fundamental_div_mod_converse(
        start + k, count, q + wrap, start % count + k - wrap * count);
}

/// A steal round visits every processor exactly once: two different steps
/// of a round over `count` processors visit different indices.
pub proof fn lemma_steal_order_visits_each_once(start: usize, k1: usize, k2: usize, count: usize)
    requires
        k1 < count,
        k2 < count,
        k1 != k2,
    ensures
        spec_steal_order_at(start, k1, count) != spec_steal_order_at(start, k2, count),
        0 <= spec_steal_order_at(start, k1, count) < count,
{
    let c = count as int;
    vstd::arithmetic::div_mod::lemma_fundamental_div_mod(start + k1, c);
    vstd::arithmetic::div_mod::lemma_fundamental_div_mod(start + k2, c);
    vstd::arithmetic::div_mod::lemma_mod_bound(start + k1, c);
    vstd::arithmetic::div_mod::lemma_mod_bound(start + k2, c);
    if (start + k1) % c == (start + k2) % c {
        let q1 = (start + k1) / c;
        let q2 = (start + k2) / c;
        assert(k1 - k2 == c * (q1 - q2)) by (nonlinear_arith)
            requires
                start + k1 == c * q1 + (start + k1) % c,
                start + k2 == c * q2 + (start + k2) % c,
                (start + k1) % c == (start + k2) % c;
        assert(false) by (nonlinear_arith)
            requires
                k1 - k2 == c * (q1 - q2),
                k1 != k2,
                0 <= k1 < c,
                0 <= k2 < c;
    }
}


/// Where a processor looks for work: its own queue, the global queue, the
/// other processors' queues.
#[derive(Clone, Copy)]
pub enum ScheduleStage {
    Local,
    Global,
    Others,
}

/// How many stages are still to come after `stage`.
pub open spec fn stage_rank(stage: ScheduleStage) -> nat {
    match stage {
        ScheduleStage::Local => 2,
        ScheduleStage::Global => 1,
        ScheduleStage::Others => 0,
    }
}

/// What a processor does after looking for work at one stage.
pub enum ScheduleAction<T> {
    /// Run the work found.
    Run(T),
    /// Look at the next stage.
    Next(ScheduleStage),
    /// All stages were empty: go to sleep.
    Park,
}

/// The scheduling order: work found at a stage is run; none found moves
/// from the local queue to the global one, from there to the other
/// processors, and from there to sleep.
pub fn schedule_step<T>(stage: ScheduleStage, outcome: Option<T>) -> (a: ScheduleAction<T>)
    ensures
        outcome matches Some(t) ==> a == ScheduleAction::Run(t),
        outcome is None && stage is Local ==> a == ScheduleAction::<T>::Next(ScheduleStage::Global),
        outcome is None && stage is Global ==> a == ScheduleAction::<T>::Next(ScheduleStage::Others),
        outcome is None && stage is Others ==> a is Park,
        a matches ScheduleAction::Next(next) ==> stage_rank(next) < stage_rank(stage),
{
    match outcome {
        Some(t) => ScheduleAction::Run(t),
        None => match stage {
            ScheduleStage::Local => ScheduleAction::Next(ScheduleStage::Global),
            ScheduleStage::Global => ScheduleAction::Next(ScheduleStage::Others),
            ScheduleStage::Others => ScheduleAction::Park,
        },
    }
}

/// How many times a processor tries to steal from the global queue.
pub const GLOBAL_STEAL_ATTEMPTS: usize = 3;

/// What a processor does after one attempt to steal from the global queue.
pub enum GlobalStep<T> {
    /// Stop, with the item taken if there is one.
    Done(Option<T>),
    /// Try again.
    Again,
}

/// The handling of attempt number `attempt` (from 0) at the global queue:
/// an empty queue ends the search empty-handed, a stolen item ends it with
/// that item, and a retry is tried again unless all attempts are used.
pub fn after_global_steal<T>(outcome: Stolen<T>, attempt: usize) -> (s: GlobalStep<T>)
    requires
        attempt < GLOBAL_STEAL_ATTEMPTS,
    ensures
        outcome is Empty ==> s == GlobalStep::<T>::Done(None),
        outcome matches Stolen::Success(t) ==> s == GlobalStep::Done(Some(t)),
        outcome is Retry && attempt + 1 < GLOBAL_STEAL_ATTEMPTS ==> s is Again,
        outcome is Retry && attempt + 1 >= GLOBAL_STEAL_ATTEMPTS ==> s == GlobalStep::<T>::Done(None),
{
    match outcome {
        Stolen::Empty => GlobalStep::Done(None),
        Stolen::Success(t) => GlobalStep::Done(Some(t)),
        Stolen::Retry => {
            if attempt + 1 < GLOBAL_STEAL_ATTEMPTS {
                GlobalStep::Again
            } else {
                GlobalStep::Done(None)
            }
        },
    }
}

/// The processor that step `k` of a steal round starting at `start` looks
/// at, or `None` where that is processor `index` itself.
pub open spec fn spec_victim_at(start: usize, k: usize, count: usize, index: usize) -> Option<usize> {
    let i = spec_steal_order_at(start, k, count);
    if i == index {
        None
    } else {
        Some(i as usize)
    }
}

/// A steal round skips the thief and only the thief: step `k` has no
/// victim exactly when it visits processor `index`, and otherwise its victim
/// is the processor the step visits.
pub proof fn lemma_victim_skips_only_self(start: usize, k: usize, count: usize, index: usize)
    requires
        k < count,
    ensures
        spec_victim_at(start, k, count, index) is None <==> (start + k) % (count as int) == index,
        spec_victim_at(start, k, count, index) matches Some(i) ==> i == (start + k) % (count as int),
{
    vstd::arithmetic::div_mod::lemma_mod_bound((start + k) as int, count as int);
}

/// The processor to steal from in step `k` of a steal round over `count`
/// processors that starts at `start`, skipping processor `index`.
pub fn victim_at(start: usize, k: usize, count: usize, index: usize) -> (v: Option<usize>)
    requires
        k < count,
    ensures
        v == spec_victim_at(start, k, count, index),
        v is None <==> (start + k) % (count as int) == index,
        v matches Some(i) ==> i == (start + k) % (count as int) && i < count,
{
    proof {
        lemma_victim_skips_only_self(start, k, count, index);
    }
    let i = steal_order_at(start, k, count);
    if i == index {
        None
    } else {
        Some(i)
    }
}

/// What only the owning processor touches: its local queue. The parker that
/// blocks its thread stays with the thread that runs it.
#[verifier::reject_recursive_types(T)]
pub struct Local<T> {
    pub(crate) queue: Arc<LocalQueue<T>>,
}

impl<T> Local<T> {
    /// The processor's local queue.
    pub closed spec fn local_queue(&self) -> Arc<LocalQueue<T>> {
        self.queue
    }

    pub fn new(queue: Arc<LocalQueue<T>>) -> (l: Local<T>)
        ensures
            l.local_queue() == queue,
    {
        Local { queue: queue }
    }
}

/// One worker of the runtime: its index, the shared data and its local queue.
#[verifier::reject_recursive_types(T)]
pub struct Processor<T> {
    index: usize,
    shard: Arc<Shard<T>>,
    pub(crate) local: Local<T>,
}

impl<T> Processor<T> {
    #[verifier::type_invariant]
    spec fn wf(&self) -> bool {
        self.index < self.shard.count()
    }

    /// The processor's index among all processors.
    pub closed spec fn id(&self) -> usize {
        self.index
    }

    /// The number of processors that share the processor's data.
    pub closed spec fn count(&self) -> nat {
        self.shard.count()
    }

    /// The processor's own queue, which it drains and others steal from.
    pub closed spec fn local_queue(&self) -> Arc<LocalQueue<T>> {
        self.local.queue
    }

    /// The data the processor shares with the others.
    pub closed spec fn shared(&self) -> Arc<Shard<T>> {
        self.shard
    }

    /// Processor number `index` of those that share `shard`.
    pub fn new(index: usize, shard: Arc<Shard<T>>, local: Local<T>) -> (p: Processor<T>)
        requires
            index < shard.count(),
        ensures
            p.id() == index,
            p.count() == shard.count(),
            p.local_queue() == local.local_queue(),
            p.shared() == shard,
    {
        Processor { index: index, shard: shard, local: local }
    }

    /// Queues `t` on this processor's local queue.
    pub fn push(&self, t: T) {
        self.local.queue.push(t);
    }

    /// The next piece of work for this processor: from its own queue first,
    /// then from the global queue, then from the other processors, visited in
    /// the steal round that starts at `start`. `None` when all were empty;
    /// the caller then parks the thread (see `park`).
    pub fn schedule(&self, start: usize) -> Option<T> {
        let mut stage = ScheduleStage::Local;
        loop
            decreases stage_rank(stage),
        {
            let outcome = match stage {
                ScheduleStage::Local => self.local.queue.pop(),
                ScheduleStage::Global => self.steal_from_global(),
                ScheduleStage::Others => self.steal_from_others(start),
            };
            match schedule_step(stage, outcome) {
                ScheduleAction::Run(t) => return Some(t),
                ScheduleAction::Park => return None,
                ScheduleAction::Next(next) => stage = next,
            }
        }
    }

    /// Takes one item from the global queue.
    pub fn steal_job_from_glo(&self) -> Option<T> {
        self.shard.queue.steal().success()
    }

    /// Takes one item from the global queue, or else from the first of the
    /// processors numbered 0 to 5, other than this one, that has one. Those
    /// six must exist: with fewer processors, a steal that finds the lower
    /// queues empty would reach past the last one, and no precondition can
    /// name the queues' contents.
    pub fn steal_job(&self) -> Option<T>
        requires
            self.count() >= 6,
    {
        proof {
            use_type_invariant(self);
        }
        if let Some(t) = self.steal_job_from_glo() {
            return Some(t);
        }
        let count = self.shard.len();
        let mut i: usize = 0;
        while i < 6
            invariant
                count == self.count(),
                count >= 6,
            decreases 6 - i,
        {
            if let Some(v) = victim_at(0, i, count, self.index) {
                let stealer = self.shard.others[v].queue.stealer();
                if let Some(t) = stealer_steal(&stealer).success() {
                    return Some(t);
                }
            }
            i = i + 1;
        }
        None
    }

    /// Moves a batch from the global queue into the local queue and takes
    /// one item of it; the batch limit is `global_batch_limit` of the queue's
    /// length and the number of processors, and each outcome is handled as
    /// `after_global_steal` says, with at most three attempts.
    pub fn steal_from_global(&self) -> Option<T> {
        proof {
            use_type_invariant(self);
        }
        let n = global_batch_limit(self.shard.queue.len(), self.shard.len());
        if n == 0 {
            return None;
        }
        let mut attempt: usize = 0;
        loop
            invariant
                n > 0,
                attempt < GLOBAL_STEAL_ATTEMPTS,
            decreases GLOBAL_STEAL_ATTEMPTS - attempt,
        {
            let outcome = self.shard.queue.steal_batch_with_limit_and_pop(self.local.queue.get_ref(), n);
            match after_global_steal(outcome, attempt) {
                GlobalStep::Done(r) => return r,
                GlobalStep::Again => attempt = attempt + 1,
            }
        }
    }

    /// Visits the processors in the steal round that starts at `start`,
    /// skipping this one as `victim_at` says, and from the first that has
    /// work moves half of it (at least one item, `victim_batch_limit`) into
    /// the local queue and takes one item (`Stolen::success`).
    /// A processor that is alone has no one to steal from.
    pub fn steal_from_others(&self, start: usize) -> (r: Option<T>)
        ensures
            self.count() <= 1 ==> r is None,
    {
        proof {
            use_type_invariant(self);
        }
        let count = self.shard.len();
        let mut k: usize = 0;
        while k < count
            invariant
                count == self.shard.count(),
                self.index < count,
            decreases count - k,
        {
            if let Some(i) = victim_at(start, k, count, self.index) {
                let stealer = self.shard.others[i].queue.stealer();
                let n = victim_batch_limit(stealer_len(&stealer));
                if n != 0 {
                    let outcome = stealer_steal_batch_with_limit_and_pop(&stealer, self.local.queue.get_ref(), n);
                    if let Some(t) = outcome.success() {
                        return Some(t);
                    }
                }
            }
            k = k + 1;
        }
        None
    }

    /// Wakes the processor that went to sleep last, if any is asleep.
    pub fn unpark_one(&self) {
        self.shard.unpark_one();
    }

    /// Puts this processor on the list of sleeping processors; the caller
    /// then blocks the thread on its parker until it is woken.
    pub fn park(&self) {
        proof {
            use_type_invariant(self);
            use_type_invariant(&*self.shard);
        }
        self.shard.idle.processor_to_parked(self.index);
    }
}

} // verus!
