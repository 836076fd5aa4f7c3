use aerogel::iter::con::{IntoConcurrencyIterator, DEFAULT_CONCURRENCY};
use aerogel::job::{JobHandle, SpinLatch, StackJob};
use aerogel::parallel::{IntoParallelIterator, ParallelIterator};
use aerogel::processor::{
    global_batch_limit, steal_order_at, victim_batch_limit, Local, Other, Processor, Shard,
};
use aerogel::processor::{
    after_global_steal, schedule_step, victim_at, GlobalStep, ScheduleAction, ScheduleStage,
};
use aerogel::queue::{GlobalQueue, LocalQueue, Stolen, LQ_HALF_SIZE};
use aerogel::reactor::{ReadyEvent, Reactor};
use aerogel::runtime::{JoinStep, Runtime};
use aerogel::{go, join, GlobalRuntime, InlineRuntime, RuntimeError, RuntimeType};
use crossbeam_utils::sync::Parker;
use std::sync::Arc;

#[test]
fn join_returns_both_results_in_order() {
    let (a, b) = join(|| 6 * 7, || "right");
    assert_eq!(a, 42);
    assert_eq!(b, "right");
}

#[test]
fn go_returns_before_the_job_runs() {
    let mut h = go(|| 1 + 2);
    assert!(h.waiting());
    h.execute();
    assert!(!h.waiting());
    assert_eq!(h.get_res(), 3);
}

#[test]
fn spin_latch_starts_unset_and_stays_set() {
    let mut l = SpinLatch::new();
    assert!(!l.wait());
    l.done();
    assert!(l.wait());
    l.done();
    assert!(l.wait());
}

#[test]
fn stack_job_runs_once_and_keeps_result() {
    let mut job = StackJob::new(|| String::from("done"));
    assert!(!job.latch().wait());
    job.execute();
    assert!(job.latch().wait());
    assert_eq!(job.get_res(), "done");
}

#[test]
fn job_handle_executes_and_collects() {
    let mut h = JobHandle::new(|| vec![1, 2, 3]);
    assert!(h.waiting());
    h.execute();
    assert!(!h.waiting());
    assert_eq!(h.get_res(), vec![1, 2, 3]);
}

#[test]
fn runtime_error_text() {
    let e = RuntimeError::join("worker gone");
    assert_eq!(e.to_string(), "runtime task failed: worker gone");
    assert_eq!(RuntimeError::join("").to_string(), "runtime task failed: ");
}

#[test]
fn runtime_type_defaults_to_default() {
    assert!(matches!(RuntimeType::default(), RuntimeType::Default));
}

#[test]
fn buffered_limit_is_at_least_one() {
    let a = [10, 20, 30];
    let c = (&a[..]).into_con_iter();
    assert_eq!(c.limit(), DEFAULT_CONCURRENCY);
    assert_eq!(c.limit(), 4);
    let c = c.buffered(0);
    assert_eq!(c.limit(), 1);
    let c = c.buffered(7);
    assert_eq!(c.limit(), 7);
    let c = c.runtime(GlobalRuntime).runtime_type(InlineRuntime);
    assert_eq!(c.limit(), 7);
}

#[test]
fn con_slice_iter_yields_in_order() {
    let v = vec![1, 2, 3];
    let c = (&v).into_con_iter();
    let it = c.buffered(2);
    assert_eq!(it.limit(), 2);
    let mut s = it.into_inner();
    assert_eq!(s.next(), Some(&1));
    assert_eq!(s.next(), Some(&2));
    assert_eq!(s.next(), Some(&3));
    assert_eq!(s.next(), None);
    assert_eq!(s.next(), None);
}

#[test]
fn parallel_sum_of_various_lengths() {
    let empty: Vec<usize> = Vec::new();
    assert_eq!((&empty).into_aer_iter().sum(), 0);
    let one = vec![41usize];
    assert_eq!((&one).into_aer_iter().sum(), 41);
    let v: Vec<usize> = (1..=1000).collect();
    assert_eq!((&v).into_aer_iter().sum(), 500500);
    let odd: Vec<usize> = vec![3, 5, 7, 11, 13];
    assert_eq!((&odd[..]).into_aer_iter().sum(), 39);
}

#[test]
fn parallel_sum_of_i32_items() {
    let a = [1, 2, 3];
    let s: i32 = (&a[..]).into_aer_iter().sum();
    assert_eq!(s, 6);
    let b: Vec<i32> = vec![-5, 7, -9, 4];
    assert_eq!((&b).into_aer_iter().sum(), -3);
    let c = [1i32, 2, 3, 4];
    let p = (&c[..]).into_aer_iter();
    assert_eq!(aerogel::parallel::divide(4, 2, p, aerogel::parallel::SumConsumer::new()), 10);
    // A split that never adds the large item to a positive one stays in range.
    let d = [-10, i32::MAX, 5];
    assert_eq!(
        aerogel::parallel::divide(3, 1, (&d[..]).into_aer_iter(), aerogel::parallel::SumConsumer::new()),
        i32::MAX - 5
    );
    let consumer = aerogel::parallel::SumConsumer::new();
    assert_eq!((&d[..]).into_aer_iter().produce(&consumer), i32::MAX - 5);
    for cost in 0..9 {
        let v: Vec<i32> = (1..=37).collect();
        assert_eq!(aerogel::parallel::divide(37, cost, (&v).into_aer_iter(), aerogel::parallel::SumConsumer::new()), 703);
    }
}

#[test]
fn parallel_sum_of_other_integer_types() {
    let a: Vec<u8> = vec![100, 50, 105];
    assert_eq!((&a).into_aer_iter().sum(), 255u8);
    let b: Vec<i64> = vec![-4, 9, -1];
    assert_eq!((&b).into_aer_iter().sum(), 4i64);
    let c: Vec<u128> = vec![1u128 << 100, 1];
    assert_eq!((&c).into_aer_iter().sum(), (1u128 << 100) + 1);
    let d: Vec<i8> = vec![-128, 127];
    assert_eq!((&d).into_aer_iter().sum(), -1i8);
    let e: Vec<isize> = vec![-3, -4];
    assert_eq!((&e).into_aer_iter().sum(), -7isize);
    let f: Vec<u16> = vec![1; 70];
    assert_eq!((&f).into_aer_iter().sum(), 70u16);
    let g: Vec<u32> = vec![7, 8];
    assert_eq!((&g).into_aer_iter().sum(), 15u32);
    let h: Vec<u64> = vec![u64::MAX - 1, 1];
    assert_eq!((&h).into_aer_iter().sum(), u64::MAX);
    let i: Vec<i16> = vec![300, -301];
    assert_eq!((&i).into_aer_iter().sum(), -1i16);
    let j: Vec<i128> = vec![i128::MIN, 1];
    assert_eq!((&j).into_aer_iter().sum(), i128::MIN + 1);
}

#[test]
fn parallel_split_keeps_all_items() {
    let v = vec![1usize, 2, 3, 4, 5];
    let it = (&v).into_aer_iter();
    assert_eq!(it.len(), 5);
    let (l, r) = it.split_at(2);
    assert_eq!(l.len(), 2);
    assert_eq!(r.len(), 3);
    assert_eq!(l.sum() + r.sum(), 15);
    let _m = (&v).into_aer_iter().map(|x: &usize| *x + 1);
    let back: Vec<usize> = (&v).into_aer_iter().into_iter().copied().collect();
    assert_eq!(back, v);
}

#[test]
fn step_functions() {
    assert!(matches!(schedule_step(ScheduleStage::Local, Some(3)), ScheduleAction::Run(3)));
    assert!(matches!(
        schedule_step::<u8>(ScheduleStage::Local, None),
        ScheduleAction::Next(ScheduleStage::Global)
    ));
    assert!(matches!(
        schedule_step::<u8>(ScheduleStage::Global, None),
        ScheduleAction::Next(ScheduleStage::Others)
    ));
    assert!(matches!(schedule_step::<u8>(ScheduleStage::Others, None), ScheduleAction::Park));
    assert!(matches!(after_global_steal(Stolen::Success(4), 2), GlobalStep::Done(Some(4))));
    assert!(matches!(after_global_steal::<u8>(Stolen::Empty, 0), GlobalStep::Done(None)));
    assert!(matches!(after_global_steal::<u8>(Stolen::Retry, 1), GlobalStep::Again));
    assert!(matches!(after_global_steal::<u8>(Stolen::Retry, 2), GlobalStep::Done(None)));
    assert_eq!(victim_at(7, 0, 5, 2), None);
    assert_eq!(victim_at(7, 1, 5, 2), Some(3));
    assert_eq!(victim_at(0, 4, 6, 1), Some(4));
}

#[test]
fn batch_limits() {
    assert_eq!(global_batch_limit(0, 4), 1);
    assert_eq!(global_batch_limit(10, 4), 3);
    assert_eq!(global_batch_limit(1000, 4), LQ_HALF_SIZE);
    assert_eq!(global_batch_limit(usize::MAX, 1), 128);
    assert_eq!(victim_batch_limit(0), 1);
    assert_eq!(victim_batch_limit(1), 1);
    assert_eq!(victim_batch_limit(9), 4);
}

#[test]
fn steal_round_visits_each_processor_once() {
    let mut seen: Vec<usize> = (0..5).map(|k| steal_order_at(7, k, 5)).collect();
    assert_eq!(seen, vec![2, 3, 4, 0, 1]);
    seen.sort();
    assert_eq!(seen, vec![0, 1, 2, 3, 4]);
    assert_eq!(steal_order_at(usize::MAX, 1, 3), 1);
}

#[test]
fn local_queue_is_first_in_first_out() {
    let q = LocalQueue::new();
    q.push(1u64);
    q.push(2u64);
    assert_eq!(q.pop(), Some(1));
    assert_eq!(q.pop(), Some(2));
    assert_eq!(q.pop(), None);
}

#[test]
fn global_queue_push_len_steal() {
    let g = GlobalQueue::new();
    assert_eq!(g.len(), 0);
    g.push(5u64);
    g.push(6u64);
    assert_eq!(g.len(), 2);
    assert!(matches!(g.steal(), Stolen::Success(5)));
    assert_eq!(g.steal().success(), Some(6));
    assert!(matches!(g.steal(), Stolen::Empty));
}

fn two_processors() -> (Vec<Processor<u64>>, Vec<Parker>, Arc<Shard<u64>>) {
    let mut others = Vec::new();
    let mut locals = Vec::new();
    let mut parkers = Vec::new();
    for _ in 0..2 {
        let parker = Parker::new();
        let queue = Arc::new(LocalQueue::new());
        others.push(Other::new(queue.clone(), parker.unparker().clone()));
        locals.push(Local::new(queue));
        parkers.push(parker);
    }
    let shard = Arc::new(Shard::new(others));
    assert_eq!(shard.len(), 2);
    let ps = locals
        .into_iter()
        .enumerate()
        .map(|(i, l)| Processor::new(i, shard.clone(), l))
        .collect();
    (ps, parkers, shard)
}

#[test]
fn schedule_takes_local_then_global_then_others() {
    let (ps, _parkers, _shard) = two_processors();
    assert_eq!(ps[0].schedule(0), None);
    ps[0].push(1);
    assert_eq!(ps[0].schedule(0), Some(1));
    ps[1].push(2);
    ps[1].push(3);
    assert_eq!(ps[0].schedule(0), Some(2));
    assert_eq!(ps[1].schedule(0), Some(3));
    assert_eq!(ps[1].schedule(5), None);
}

#[test]
fn steal_from_global_moves_a_batch() {
    let (ps, _parkers, shard) = two_processors();
    for t in 0..6u64 {
        shard.queue().push(t);
    }
    assert_eq!(ps[0].steal_from_global(), Some(0));
    let mut rest = Vec::new();
    while let Some(t) = ps[0].schedule(0) {
        rest.push(t);
    }
    assert_eq!(rest, vec![1, 2, 3, 4, 5]);
    assert_eq!(ps[0].steal_from_global(), None);
    shard.queue().push(9);
    assert_eq!(ps[1].steal_job_from_glo(), Some(9));
    assert_eq!(ps[1].steal_job_from_glo(), None);
}

#[test]
fn steal_from_others_takes_the_front() {
    let (ps, _parkers, _shard) = two_processors();
    for t in 10..16u64 {
        ps[1].push(t);
    }
    assert_eq!(ps[0].steal_from_others(0), Some(10));
    let mut rest = Vec::new();
    while let Some(t) = ps[0].schedule(3) {
        rest.push(t);
    }
    while let Some(t) = ps[1].schedule(3) {
        rest.push(t);
    }
    rest.sort();
    assert_eq!(rest, vec![11, 12, 13, 14, 15]);
    assert_eq!(ps[0].steal_from_others(1), None);
}

#[test]
fn parked_processor_is_woken() {
    let (ps, parkers, _shard) = two_processors();
    ps[1].park();
    ps[0].unpark_one();
    // The unpark token was handed to processor 1, so this returns at once.
    parkers[1].park();
    ps[0].park();
    ps[1].park();
    ps[1].unpark_one();
    parkers[1].park();
    parkers[0].park_timeout(std::time::Duration::from_millis(1));
}

#[test]
fn runtime_go_and_join_steps() {
    let parkers: Vec<Parker> = (0..6).map(|_| Parker::new()).collect();
    let unparkers = parkers.iter().map(|p| p.unparker().clone()).collect();
    let (rt, workers): (Runtime<u64>, Vec<Processor<u64>>) = Runtime::new(5, unparkers);
    assert_eq!(rt.thread_num(), 5);
    assert_eq!(workers.len(), 5);
    rt.go(7);
    assert_eq!(workers[0].schedule(0), Some(7));
    rt.join(1, 2);
    assert!(matches!(rt.join_step(true, true), JoinStep::Run(1)));
    assert!(matches!(rt.join_step(false, true), JoinStep::Run(2)));
    assert!(matches!(rt.join_step(true, false), JoinStep::Yield));
    assert!(matches!(rt.join_step(false, false), JoinStep::Finish));
    let mut j1 = StackJob::new(|| 1);
    let mut j2 = StackJob::new(|| "b");
    j2.execute();
    j1.execute();
    assert_eq!(rt.join_results(j1, j2), (1, "b"));
    workers[3].park();
    rt.go(8);
    // The go woke processor 3, so its parker returns at once.
    parkers[3].park();
    assert_eq!(workers[3].schedule(2), Some(8));
}

#[test]
fn reactor_hands_out_ready_wakers_in_order() {
    let mut r: Reactor<&str> = Reactor::new();
    r.register(6, "read 3");
    r.register(7, "write 3");
    r.register(8, "read 4");
    r.register(1, "write 0");
    let events = vec![
        ReadyEvent { key: 3, readable: true, writable: true },
        ReadyEvent { key: 0, readable: true, writable: true },
        ReadyEvent { key: 4, readable: false, writable: true },
    ];
    assert_eq!(r.wait(&events), vec!["read 3", "write 3", "write 0"]);
    // The waker for key 4's read side stays until that side becomes ready.
    assert_eq!(r.wait(&events), Vec::<&str>::new());
    let later = vec![ReadyEvent { key: 4, readable: true, writable: false }];
    assert_eq!(r.wait(&later), vec!["read 4"]);
}

#[test]
fn lone_processor_steals_nothing_from_others() {
    let parker = Parker::new();
    let queue = Arc::new(LocalQueue::new());
    let shard = Arc::new(Shard::new(vec![Other::new(queue.clone(), parker.unparker().clone())]));
    let p: Processor<u64> = Processor::new(0, shard, Local::new(queue));
    p.push(4);
    assert_eq!(p.steal_from_others(0), None);
    assert_eq!(p.schedule(0), Some(4));
}
