//! Whole pools, whose threads take turns on the one thread of the test.

use std::sync::atomic::{AtomicUsize, Ordering};
use std::sync::mpsc::{channel, Receiver, TryRecvError};
use std::sync::Arc;

use workerpool::job::{run_job, Delivery, Job};
use workerpool::sentinel::Sentinel;
use workerpool::shared::{clone_handle, Next, Round};
use workerpool::thunk::{Thunk, ThunkWorker};
use workerpool::{Builder, Pool, PoolSharedData, Worker};

const TEST_TASKS: usize = 4;

/// The threads of a pool. Each is between two jobs or has taken one.
struct Crew<T: Worker> {
    shared: Arc<PoolSharedData<T>>,
    free: Vec<Sentinel<T::Input, T::Output>>,
    busy: Vec<(Sentinel<T::Input, T::Output>, Job<T::Input, T::Output>)>,
    executor: T,
}

impl<T: Worker> Crew<T> {
    fn new(pool: Pool<T>) -> Crew<T> {
        let (shared, spawn) = PoolSharedData::new(pool);
        let mut crew = Crew {
            shared: Arc::new(shared),
            free: Vec::new(),
            busy: Vec::new(),
            executor: T::default(),
        };
        crew.start(spawn);
        crew
    }

    fn start(&mut self, spawn: usize) {
        for _ in 0..spawn {
            self.free.push(Sentinel::new());
        }
    }

    fn set_num_threads(&mut self, num_threads: usize) {
        let (spawn, _) = self.shared.set_num_threads(num_threads);
        self.start(spawn);
    }

    /// Lets threads take jobs until no job or no thread is left.
    fn take(&mut self) {
        while self.queued_count() > 0 && !self.free.is_empty() {
            let mut sentinel = self.free.remove(0);
            if let Next::Run { job, .. } = self.shared.next_job(&mut sentinel) {
                self.busy.push((sentinel, job));
            }
        }
    }

    /// Lets every thread that has a job finish it.
    fn finish(&mut self) {
        for (mut sentinel, job) in self.busy.split_off(0) {
            let delivery = run_job(&mut self.executor, job);
            self.shared.finish_job(&mut sentinel, &delivery);
            self.free.push(sentinel);
        }
    }

    /// Lets every thread that has a job panic in it.
    fn panic(&mut self) {
        for (sentinel, job) in self.busy.split_off(0) {
            drop(job);
            if self.shared.thread_ended(&sentinel, true).0 {
                self.start(1);
            }
        }
    }

    /// Lets the threads go through all jobs.
    fn settle(&mut self) {
        while self.queued_count() > 0 {
            self.take();
            self.finish();
        }
        self.finish();
    }

    fn queued_count(&self) -> usize {
        self.shared.counts().0.queued
    }

    fn active_count(&self) -> usize {
        self.shared.counts().0.active
    }

    fn max_count(&self) -> usize {
        self.shared.counts().0.max
    }

    fn panic_count(&self) -> usize {
        self.shared.counts().0.panics
    }
}

type Thunks = ThunkWorker<()>;

fn sum(rx: &Receiver<usize>) -> usize {
    rx.try_iter().sum::<usize>()
}

#[test]
fn test_set_num_threads_increasing() {
    let new_thread_amount = TEST_TASKS + 8;
    let mut crew = Crew::new(Pool::<Thunks>::new(TEST_TASKS));
    for _ in 0..TEST_TASKS {
        crew.shared.execute(Thunk::of(|| ()));
    }
    crew.take();
    assert_eq!(crew.active_count(), TEST_TASKS);

    crew.set_num_threads(new_thread_amount);

    for _ in 0..(new_thread_amount - TEST_TASKS) {
        crew.shared.execute(Thunk::of(|| ()));
    }
    crew.take();
    assert_eq!(crew.active_count(), new_thread_amount);

    crew.settle();
    crew.shared.join();
}

#[test]
fn test_set_num_threads_decreasing() {
    let new_thread_amount = 2;
    let mut crew = Crew::new(Pool::<Thunks>::new(TEST_TASKS));
    for _ in 0..TEST_TASKS {
        crew.shared.execute(Thunk::of(|| ()));
    }
    crew.settle();
    crew.set_num_threads(new_thread_amount);
    for _ in 0..new_thread_amount {
        crew.shared.execute(Thunk::of(|| ()));
    }
    crew.take();
    assert_eq!(crew.active_count(), new_thread_amount);

    crew.settle();
    crew.shared.join();
}

#[test]
fn test_active_count() {
    let mut crew = Crew::new(Pool::<Thunks>::new(TEST_TASKS));
    for _ in 0..2 * TEST_TASKS {
        crew.shared.execute(Thunk::of(|| ()));
    }
    crew.take();
    let active_count = crew.active_count();
    assert_eq!(active_count, TEST_TASKS);
    let initialized_count = crew.max_count();
    assert_eq!(initialized_count, TEST_TASKS);
}

#[test]
fn test_works() {
    let mut crew = Crew::new(Pool::<Thunks>::new(TEST_TASKS));

    let (tx, rx) = channel();
    for _ in 0..TEST_TASKS {
        let tx = tx.clone();
        crew.shared.execute(Thunk::of(move || {
            tx.send(1).unwrap();
        }));
    }
    crew.settle();

    assert_eq!(rx.iter().take(TEST_TASKS).sum::<usize>(), TEST_TASKS);
}

#[test]
fn test_recovery_from_subtask_panic() {
    let mut crew = Crew::new(Pool::<Thunks>::new(TEST_TASKS));

    // Panic all the existing threads.
    for _ in 0..TEST_TASKS {
        crew.shared.execute(Thunk::of(|| panic!("intentional panic")));
    }
    crew.take();
    crew.panic();
    crew.shared.join();

    assert_eq!(crew.panic_count(), TEST_TASKS);

    // Ensure new threads were spawned to compensate.
    let (tx, rx) = channel();
    for _ in 0..TEST_TASKS {
        let tx = tx.clone();
        crew.shared.execute(Thunk::of(move || {
            tx.send(1).unwrap();
        }));
    }
    crew.take();
    assert_eq!(crew.active_count(), TEST_TASKS);
    crew.settle();

    assert_eq!(rx.iter().take(TEST_TASKS).sum::<usize>(), TEST_TASKS);
}

#[test]
fn test_should_not_panic_on_drop_if_subtasks_panic_after_drop() {
    let mut crew = Crew::new(Pool::<Thunks>::new(TEST_TASKS));

    // Panic all the existing threads in a bit.
    for _ in 0..TEST_TASKS {
        crew.shared.execute(Thunk::of(move || {
            panic!("intentional panic");
        }));
    }
    crew.take();

    crew.shared.remove_handle();

    // Kick off the failure.
    crew.panic();

    // The threads that replace those that panicked end.
    assert_eq!(crew.free.len(), TEST_TASKS);
    for mut sentinel in crew.free.split_off(0) {
        assert!(matches!(crew.shared.next_job(&mut sentinel), Next::NoMore { .. }));
        assert!(!sentinel.is_active());
    }
}

#[test]
fn test_massive_task_creation() {
    let test_tasks = 4_200_000;

    let mut crew = Crew::new(Pool::<Thunks>::new(TEST_TASKS));

    let (tx, rx) = channel();

    for i in 0..test_tasks {
        let tx = tx.clone();

        crew.shared.execute(Thunk::of(move || {
            assert!(tx.send(1).is_ok());
        }));
        if i + 1 == TEST_TASKS {
            // The pool has been filled once.
            crew.take();
        }
    }

    assert_eq!(crew.active_count(), TEST_TASKS);
    assert_eq!(crew.queued_count(), test_tasks - TEST_TASKS);
    crew.settle();

    assert_eq!(rx.iter().take(test_tasks).sum::<usize>(), test_tasks);
    crew.shared.join();

    let atomic_active_count = crew.active_count();
    assert!(
        atomic_active_count == 0,
        "atomic_active_count: {}",
        atomic_active_count
    );
}

#[test]
fn test_shrink() {
    let test_tasks_begin = TEST_TASKS + 2;

    let mut crew = Crew::new(Pool::<Thunks>::new(test_tasks_begin));

    for _ in 0..test_tasks_begin {
        crew.shared.execute(Thunk::of(|| ()));
    }
    for _ in 0..TEST_TASKS {
        crew.shared.execute(Thunk::of(|| ()));
    }

    crew.take();
    crew.set_num_threads(TEST_TASKS);

    assert_eq!(crew.active_count(), test_tasks_begin);
    crew.finish();

    crew.take();
    assert_eq!(crew.active_count(), TEST_TASKS);
    crew.finish();
}

#[test]
fn test_name() {
    let name = "test";
    let mut crew = Crew::new(Pool::<Thunks>::with_name(name.to_owned(), 2));

    // initial thread should share the name "test"
    assert_eq!(crew.shared.settings().name, Some(name.to_owned()));

    // new spawn thread should share the name "test" too.
    crew.set_num_threads(3);
    assert_eq!(crew.free.len(), 3);
    assert_eq!(crew.shared.settings().name, Some(name.to_owned()));

    // recover thread should share the name "test" too.
    crew.shared.execute(Thunk::of(|| panic!()));
    crew.take();
    crew.panic();
    assert_eq!(crew.free.len(), 3);
    assert_eq!(crew.shared.settings().name, Some(name.to_owned()));
}

#[test]
fn test_debug() {
    let pool = Pool::<Thunks>::new(4);
    assert_eq!(
        pool.debug_text(),
        "Pool { name: None, queued_count: 0, active_count: 0, max_count: 4 }"
    );

    let pool = Pool::<Thunks>::with_name("hello".into(), 4);
    assert_eq!(
        pool.debug_text(),
        "Pool { name: Some(\"hello\"), queued_count: 0, active_count: 0, max_count: 4 }"
    );

    let mut crew = Crew::new(Pool::<Thunks>::new(4));
    crew.shared.execute(Thunk::of(|| ()));
    crew.take();
    assert_eq!(
        crew.shared.debug_text().0,
        "Pool { name: None, queued_count: 0, active_count: 1, max_count: 4 }"
    );
}

#[test]
fn test_repeated_join() {
    let mut crew = Crew::new(Pool::<Thunks>::with_name("repeated join test".into(), 8));
    let test_count = Arc::new(AtomicUsize::new(0));

    for _ in 0..42 {
        let test_count = test_count.clone();
        crew.shared.execute(Thunk::of(move || {
            test_count.fetch_add(1, Ordering::Release);
        }));
    }

    crew.settle();
    crew.shared.join();
    assert_eq!(42, test_count.load(Ordering::Acquire));

    for _ in 0..42 {
        let test_count = test_count.clone();
        crew.shared.execute(Thunk::of(move || {
            test_count.fetch_add(1, Ordering::Relaxed);
        }));
    }
    crew.settle();
    crew.shared.join();
    assert_eq!(84, test_count.load(Ordering::Relaxed));
}

#[test]
fn test_multi_join() {
    let mut crew0 = Crew::new(Pool::<Thunks>::with_name("multi join pool0".into(), 4));
    let mut crew1 = Crew::new(Pool::<Thunks>::with_name("multi join pool1".into(), 4));
    let (tx, rx) = channel();

    for i in 0..8 {
        let pool1 = crew1.shared.clone();
        let pool0_ = crew0.shared.clone();
        let tx = tx.clone();
        crew0.shared.execute(Thunk::of(move || {
            pool1.execute(Thunk::of(move || {
                pool0_.join();
                tx.send(i).expect("send i from pool1 -> main");
            }));
        }));
    }
    drop(tx);

    assert_eq!(rx.try_recv(), Err(TryRecvError::Empty));
    crew0.settle();
    crew0.shared.join();
    assert_eq!(crew1.queued_count(), 8);
    crew1.settle();
    crew1.shared.join();
    assert_eq!(rx.iter().sum::<i32>(), 1 + 2 + 3 + 4 + 5 + 6 + 7);
}

#[test]
fn test_empty_pool() {
    // Joining an empty pool must return imminently
    let pool = Pool::<Thunks>::new(4);
    assert_eq!(pool.join(None), None);

    let (shared, _) = PoolSharedData::new(pool);
    shared.join();
}

#[test]
fn test_clone() {
    let mut crew = Crew::new(Pool::<Thunks>::with_name("clone example".into(), 2));

    // This batch of jobs will occupy the pool for some time
    for _ in 0..6 {
        crew.shared.execute(Thunk::of(|| ()));
    }

    let (clone0, _) = clone_handle(&crew.shared);
    let (clone1, _) = clone_handle(&crew.shared);
    let (clone0, clone1) = (clone0.unwrap(), clone1.unwrap());

    // wait for the first batch of tasks to finish
    crew.settle();
    clone0.join();
    clone1.join();

    let (tx0, rx0) = channel();
    for i in 0..42 {
        let tx = tx0.clone();
        clone0.execute(Thunk::of(move || {
            tx.send(i).expect("channel will be waiting");
        }));
    }
    drop(tx0);
    let (tx1, rx1) = channel();
    for i in 1..12 {
        let tx = tx1.clone();
        clone1.execute(Thunk::of(move || {
            tx.send(i).expect("channel will be waiting");
        }));
    }
    drop(tx1);
    clone0.remove_handle();
    clone1.remove_handle();
    crew.settle();

    assert_eq!(861, rx0.iter().sum::<i32>());
    assert_eq!(39916800, rx1.iter().product::<i32>());
}

#[test]
fn test_sync_shared_data() {
    fn assert_sync<T: Sync>() {}
    assert_sync::<PoolSharedData<ThunkWorker<()>>>();
}

#[test]
fn test_send_shared_data() {
    fn assert_send<T: Send>() {}
    assert_send::<PoolSharedData<ThunkWorker<()>>>();
}

#[test]
fn test_send() {
    fn assert_send<T: Send>() {}
    assert_send::<Pool<ThunkWorker<()>>>();
}

#[test]
fn test_cloned_eq() {
    let a = Crew::new(Pool::<Thunks>::new(2)).shared;

    assert!(a.same_pool(&clone_handle(&a).0.unwrap()));
}

#[test]
fn squares_of_many_jobs() {
    let n_workers = 4;
    let n_jobs = 8;
    let mut crew = Crew::new(Pool::<ThunkWorker<i32>>::new(n_workers));

    let (tx, rx) = channel();
    for i in 0..n_jobs {
        crew.shared.execute_to(tx.clone().into(), Thunk::of(move || i * i));
    }
    crew.settle();

    assert_eq!(140, rx.iter().take(n_jobs as usize).sum::<i32>());
}

#[test]
fn outputs_to_a_crossbeam_channel() {
    let mut crew = Crew::new(Pool::<ThunkWorker<i32>>::new(2));
    let (tx, rx) = crossbeam_channel::unbounded();
    crew.shared.execute_to(tx.clone().into(), Thunk::of(|| 1));
    crew.shared.execute_to(tx.clone().into(), Thunk::of(|| 2));
    crew.shared.execute_to(tx.clone().into(), Thunk::of(|| 3));
    crew.shared.execute_to(tx.clone().into(), Thunk::of(|| 4));
    crew.settle();
    assert_eq!(10, rx.iter().take(4).sum::<i32>());
}

#[test]
fn counts_while_threads_are_occupied() {
    let mut crew = Crew::new(Pool::<Thunks>::new(4));
    for _ in 0..10 {
        crew.shared.execute(Thunk::of(|| ()));
    }
    crew.take();
    assert_eq!(4, crew.active_count());
    assert_eq!(6, crew.queued_count());

    // Increase thread capacity of the pool
    crew.set_num_threads(8);
    crew.take();
    assert_eq!(8, crew.active_count());
    assert_eq!(2, crew.queued_count());

    // Decrease thread capacity of the pool
    // No active threads are killed
    crew.set_num_threads(4);
    assert_eq!(4, crew.max_count());
    assert_eq!(8, crew.active_count());
    assert_eq!(2, crew.queued_count());
}

#[test]
fn half_of_the_jobs_panic() {
    let mut crew = Crew::new(Pool::<Thunks>::new(4));
    for n in 0..10 {
        crew.shared.execute(Thunk::of(|| ()));
        crew.take();
        if n % 2 == 0 {
            crew.panic();
        } else {
            crew.finish();
        }
    }
    crew.shared.join();
    assert_eq!(5, crew.panic_count());
    assert_eq!(0, crew.active_count());
    assert_eq!(4, crew.free.len());
}

#[test]
fn a_panic_outside_of_a_job_leaves_the_active_count_alone() {
    let mut crew = Crew::new(Pool::<Thunks>::new(2));
    let sentinel = crew.free.remove(0);
    assert!(crew.shared.thread_ended(&sentinel, true).0);
    assert_eq!(crew.active_count(), 0);
    assert_eq!(crew.panic_count(), 1);
    crew.shared.join();
}

#[test]
fn a_thread_that_ends_in_order_is_not_replaced() {
    let mut crew = Crew::new(Pool::<Thunks>::new(2));
    let mut sentinel = crew.free.remove(0);
    sentinel.cancel();
    let (respawn, report) = crew.shared.thread_ended(&sentinel, false);
    assert!(!respawn);
    assert!(report.wakeup.is_none());
    assert_eq!(crew.panic_count(), 0);
    assert_eq!(crew.active_count(), 0);
}

#[test]
fn a_receiver_that_is_gone_stops_no_thread() {
    let mut crew = Crew::new(Pool::<ThunkWorker<i32>>::new(1));
    let (tx, rx) = channel();
    drop(rx);
    crew.shared.execute_to(tx.into(), Thunk::of(|| 1));
    let (tx, rx) = channel();
    crew.shared.execute_to(tx.into(), Thunk::of(|| 2));
    crew.settle();
    assert_eq!(crew.active_count(), 0);
    crew.shared.join();
    assert_eq!(rx.recv(), Ok(2));
}

#[test]
fn jobs_are_executed_in_order_and_once() {
    let mut crew = Crew::new(Pool::<Thunks>::new(3));
    let (tx, rx) = channel();
    for i in 0..20 {
        let tx = tx.clone();
        crew.shared.execute(Thunk::of(move || tx.send(i).unwrap()));
    }
    crew.settle();
    assert_eq!(rx.try_iter().collect::<Vec<usize>>(), (0..20).collect::<Vec<usize>>());
    assert_eq!(sum(&rx), 0);
}

#[test]
fn jobs_are_executed_after_the_last_handle_is_gone() {
    let mut crew = Crew::new(Pool::<Thunks>::new(1));
    let (tx, rx) = channel();
    for _ in 0..5 {
        let tx = tx.clone();
        crew.shared.execute(Thunk::of(move || tx.send(1).unwrap()));
    }
    crew.shared.remove_handle();
    let mut sentinel = crew.free.remove(0);
    while crew.shared.work(&mut sentinel, &mut crew.executor).again() {}
    assert!(!sentinel.is_active());
    assert!(sentinel.number().is_none());
    assert_eq!(sum(&rx), 5);
    assert_eq!(crew.queued_count(), 0);
}

#[test]
fn a_thread_ends_when_enough_others_are_active() {
    let mut crew = Crew::new(Pool::<Thunks>::new(4));
    for _ in 0..6 {
        crew.shared.execute(Thunk::of(|| ()));
    }
    crew.take();
    crew.set_num_threads(2);
    let (mut sentinel, job) = crew.busy.remove(0);
    let delivery = run_job(&mut crew.executor, job);
    crew.shared.finish_job(&mut sentinel, &delivery);
    assert_eq!(crew.active_count(), 3);
    assert!(matches!(crew.shared.next_job(&mut sentinel), Next::TooMany { .. }));
    assert!(!sentinel.is_active());
    assert_eq!(crew.queued_count(), 2);
}

#[test]
fn the_stack_size_reaches_the_threads() {
    let pool: Pool<Thunks> = Builder::new().num_threads(8).thread_stack_size(4_000_000).build();
    let (shared, spawn) = PoolSharedData::new(pool);
    assert_eq!(spawn, 8);
    assert_eq!(shared.settings().stack_size, Some(4_000_000));
    assert_eq!(shared.settings().name, None);
}

/// A worker that adds up what it is given.
#[derive(Default)]
struct Adder {
    total: u64,
}

impl Worker for Adder {
    type Input = u64;
    type Output = u64;

    fn execute(&mut self, inp: u64) -> u64 {
        self.total += inp;
        self.total
    }
}

#[test]
fn a_worker_keeps_its_state() {
    let mut crew = Crew::new(Pool::<Adder>::new(1));
    let (tx, rx) = channel();
    for i in 1..5 {
        crew.shared.execute_to(tx.clone().into(), i);
    }
    crew.settle();
    assert_eq!(rx.try_iter().collect::<Vec<u64>>(), vec![1, 3, 6, 10]);
}

#[test]
fn shrinking_and_growing_back_does_not_raise_what_runs_at_once() {
    let mut crew = Crew::new(Pool::<Thunks>::new(2));
    crew.set_num_threads(1);
    crew.set_num_threads(2);
    assert_eq!(crew.free.len(), 3);
    for _ in 0..3 {
        crew.shared.execute(Thunk::of(|| ()));
    }
    crew.take();
    assert_eq!(crew.active_count(), 2);
    assert_eq!(crew.max_count(), 2);
    assert_eq!(crew.queued_count(), 1);
    assert_eq!(crew.free.len(), 0);

    // The third job is executed by one of the two.
    crew.settle();
    assert_eq!(crew.queued_count(), 0);
    crew.shared.join();
}

#[test]
fn a_thread_that_finds_the_pool_full_leaves_the_job() {
    let mut crew = Crew::new(Pool::<ThunkWorker<i32>>::new(4));
    let (tx, rx) = channel();
    for _ in 0..4 {
        crew.shared.execute(Thunk::of(|| 0));
    }
    crew.take();
    crew.shared.execute_to(tx.into(), Thunk::of(|| 7));
    let mut sentinel = Sentinel::new();
    assert!(!crew.shared.work(&mut sentinel, &mut crew.executor).again());
    assert!(!crew.shared.thread_ended(&sentinel, false).0);
    assert_eq!(crew.queued_count(), 1);
    assert_eq!(crew.active_count(), 4);
    assert_eq!(crew.panic_count(), 0);
    assert_eq!(rx.try_recv(), Err(TryRecvError::Empty));
}

#[test]
fn joins_are_woken_when_the_work_runs_out() {
    let mut crew = Crew::new(Pool::<Thunks>::new(2));
    for _ in 0..2 {
        crew.shared.execute(Thunk::of(|| ()));
    }
    crew.take();
    let (mut sentinel, job) = crew.busy.remove(0);
    let delivery = run_job(&mut crew.executor, job);
    assert!(crew.shared.finish_job(&mut sentinel, &delivery).wakeup.is_none());
    let (sentinel, _) = crew.busy.remove(0);
    assert!(crew.shared.thread_ended(&sentinel, true).1.wakeup.is_some());
}

#[test]
fn threads_are_woken_when_the_last_handle_goes() {
    let crew = Crew::new(Pool::<Thunks>::new(1));
    assert!(crew.shared.add_handle().0);
    assert!(crew.shared.remove_handle().wakeup.is_none());
    assert!(crew.shared.remove_handle().wakeup.is_some());
    assert!(crew.shared.execute(Thunk::of(|| ())).wakeup.is_some());
}

#[test]
fn a_handle_more_changes_no_count() {
    let mut crew = Crew::new(Pool::<Thunks>::new(3));
    for _ in 0..5 {
        crew.shared.execute(Thunk::of(|| ()));
    }
    crew.take();
    assert!(crew.shared.add_handle().0);
    crew.shared.remove_handle();
    assert_eq!((crew.queued_count(), crew.active_count()), (2, 3));
    assert_eq!((crew.max_count(), crew.panic_count()), (3, 0));
}

#[test]
fn pools_of_one_builder_share_nothing() {
    let builder = Builder::new().num_threads(4).thread_name("join wavesurfer".into());
    let mut p = Crew::new(builder.clone().build::<Thunks>());
    let q = Crew::new(builder.build::<Thunks>());
    assert!(!p.shared.same_pool(&q.shared));
    assert_eq!(p.max_count(), q.max_count());
    p.shared.execute(Thunk::of(|| ()));
    p.take();
    p.set_num_threads(7);
    assert_eq!((q.queued_count(), q.active_count(), q.max_count()), (0, 0, 4));
    q.shared.join();
    p.panic();
    assert_eq!(q.panic_count(), 0);
}

#[test]
fn one_thread_delivers_in_order() {
    let mut crew = Crew::new(Pool::<ThunkWorker<i32>>::new(1));
    let (tx, rx) = channel();
    for i in 1..8 {
        crew.shared.execute_to(tx.clone().into(), Thunk::of(move || 10 * i));
    }
    drop(tx);
    crew.settle();
    assert_eq!(rx.iter().collect::<Vec<i32>>(), vec![10, 20, 30, 40, 50, 60, 70]);
}

#[test]
fn a_round_sends_its_output_once() {
    let crew = Crew::new(Pool::<ThunkWorker<i32>>::new(1));
    let (tx, rx) = channel();
    crew.shared.execute_to(tx.into(), Thunk::of(|| 5));
    crew.shared.execute(Thunk::of(|| 6));
    let mut sentinel = Sentinel::new();
    let mut worker = ThunkWorker::default();
    let round = crew.shared.work(&mut sentinel, &mut worker);
    assert!(matches!(round, Round::Done { number: 0, delivery: Delivery::Sent(_), .. }));
    assert_eq!(rx.try_recv(), Ok(5));
    let round = crew.shared.work(&mut sentinel, &mut worker);
    assert!(matches!(round, Round::Done { number: 1, delivery: Delivery::Discarded, .. }));
    assert_eq!(rx.try_recv(), Err(TryRecvError::Disconnected));
    assert_eq!((crew.queued_count(), crew.active_count(), crew.panic_count()), (0, 0, 0));
}

#[test]
fn a_clone_sees_what_the_other_does() {
    let mut p = Crew::new(Pool::<Thunks>::new(2));
    let q = clone_handle(&p.shared).0.unwrap();
    q.execute(Thunk::of(|| ()));
    assert_eq!(p.queued_count(), 1);
    p.set_num_threads(5);
    assert_eq!(q.counts().0.max, 5);
    p.shared.remove_handle();
    p.settle();
    q.join();
    assert_eq!(q.counts().0.queued, 0);
}

#[test]
fn jobs_that_panic_after_the_last_handle_is_gone() {
    let mut crew = Crew::new(Pool::<Thunks>::new(2));
    for _ in 0..5 {
        crew.shared.execute(Thunk::of(|| ()));
    }
    crew.shared.remove_handle();
    while crew.queued_count() > 0 {
        crew.take();
        crew.panic();
    }
    assert_eq!((crew.active_count(), crew.panic_count()), (0, 5));
    while let Some(mut sentinel) = crew.free.pop() {
        assert!(matches!(crew.shared.next_job(&mut sentinel), Next::NoMore { .. }));
        assert!(!crew.shared.thread_ended(&sentinel, false).0);
    }
}

#[test]
fn a_join_after_a_job_and_counts_after_it() {
    let mut crew = Crew::new(Pool::<Thunks>::new(2));
    let report = crew.shared.execute(Thunk::of(|| ()));
    assert_eq!(crew.shared.counts_after(&report.change).0.queued, 1);
    crew.settle();
    crew.shared.join_after(&report.change);
    let (counts, _) = crew.shared.counts_after(&report.change);
    assert_eq!((counts.queued, counts.active, counts.max, counts.panics), (0, 0, 2, 0));
}
