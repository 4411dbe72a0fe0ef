//! Single steps of a pool, and its parts.

use std::sync::mpsc::channel;

use workerpool::job::{deliver, run_job, Delivery, Job};
use workerpool::send::OutputSender;
use workerpool::text::{format_pool, push_decimal, push_optional, push_some};
use workerpool::thunk::{Thunk, ThunkWorker};
use workerpool::{Builder, Pool, Worker};

type Thunks = ThunkWorker<()>;

fn decimal(n: usize) -> String {
    let mut text = String::new();
    push_decimal(&mut text, n);
    text
}

#[test]
fn a_new_pool_has_nothing_to_do() {
    let pool = Pool::<Thunks>::new(3);
    assert_eq!(pool.queued_count(), 0);
    assert_eq!(pool.active_count(), 0);
    assert_eq!(pool.max_count(), 3);
    assert_eq!(pool.panic_count(), 0);
    assert!(!pool.has_work());
    assert!(pool.admits());
    assert!(pool.starved());
}

#[test]
fn max_count_follows_set_num_threads() {
    let mut pool = Pool::<Thunks>::new(4);
    assert_eq!(4, pool.max_count());

    assert_eq!(pool.set_num_threads(8), 4);
    assert_eq!(8, pool.max_count());

    assert_eq!(pool.set_num_threads(8), 0);
    assert_eq!(pool.set_num_threads(3), 0);
    assert_eq!(3, pool.max_count());
    assert_eq!(pool.set_num_threads(5), 2);
}

#[test]
fn a_default_pool_has_a_thread_for_each_cpu() {
    let pool = Pool::<Thunks>::default();
    assert_eq!(pool.max_count(), num_cpus::get());
    assert!(pool.max_count() >= 1);
    let pool: Pool<Thunks> = Builder::new().build();
    assert_eq!(pool.max_count(), num_cpus::get());
}

#[test]
fn a_job_is_queued_then_active_then_done() {
    let mut pool = Pool::<Thunks>::new(2);
    pool.execute(Thunk::of(|| ()));
    assert_eq!((pool.queued_count(), pool.active_count()), (1, 0));
    assert!(!pool.starved());
    assert!(pool.start_job().0.is_some());
    assert_eq!((pool.queued_count(), pool.active_count()), (0, 1));
    assert!(pool.has_work());
    assert!(pool.finish_job(0, &Delivery::Discarded).0);
    assert_eq!((pool.queued_count(), pool.active_count()), (0, 0));
    assert!(pool.start_job().0.is_none());
    assert_eq!(pool.active_count(), 0);
}

#[test]
fn only_the_last_job_to_finish_leaves_the_pool_idle() {
    let mut pool = Pool::<Thunks>::new(2);
    for _ in 0..3 {
        pool.execute(Thunk::of(|| ()));
    }
    assert!(pool.start_job().0.is_some());
    assert!(pool.start_job().0.is_some());
    assert!(!pool.finish_job(1, &Delivery::Discarded).0);
    assert!(matches!(pool.start_job().0, Some((2, _))));
    assert!(!pool.lose_worker(Some(2), true).0);
    assert!(pool.finish_job(0, &Delivery::Discarded).0);
    assert_eq!(pool.panic_count(), 1);
}

#[test]
fn a_job_is_finished_once() {
    let mut pool = Pool::<Thunks>::new(2);
    for _ in 0..2 {
        pool.execute(Thunk::of(|| ()));
        assert!(pool.start_job().0.is_some());
    }
    assert!(!pool.finish_job(1, &Delivery::Discarded).0);
    assert!(!pool.finish_job(1, &Delivery::Discarded).0);
    assert!(!pool.finish_job(7, &Delivery::Discarded).0);
    assert!(!pool.lose_worker(Some(1), false).0);
    assert_eq!(pool.active_count(), 1);
    assert!(pool.finish_job(0, &Delivery::Discarded).0);
    assert_eq!(pool.active_count(), 0);
}

#[test]
fn losing_a_thread() {
    let mut pool = Pool::<Thunks>::new(2);
    pool.execute(Thunk::of(|| ()));
    assert!(pool.start_job().0.is_some());
    assert!(!pool.lose_worker(None, true).0);
    assert_eq!((pool.active_count(), pool.panic_count()), (1, 1));
    assert!(pool.lose_worker(Some(0), false).0);
    assert_eq!((pool.active_count(), pool.panic_count()), (0, 1));
}

#[test]
fn the_pool_admits_threads_up_to_its_size() {
    let mut pool = Pool::<Thunks>::new(2);
    for _ in 0..3 {
        pool.execute(Thunk::of(|| ()));
    }
    assert!(pool.start_job().0.is_some());
    assert!(pool.admits());
    assert!(pool.start_job().0.is_some());
    assert!(!pool.admits());
    assert!(pool.start_job().0.is_none());
    assert_eq!((pool.queued_count(), pool.active_count()), (1, 2));
    pool.set_num_threads(3);
    assert!(pool.admits());
    assert!(pool.start_job().0.is_some());
}

#[test]
fn joins_of_one_wave_end_together() {
    let mut pool = Pool::<Thunks>::new(1);
    pool.execute(Thunk::of(|| ()));
    let first = pool.join(None);
    let second = pool.join(None);
    assert!(first.is_some());
    assert_eq!(first, second);
    assert_eq!(pool.join(first), first);

    assert!(pool.start_job().0.is_some());
    assert_eq!(pool.join(first), first);
    assert!(pool.finish_job(0, &Delivery::Discarded).0);

    // There is new work before any of the wave gets its turn.
    pool.execute(Thunk::of(|| ()));
    assert_eq!(pool.join(first), None);
    assert_eq!(pool.join(second), None);

    // A later join belongs to the next wave, which a thread that is lost with the last of the
    // work ends as well.
    let third = pool.join(None);
    assert!(third.is_some());
    assert_ne!(third, first);
    assert_eq!(pool.join(third), third);
    assert!(pool.start_job().0.is_some());
    assert!(pool.lose_worker(Some(1), true).0);
    pool.execute(Thunk::of(|| ()));
    assert_eq!(pool.join(third), None);
}

#[test]
fn handles_keep_threads_waiting() {
    let mut pool = Pool::<Thunks>::new(1);
    assert!(pool.add_handle().0);
    assert!(!pool.remove_handle().0);
    assert!(pool.starved());
    assert!(pool.remove_handle().0);
    assert!(!pool.starved());
    assert!(pool.remove_handle().0);
}

#[test]
fn a_builder_keeps_what_it_is_told() {
    let builder = Builder::new().thread_name("foo".to_string()).thread_stack_size(4_000_000);
    let pool: Pool<Thunks> = builder.clone().num_threads(8).num_threads(3).build();
    assert_eq!(pool.max_count(), 3);
    assert_eq!(pool.settings().name, Some("foo".to_string()));
    assert_eq!(pool.settings().stack_size, Some(4_000_000));

    let pool: Pool<Thunks> = builder.build_with(5);
    assert_eq!(pool.max_count(), 5);
    assert_eq!(pool.settings().name, Some("foo".to_string()));

    let pool: Pool<Thunks> = Builder::default().build_with(1);
    assert_eq!(pool.settings().name, None);
    assert_eq!(pool.settings().stack_size, None);
}

#[test]
fn thunks_give_what_their_function_gives() {
    fn my_function() -> Option<String> {
        None
    }
    let thunk: Thunk<u8> = Thunk::of(|| 127u8);
    assert_eq!(thunk.run(), 127);
    let thunk: Thunk<Option<String>> = Thunk::of(my_function);
    assert_eq!(ThunkWorker::default().execute(thunk), None);
}

/// The output that came back, if it did.
fn refused<O>(delivery: Delivery<O>) -> Option<O> {
    match delivery {
        Delivery::Refused(refusal) => Some(refusal.take_back()),
        _ => None,
    }
}

#[test]
fn what_becomes_of_an_output() {
    assert!(matches!(deliver(None, 5), Delivery::Discarded));

    let (tx, rx) = channel();
    assert!(matches!(deliver(Some(tx.clone().into()), 5), Delivery::Sent(_)));
    assert_eq!(rx.recv(), Ok(5));
    drop(rx);
    assert_eq!(refused(deliver(Some(OutputSender::Std(tx)), 6)), Some(6));

    let (tx, rx) = crossbeam_channel::unbounded();
    assert!(matches!(deliver(Some(tx.clone().into()), 7), Delivery::Sent(_)));
    assert_eq!(rx.recv(), Ok(7));
    drop(rx);
    assert_eq!(refused(deliver(Some(OutputSender::Crossbeam(tx)), 8)), Some(8));
}

#[test]
fn a_job_runs_on_its_worker() {
    let (tx, rx) = channel();
    let mut worker = ThunkWorker::<i32>::default();
    let job = Job { inp: Thunk::of(|| 3 * 4), sender: Some(tx.into()) };
    assert!(matches!(run_job(&mut worker, job), Delivery::Sent(_)));
    assert_eq!(rx.recv(), Ok(12));
    let job = Job { inp: Thunk::of(|| 5), sender: None };
    assert!(matches!(run_job(&mut worker, job), Delivery::Discarded));
}

#[test]
fn decimals() {
    assert_eq!(decimal(0), "0");
    assert_eq!(decimal(9), "9");
    assert_eq!(decimal(10), "10");
    assert_eq!(decimal(1_234_567_890), "1234567890");
    assert_eq!(decimal(usize::MAX), format!("{}", usize::MAX));
}

#[test]
fn texts_of_names() {
    let mut text = String::new();
    push_optional(&mut text, &None);
    push_some(&mut text, "x");
    push_optional(&mut text, &Some("a\"b\n".to_string()));
    assert_eq!(text, "NoneSome(x)Some(\"a\\\"b\\n\")");
    assert_eq!(
        format_pool("None", 12, 3, 4),
        "Pool { name: None, queued_count: 12, active_count: 3, max_count: 4 }"
    );
}

#[test]
fn a_pool_is_the_same_as_itself_only() {
    let builder = Builder::new().num_threads(2);
    let p: Pool<Thunks> = builder.clone().build();
    let q: Pool<Thunks> = builder.build();
    assert!(p == p);
    assert!(p != q);
}
