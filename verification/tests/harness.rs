use bench_harness::bench::{
    Bench, CounterError, Report, Shutdown, StartError, Summary, EXIT_STATUS, REPORT_INTERVAL_MS,
};
use bench_harness::gate::Arrival;

/// Brings every worker and then the controller to the start gate and starts the
/// benchmark at `now_ms`.
fn start_all(bench: &mut Bench, now_ms: u64) {
    let workers = bench.concurrency();
    for _ in 0..workers {
        assert_eq!(bench.init_ok(), Arrival::Waiting);
    }
    assert_eq!(bench.init_ok(), Arrival::Released);
    assert_eq!(bench.mark_started(now_ms), Ok(()));
}

#[test]
fn test_bench() {
    let mut bench = Bench::new(100);
    assert_eq!(bench.concurrency(), 100);
    let mut counter: u64 = 0;
    start_all(&mut bench, 0);
    for round in 1..=3u64 {
        for i in 0..100 {
            counter += 1;
            bench.inc_op(i, 1);
        }
        let report = bench.report(round * REPORT_INTERVAL_MS).unwrap();
        assert_eq!(report.delta, 100);
        assert_eq!(report.total, counter as u128);
    }
    assert_eq!(bench.total(), 300);
    for i in 0..100 {
        assert_eq!(bench.count(i), 3);
    }
}

#[test]
fn construct_and_drop_for_every_small_concurrency() {
    for concurrency in 1..=256usize {
        let bench = Bench::new(concurrency);
        assert_eq!(bench.concurrency(), concurrency);
        assert_eq!(bench.total(), 0);
        assert!(!bench.started());
        assert!(!bench.released());
        for i in 0..concurrency {
            assert_eq!(bench.count(i), 0);
        }
    }
}

#[test]
fn new_bench_is_idle() {
    let mut bench = Bench::new(3);
    assert_eq!(bench.report(10), None);
    assert_eq!(bench.on_interrupt(10), Shutdown::NotStarted);
    assert_eq!(bench.mark_started(10), Err(StartError::GateClosed));
    assert!(!bench.started());
}

#[test]
fn increments_land_in_their_own_slot() {
    let mut bench = Bench::new(4);
    bench.inc_op(2, 5);
    bench.inc_op(0, 1);
    bench.inc_op(2, 7);
    assert_eq!(bench.count(0), 1);
    assert_eq!(bench.count(1), 0);
    assert_eq!(bench.count(2), 12);
    assert_eq!(bench.count(3), 0);
    assert_eq!(bench.total(), 13);
}

#[test]
fn increment_by_zero_changes_nothing() {
    let mut bench = Bench::new(2);
    bench.inc_op(1, 9);
    bench.inc_op(1, 0);
    bench.inc_op(0, 0);
    assert_eq!(bench.count(0), 0);
    assert_eq!(bench.count(1), 9);
    assert_eq!(bench.total(), 9);
}

#[test]
fn no_update_is_lost_in_any_interleaving() {
    let amounts: [(usize, u64); 6] = [(0, 3), (1, 10), (2, 1), (0, 40), (2, 200), (1, 5000)];
    let expected: u128 = 3 + 10 + 1 + 40 + 200 + 5000;

    let mut forward = Bench::new(3);
    for (slot, amount) in amounts.iter() {
        forward.inc_op(*slot, *amount);
    }
    let mut backward = Bench::new(3);
    for (slot, amount) in amounts.iter().rev() {
        backward.inc_op(*slot, *amount);
    }
    let mut shuffled = Bench::new(3);
    for k in [4usize, 0, 5, 2, 1, 3] {
        shuffled.inc_op(amounts[k].0, amounts[k].1);
    }

    assert_eq!(forward.total(), expected);
    assert_eq!(backward.total(), expected);
    assert_eq!(shuffled.total(), expected);
    for slot in 0..3 {
        assert_eq!(forward.count(slot), backward.count(slot));
        assert_eq!(forward.count(slot), shuffled.count(slot));
    }
    assert_eq!(forward.count(0), 43);
    assert_eq!(forward.count(1), 5010);
    assert_eq!(forward.count(2), 201);
}

#[test]
fn try_inc_op_counts_what_fits() {
    let mut bench = Bench::new(2);
    assert_eq!(bench.try_inc_op(1, 8), Ok(()));
    assert_eq!(bench.try_inc_op(1, u64::MAX - 8), Ok(()));
    assert_eq!(bench.count(1), u64::MAX);
    assert_eq!(bench.count(0), 0);
}

#[test]
fn try_inc_op_rejects_a_slot_out_of_range() {
    let mut bench = Bench::new(2);
    bench.inc_op(0, 4);
    assert_eq!(bench.try_inc_op(2, 1), Err(CounterError::NoSuchSlot));
    assert_eq!(bench.try_inc_op(usize::MAX, 0), Err(CounterError::NoSuchSlot));
    assert_eq!(bench.count(0), 4);
    assert_eq!(bench.count(1), 0);
    assert_eq!(bench.total(), 4);
}

#[test]
fn try_inc_op_rejects_an_overflow() {
    let mut bench = Bench::new(2);
    bench.inc_op(0, u64::MAX - 1);
    assert_eq!(bench.try_inc_op(0, 2), Err(CounterError::Overflow));
    assert_eq!(bench.count(0), u64::MAX - 1);
    assert_eq!(bench.try_inc_op(0, 1), Ok(()));
    assert_eq!(bench.try_inc_op(0, 1), Err(CounterError::Overflow));
    assert_eq!(bench.try_inc_op(0, 0), Ok(()));
    assert_eq!(bench.count(0), u64::MAX);
}

#[test]
fn total_is_wider_than_one_counter() {
    let mut bench = Bench::new(3);
    for slot in 0..3 {
        bench.inc_op(slot, u64::MAX);
    }
    assert_eq!(bench.total(), 3 * (u64::MAX as u128));
    start_all(&mut bench, 0);
    let report = bench.report(1000).unwrap();
    assert_eq!(report.total, 55340232221128654845);
    assert_eq!(report.delta, 55340232221128654845);
}

#[test]
fn gate_opens_only_with_the_last_arrival() {
    let mut bench = Bench::new(4);
    for _ in 0..4 {
        assert!(!bench.released());
        assert_eq!(bench.init_ok(), Arrival::Waiting);
        assert_eq!(bench.mark_started(1), Err(StartError::GateClosed));
        assert!(!bench.started());
    }
    assert!(!bench.released());
    assert_eq!(bench.init_ok(), Arrival::Released);
    assert!(bench.released());
    assert!(!bench.started());
}

#[test]
fn gate_of_one_worker_needs_two_arrivals() {
    let mut bench = Bench::new(1);
    assert_eq!(bench.init_ok(), Arrival::Waiting);
    assert!(!bench.released());
    assert_eq!(bench.init_ok(), Arrival::Released);
    assert!(bench.released());
}

#[test]
fn late_arrivals_are_told_so() {
    let mut bench = Bench::new(2);
    start_all(&mut bench, 7);
    assert_eq!(bench.init_ok(), Arrival::Late);
    assert_eq!(bench.init_ok(), Arrival::Late);
    assert!(bench.released());
    assert!(bench.started());
}

#[test]
fn benchmark_starts_once() {
    let mut bench = Bench::new(2);
    start_all(&mut bench, 500);
    assert!(bench.started());
    assert_eq!(bench.mark_started(900), Err(StartError::AlreadyStarted));
    assert!(bench.started());
    // The start time is still the first one.
    assert_eq!(bench.report(1500).unwrap().elapsed_ms, 1000);
}

#[test]
fn increments_before_the_start_are_counted() {
    let mut bench = Bench::new(2);
    bench.inc_op(0, 5);
    start_all(&mut bench, 100);
    bench.inc_op(1, 2);
    assert_eq!(
        bench.report(1100),
        Some(Report { delta: 7, total: 7, elapsed_ms: 1000 })
    );
}

#[test]
fn reports_give_interval_and_lifetime_figures() {
    let mut bench = Bench::new(2);
    start_all(&mut bench, 250);
    bench.inc_op(0, 1500);
    bench.inc_op(1, 500);
    assert_eq!(
        bench.report(1250),
        Some(Report { delta: 2000, total: 2000, elapsed_ms: 1000 })
    );
    bench.inc_op(0, 1);
    assert_eq!(
        bench.report(2250),
        Some(Report { delta: 1, total: 2001, elapsed_ms: 2000 })
    );
    assert_eq!(
        bench.report(3251),
        Some(Report { delta: 0, total: 2001, elapsed_ms: 3001 })
    );
}

#[test]
fn a_clock_reading_before_the_start_counts_as_no_time() {
    let mut bench = Bench::new(1);
    start_all(&mut bench, 5000);
    assert_eq!(bench.report(4000).unwrap().elapsed_ms, 0);
    assert_eq!(bench.report(5000).unwrap().elapsed_ms, 0);
    match bench.on_interrupt(10) {
        Shutdown::Summary(summary) => assert_eq!(summary.elapsed_ms, 0),
        Shutdown::NotStarted => panic!("the benchmark was running"),
    }
}

#[test]
fn end_to_end_with_four_workers() {
    let mut bench = Bench::new(4);
    start_all(&mut bench, 0);
    let mut samples: Vec<u128> = Vec::new();
    let mut clock: u64 = 0;
    for second in 1..=3u64 {
        for _ in 0..(10 * second) {
            for worker in 0..4 {
                bench.inc_op(worker, 1);
            }
        }
        clock += REPORT_INTERVAL_MS;
        let report = bench.report(clock).unwrap();
        assert_eq!(report.elapsed_ms, 1000 * second);
        assert!(report.delta > 0);
        samples.push(report.total);
    }
    assert_eq!(samples, vec![40, 120, 240]);
    assert!(samples[0] > 0);
    assert!(samples[0] < samples[1] && samples[1] < samples[2]);
    for worker in 0..4 {
        assert_eq!(bench.count(worker), 60);
    }
}

#[test]
fn interrupt_before_start_only_warns() {
    let mut bench = Bench::new(4);
    assert_eq!(bench.on_interrupt(0), Shutdown::NotStarted);
    // Some have arrived, some work was even counted: still not running.
    assert_eq!(bench.init_ok(), Arrival::Waiting);
    bench.inc_op(3, 17);
    assert_eq!(bench.on_interrupt(123_456), Shutdown::NotStarted);
    // The start gate is open, but the controller has not begun the running phase.
    for _ in 0..3 {
        assert_eq!(bench.init_ok(), Arrival::Waiting);
    }
    assert_eq!(bench.init_ok(), Arrival::Released);
    assert_eq!(bench.on_interrupt(123_457), Shutdown::NotStarted);
    assert_eq!(EXIT_STATUS, 0);
}

#[test]
fn interrupt_after_start_summarises_one_snapshot() {
    let mut bench = Bench::new(4);
    start_all(&mut bench, 1000);
    bench.inc_op(0, 1);
    assert_eq!(
        bench.on_interrupt(1500),
        Shutdown::Summary(Summary { elapsed_ms: 500, concurrency: 4, total: 1 })
    );
    for worker in 0..4 {
        bench.inc_op(worker, 250);
    }
    let shutdown = bench.on_interrupt(3000);
    assert_eq!(
        shutdown,
        Shutdown::Summary(Summary { elapsed_ms: 2000, concurrency: 4, total: 1001 })
    );
    if let Shutdown::Summary(summary) = shutdown {
        let throughput = summary.total as f64 / (summary.elapsed_ms as f64 / 1000.0);
        assert_eq!(throughput, 500.5);
        assert_eq!(summary.total, bench.total());
    }
    assert_eq!(EXIT_STATUS, 0);
}

#[test]
fn interrupt_does_not_disturb_the_reports() {
    let mut bench = Bench::new(2);
    start_all(&mut bench, 0);
    bench.inc_op(0, 10);
    let _ = bench.on_interrupt(400);
    assert_eq!(
        bench.report(1000),
        Some(Report { delta: 10, total: 10, elapsed_ms: 1000 })
    );
}

#[test]
fn report_interval_is_one_second() {
    assert_eq!(REPORT_INTERVAL_MS, 1000);
}
