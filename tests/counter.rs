use counter_server::counter::CounterError;
use counter_server::counter::SharedCounter;
use counter_server::message::count_message;
use counter_server::message::decimal_string;
use counter_server::service::reply_for;
use counter_server::service::CounterService;
use std::sync::Arc;

#[test]
fn sequential_increments_count_up() {
    let service = CounterService::new();
    for expected in 1..=50u64 {
        assert_eq!(service.increment_and_get(), Ok(expected));
    }
    assert_eq!(service.value(), Ok(50));
}

#[test]
fn shared_counter_counts_up() {
    let mut counter = SharedCounter::new();
    assert_eq!(counter.value(), 0);
    assert_eq!(counter.increment_and_get(), Ok(1));
    assert_eq!(counter.increment_and_get(), Ok(2));
    assert_eq!(counter.increment_and_get(), Ok(3));
    assert_eq!(counter.value(), 3);
}

fn runtime() -> tokio::runtime::Runtime {
    tokio::runtime::Builder::new_multi_thread()
        .worker_threads(4)
        .build()
        .unwrap()
}

fn concurrent_run(n: u64) {
    let rt = runtime();
    let service = Arc::new(CounterService::new());
    let handles: Vec<_> = (0..n)
        .map(|_| {
            let shared = Arc::clone(&service);
            rt.spawn_blocking(move || shared.increment_and_get().unwrap())
        })
        .collect();
    let mut seen: Vec<u64> = handles
        .into_iter()
        .map(|h| rt.block_on(h).unwrap())
        .collect();
    seen.sort();
    let expected: Vec<u64> = (1..=n).collect();
    assert_eq!(seen, expected);
    assert_eq!(service.value(), Ok(n));
}

#[test]
fn concurrent_increments_two_callers() {
    concurrent_run(2);
}

#[test]
fn concurrent_increments_ten_callers() {
    concurrent_run(10);
}

#[test]
fn concurrent_increments_thousand_callers() {
    concurrent_run(1000);
}

#[test]
fn no_lost_updates() {
    let rt = runtime();
    let service = Arc::new(CounterService::new());
    let handles: Vec<_> = (0..8)
        .map(|_| {
            let shared = Arc::clone(&service);
            rt.spawn_blocking(move || {
                for _ in 0..125 {
                    shared.increment_and_get().unwrap();
                }
            })
        })
        .collect();
    for h in handles {
        rt.block_on(h).unwrap();
    }
    assert_eq!(service.value(), Ok(1000));
}

#[test]
fn services_are_isolated() {
    let first = CounterService::new();
    let second = CounterService::new();
    assert_eq!(first.increment_and_get(), Ok(1));
    assert_eq!(first.increment_and_get(), Ok(2));
    assert_eq!(second.increment_and_get(), Ok(1));
    assert_eq!(first.increment_and_get(), Ok(3));
    assert_eq!(first.value(), Ok(3));
    assert_eq!(second.value(), Ok(1));
}

#[test]
fn fresh_service_starts_at_one() {
    let service = CounterService::new();
    assert_eq!(service.value(), Ok(0));
    assert_eq!(service.increment_and_get(), Ok(1));
}

#[test]
fn count_replies_in_order() {
    let service = CounterService::new();
    assert_eq!(service.count_reply(), Ok("Counted: 1 times.".to_string()));
    assert_eq!(service.count_reply(), Ok("Counted: 2 times.".to_string()));
    assert_eq!(service.count_reply(), Ok("Counted: 3 times.".to_string()));
}

#[test]
fn reply_for_success_renders_count() {
    assert_eq!(reply_for(Ok(42)), Ok("Counted: 42 times.".to_string()));
}

#[test]
fn reply_for_poisoned_lock() {
    assert_eq!(
        reply_for(Err(CounterError::LockPoisoned)),
        Err(CounterError::LockPoisoned)
    );
}

#[test]
fn reply_for_overflow() {
    assert_eq!(reply_for(Err(CounterError::Overflow)), Err(CounterError::Overflow));
}

#[test]
fn count_message_text() {
    assert_eq!(count_message(0), "Counted: 0 times.");
    assert_eq!(count_message(1), "Counted: 1 times.");
    assert_eq!(count_message(1234), "Counted: 1234 times.");
}

#[test]
fn decimal_string_values() {
    assert_eq!(decimal_string(0), "0");
    assert_eq!(decimal_string(9), "9");
    assert_eq!(decimal_string(10), "10");
    assert_eq!(decimal_string(255), "255");
    assert_eq!(decimal_string(256), "256");
    assert_eq!(decimal_string(1000000), "1000000");
    assert_eq!(decimal_string(u64::MAX), "18446744073709551615");
}
