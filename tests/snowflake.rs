use idgener::snowflake::{AllocatorState, GenerateError, Idgend, Snowflake, STANDARD_EPOCH};
use std::time::Instant;

#[test]
fn test_fn() {
    let mut id_gen = Snowflake::new(0);
    let id = id_gen.get(false);
    assert!(id.is_ok());
    let id = id.unwrap();
    let seq = id.sequence();
    let work_id = id.worker_id();
    let time1 = id.snowflake_timestamp();
    println!("time: {}, work_id: {}, seq:{} ", time1, work_id, seq);
    assert_eq!(0, work_id);
    assert_eq!(0, seq);

    let id = id_gen.get(false);
    assert!(id.is_ok());
    let id = id.unwrap();
    let seq = id.sequence();
    let work_id = id.worker_id();
    let time2 = id.snowflake_timestamp();
    println!("time: {}, work_id: {}, seq:{} ", time2, work_id, seq);
    assert_eq!(0, work_id);

    assert_eq!(if time1 == time2 { 1 } else { 0 }, seq);
}

#[test]
fn loop_test() {
    let mut id_gen = Snowflake::new(0);
    let now = Instant::now();
    for _ in 0..=1000000 {
        let out = id_gen.get(true);
        assert!(out.is_ok());
    }
    let elapsed = now.elapsed();
    println!(
        "single thread generate 1000 ids cost {}.{:09} s",
        elapsed.as_secs(),
        elapsed.subsec_nanos()
    );
}

const T: u64 = STANDARD_EPOCH + 1_000;

#[test]
fn new_keeps_low_ten_bits_of_worker_id() {
    let s = Snowflake::new(1024 + 7).state();
    assert_eq!(AllocatorState { worker_id: 7, sequence: 0, last_timestamp: 0 }, s);
}

#[test]
fn id_bit_layout() {
    let mut s = Snowflake::new(5);
    let id = s.issue(T, 1).unwrap().unwrap();
    assert_eq!((1_000u64 << 22) | (5 << 12), id.value());
    assert_eq!(T, id.snowflake_timestamp());
    assert_eq!(5, id.worker_id());
    assert_eq!(0, id.sequence());
}

#[test]
fn same_millisecond_sequence_steps_by_one() {
    let mut s = Snowflake::new(3);
    let a = s.issue(T, 1).unwrap().unwrap();
    let b = s.issue(T, 1).unwrap().unwrap();
    assert_eq!(a.sequence() + 1, b.sequence());
    assert_eq!(a.snowflake_timestamp(), b.snowflake_timestamp());
    assert_eq!(a.worker_id(), b.worker_id());
}

#[test]
fn jump_step_applies_within_millisecond_only() {
    let mut s = Snowflake::new(3);
    assert_eq!(0, s.issue(T, 4).unwrap().unwrap().sequence());
    assert_eq!(4, s.issue(T, 4).unwrap().unwrap().sequence());
    assert_eq!(0, s.issue(T + 1, 5).unwrap().unwrap().sequence());
}

#[test]
fn sequence_exhaustion_waits_for_next_millisecond() {
    let mut s = Snowflake::new(1);
    let first = s.issue(T, 1).unwrap().unwrap();
    for k in 1..4096u16 {
        let id = s.issue(T, 1).unwrap().unwrap();
        assert_eq!(k, id.sequence());
    }
    let before = s.state();
    assert!(s.issue(T, 1).unwrap().is_none());
    assert_eq!(before, s.state());
    let later = s.issue(T + 1, 1).unwrap().unwrap();
    assert!(later.snowflake_timestamp() > first.snowflake_timestamp());
    assert_eq!(0, later.sequence());
}

#[test]
fn allocations_past_one_millisecond_of_sequence() {
    let mut s = Snowflake::new(2);
    let first = s.allocate(false).unwrap();
    let mut last = first.snowflake_timestamp();
    for _ in 1..4097 {
        let id = s.allocate(false).unwrap();
        assert!(id.snowflake_timestamp() >= last);
        last = id.snowflake_timestamp();
    }
    assert!(last > first.snowflake_timestamp());
}

#[test]
fn clock_rollback_is_refused_and_leaves_state() {
    let mut s = Snowflake::new(9);
    s.issue(T, 1).unwrap().unwrap();
    s.issue(T, 1).unwrap().unwrap();
    let before = s.state();
    assert_eq!(Err(GenerateError::ClockMovedBackwards), s.issue(T - 1, 1).map(|o| o.map(|i| i.value())));
    assert_eq!(before, s.state());
    assert_eq!(1, s.state().sequence);
    assert_eq!(T, s.state().last_timestamp);
}

#[test]
fn jump_past_sequence_end_waits_instead_of_wrapping() {
    let mut s = Snowflake::new(1);
    s.issue(T, 1).unwrap().unwrap();
    for _ in 0..4094 {
        s.issue(T, 1).unwrap().unwrap();
    }
    assert_eq!(4094, s.state().sequence);
    assert!(s.issue(T, 5).unwrap().is_none());
    assert_eq!(4094, s.state().sequence);
    let id = s.issue(T + 1, 5).unwrap().unwrap();
    assert_eq!(0, id.sequence());
    assert_eq!(T + 1, id.snowflake_timestamp());
}

#[test]
fn ids_with_jump_increase_with_real_clock() {
    let mut s = Snowflake::new(12);
    let mut prev = s.get(true).unwrap().value();
    for _ in 0..100_000 {
        let v = s.get(true).unwrap().value();
        assert!(v > prev);
        prev = v;
    }
}

#[test]
fn clock_before_epoch_is_refused() {
    let mut s = Snowflake::new(9);
    assert_eq!(
        Err(GenerateError::ClockBeforeEpoch),
        s.issue(STANDARD_EPOCH - 1, 1).map(|o| o.map(|i| i.value()))
    );
}

#[test]
fn ids_increase_with_real_clock() {
    let mut s = Snowflake::new(11);
    let mut prev = s.allocate(false).unwrap().value();
    for _ in 0..10_000 {
        let v = s.allocate(false).unwrap().value();
        assert!(v > prev);
        prev = v;
    }
}

#[test]
fn wait_returns_a_later_millisecond() {
    let mut s = Snowflake::new(0);
    let id = s.allocate(false).unwrap();
    let t = s.wait_for_next_milli_sec().unwrap();
    assert!(t > id.snowflake_timestamp());
}
