//! The names of runs.
use logweir::clock::Timestamp;
use logweir::ids::{format_run_id, new_run_id, run_id_at};

#[test]
fn a_run_id_is_spelled_as_the_identifier_of_its_parts() {
    assert_eq!(format_run_id(0, 0), "00000000000000000000000000");
    assert_eq!(format_run_id(u64::MAX, u128::MAX), "7ZZZZZZZZZZZZZZZZZZZZZZZZZ");
    for (ms, random) in [
        (1_760_000_000_000u64, 0x1234_5678_9abc_def0_1234u128),
        (1, 1),
        (0xffff_ffff_ffff, 0),
        (0x1_0000_0000_0007, 0xff_ffff_ffff_ffff_ffff_ffff),
    ] {
        assert_eq!(
            format_run_id(ms, random),
            ulid::Ulid::from_parts(ms, random).to_string()
        );
    }
}

#[test]
fn a_clock_before_1970_counts_as_1970() {
    let before = Timestamp::new(-5, 0).unwrap();
    assert_eq!(run_id_at(&before, 7), format_run_id(0, 7));
    let at = Timestamp::new(1_760_000_000, 123_456_789).unwrap();
    assert_eq!(run_id_at(&at, 7), format_run_id(1_760_000_000_123, 7));
}

#[test]
fn run_ids_sort_by_time_and_then_by_chance() {
    assert!(format_run_id(5, u128::MAX >> 48) < format_run_id(6, 0));
    assert!(format_run_id(5, 1) < format_run_id(5, 2));
}

#[test]
fn two_fresh_run_ids_differ_and_tell_the_present() {
    let (a, b) = (new_run_id(), new_run_id());
    assert_ne!(a, b);
    assert_eq!(a.len(), 26);
    let read = ulid::Ulid::from_string(&a).unwrap();
    let now = chrono::Utc::now().timestamp_millis() as u64;
    assert!(now - read.timestamp_ms() < 60_000);
    assert_ne!(read.random(), 0);
}
