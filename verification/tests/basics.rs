use btutils::bytes::{
    low_bytes2, low_half, u16_from_le, u16_to_le, u32_from_le, u32_to_le, u64_from_le, u64_to_le,
};
use btutils::link::{reconnects, WriteFault};
use btutils::spin::Backoff;
use btutils::time::{Clock, Deadline, Duration, Instant};

fn at(nanos: u128) -> Instant {
    Instant { nanos }
}

#[test]
fn little_endian_numbers() {
    assert_eq!(u16_to_le(0x0102), [0x02, 0x01]);
    assert_eq!(low_bytes2(0x12_3456), [0x56, 0x34]);
    assert_eq!(u32_to_le(0x0102_0304), [4, 3, 2, 1]);
    assert_eq!(u64_to_le(0x0102_0304_0506_0708), [8, 7, 6, 5, 4, 3, 2, 1]);
    let bytes = [0xAA, 1, 2, 3, 4, 5, 6, 7, 8];
    assert_eq!(u16_from_le(&bytes, 1), 0x0201);
    assert_eq!(u32_from_le(&bytes, 1), 0x0403_0201);
    assert_eq!(u64_from_le(&bytes, 1), 0x0807_0605_0403_0201);
    assert_eq!(low_half(0x1_0000_0005), 5);
}

#[test]
fn numbers_read_as_written() {
    for x in [0u64, 1, 255, 256, 65_535, 0xFFFF_FFFF, u64::MAX] {
        assert_eq!(u64_from_le(&u64_to_le(x), 0), x);
        assert_eq!(u32_from_le(&u32_to_le(x as u32), 0), x as u32);
        assert_eq!(u16_from_le(&u16_to_le(x as u16), 0), x as u16);
    }
}

#[test]
fn spans() {
    assert_eq!(Duration::from_secs(2).nanos, 2_000_000_000);
    assert_eq!(Duration::from_millis(3).nanos, 3_000_000);
    assert_eq!(Duration::from_micros(4).nanos, 4_000);
    assert_eq!(Duration { nanos: 1_999_999 }.as_millis(), 1);
    assert_eq!(Duration { nanos: 1_999 }.as_micros(), 1);
    assert_eq!(Duration::from_micros(5).longer(Duration::from_micros(6)).nanos, 6_000);
    assert_eq!(Duration::from_micros(6).longer(Duration::from_micros(5)).nanos, 6_000);
    assert_eq!(Duration::from_micros(6).times(3).nanos, 18_000);
    assert_eq!(Duration { nanos: u128::MAX }.times(2).nanos, u128::MAX);
    assert_eq!(Duration { nanos: 5 }.plus(Duration { nanos: 6 }).nanos, 11);
    assert_eq!(Duration { nanos: u128::MAX }.plus(Duration { nanos: 1 }).nanos, u128::MAX);
    assert!(Duration { nanos: 5 }.times_within(2, Duration { nanos: 10 }));
    assert!(!Duration { nanos: 5 }.times_within(2, Duration { nanos: 9 }));
    assert!(!Duration { nanos: u128::MAX }.times_within(2, Duration { nanos: u128::MAX }));
}

#[test]
fn points_in_time() {
    assert_eq!(at(9).duration_since(at(4)).nanos, 5);
    assert_eq!(at(4).duration_since(at(9)).nanos, 0);
    assert_eq!(at(4).after(Duration { nanos: 3 }), Deadline { nanos: 7 });
    assert_eq!(at(4).after(Duration { nanos: u128::MAX }), Deadline { nanos: u128::MAX });
    assert_eq!(Deadline { nanos: 7 }.saturating_duration_since(at(5)).nanos, 2);
    assert_eq!(Deadline { nanos: 7 }.saturating_duration_since(at(8)).nanos, 0);
    assert!(!Deadline { nanos: 7 }.has_passed(at(7)));
    assert!(Deadline { nanos: 7 }.has_passed(at(8)));
}

#[test]
fn clock_goes_forward() {
    let clock = Clock::new();
    let first = clock.now();
    let second = clock.now();
    assert!(first.nanos <= second.nanos);
    // The clock counts from when it was made.
    assert!(second.nanos < 10_000_000_000);
}

#[test]
fn clock_readings() {
    let epoch = std::time::Instant::now();
    let clock = Clock::from_epoch(epoch);
    let later = epoch + std::time::Duration::new(2, 345);
    assert_eq!(clock.reading_at(&epoch), at(0));
    assert_eq!(clock.reading_at(&later), at(2_000_000_345));
    // It goes on past 2^64 nanoseconds.
    let secs = 20_000_000_000;
    if let Some(far) = epoch.checked_add(std::time::Duration::from_secs(secs)) {
        assert_eq!(clock.reading_at(&far), at(secs as u128 * 1_000_000_000));
    }
    // Before the clock counts it stands at zero.
    assert_eq!(Clock::from_epoch(later).reading_at(&epoch), at(0));
}

#[test]
fn faults_after_which_a_link_is_renewed() {
    assert!(reconnects(WriteFault::NotConnected));
    assert!(reconnects(WriteFault::BrokenPipe));
    assert!(!reconnects(WriteFault::Other));
}

#[test]
fn spinning_doubles_up_to_a_limit() {
    let mut backoff = Backoff::new();
    let rounds: Vec<u32> = (0..9).map(|_| backoff.rounds()).collect();
    assert_eq!(rounds, vec![1, 2, 4, 8, 16, 32, 64, 64, 64]);
}
