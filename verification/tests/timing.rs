use btutils::time::{Clock, Duration, Instant};
use btutils::timing::client::{get_time, ClientData, ClientOptions, Step, Wait};
use btutils::timing::server::{calc_ref_time, calc_ref_time_at, RefClock, ServerData};
use btutils::timing::{check_service, distance, is_within_increment, Error, TIME_CHRC, TIME_SERV};
use btutils::MAC;
use rustable::gatt::AttValue;

fn at(micros: u64) -> Instant {
    Instant { nanos: micros as u128 * 1_000 }
}

fn micros(n: u64) -> Duration {
    Duration::from_micros(n)
}

fn secs(n: u64) -> Wait {
    Wait::For(Duration::from_secs(n))
}

fn value(bytes: &[u8]) -> AttValue {
    AttValue::from(bytes)
}

fn grace(base: Duration) -> Duration {
    Duration { nanos: base.nanos * 9 / 4 }
}

fn wrote<W>(step: &Step<W>) -> &[u8] {
    step.write.as_ref().unwrap().as_slice()
}

/// Hands a value to the client at one time.
fn notify(data: &mut ClientData<u8>, bytes: &[u8], now: Instant) -> Step<u8> {
    let val = value(bytes);
    assert!(data.accepts(&val));
    let grace = grace(data.grace_base());
    data.handle_not(Some(val), grace, now, now)
}

/// Hands a value to the server and gives its answer.
fn exchange(data: &mut ServerData, clock: &mut RefClock, bytes: &[u8], now: Instant) -> Vec<u8> {
    let val = value(bytes);
    assert!(data.accepts(&val));
    let grace = grace(data.grace_base());
    data.handle_write_at(&val, grace, now, clock);
    data.value_cb().as_slice().to_vec()
}

#[test]
fn service() {
    assert_eq!(TIME_SERV, 0x02f9727572264595a4f9fb54738dd751);
    assert_eq!(TIME_CHRC, 0x33858edffe544e5c8f13ad8bafda30dc);
    assert!(check_service(TIME_SERV).is_ok());
    assert!(matches!(check_service(TIME_CHRC), Err(Error::InvalidService)));
}

#[test]
fn options() {
    let mac = MAC::new(0x0102_03A0_B0C0);
    let options: btutils::timing::ClientOptions = ClientOptions::new(mac);
    assert_eq!(options.dev, mac);
    assert_eq!(options.hci, 0);
    assert_eq!(options.name, None);
}

#[test]
fn increments() {
    assert!(is_within_increment(micros(5_000), micros(6_249)));
    assert!(is_within_increment(micros(6_249), micros(5_000)));
    assert!(!is_within_increment(micros(5_000), micros(6_250)));
    assert!(is_within_increment(Duration { nanos: 5_000_999 }, micros(6_249)));
    assert_eq!(distance(3, 10), 7);
    assert_eq!(distance(10, 3), 7);
    assert_eq!(distance(u64::MAX, 1), 2);
}

#[test]
fn reference_times() {
    assert_eq!(get_time(at(2_500), at(500)), 2_000);
    assert_eq!(calc_ref_time_at(100, at(500), at(2_500)), 2_100);
    assert_eq!(calc_ref_time_at(u64::MAX, at(0), at(5)), 4);
    let mut clock = RefClock::starting(at(10));
    assert_eq!(clock.get_time_at(at(10)), 0);
    assert_eq!(clock.get_time_at(at(17)), 7);
    clock.update_ref_time(1_000, at(20));
    assert_eq!(clock.get_time_at(at(20)), 1_000);
    assert_eq!(clock.get_time_at(at(25)), 1_005);
}

#[test]
fn microseconds_start_over() {
    let micros = (1u128 << 64) + 5;
    let far = Instant { nanos: micros * 1_000 };
    assert_eq!(get_time(far, at(0)), 5);
    assert_eq!(calc_ref_time_at(10, at(0), far), 15);
}

#[test]
fn reference_times_by_the_clock() {
    let clock = Clock::new();
    let start = clock.now();
    let time = calc_ref_time(1_000_000, start, &clock);
    assert!(time >= 1_000_000 && time < 11_000_000);
    let mut reference = RefClock::new(&clock);
    assert!(reference.get_time(&clock) < 10_000_000);
    reference.update_ref_time(7_000_000, clock.now());
    let time = reference.get_time(&clock);
    assert!(time >= 7_000_000 && time < 17_000_000);
}

#[test]
fn last_setting_of_a_shared_clock_counts() {
    let mut clock = RefClock::starting(at(10));
    for (time, start) in [(500, at(20)), (40, at(30)), (1_000, at(40))] {
        clock.update_ref_time(time, start);
    }
    let readings: Vec<u64> = (40..45).map(|now| clock.get_time_at(at(now))).collect();
    assert_eq!(readings, vec![1_000, 1_001, 1_002, 1_003, 1_004]);
}

#[test]
fn server_sets_its_clock_when_the_time_arrives() {
    let clock = Clock::new();
    let mut reference = RefClock::new(&clock);
    let mut data = ServerData::new();
    let four_secs = 4_000_000u32.to_le_bytes();
    let estimate = [0x02, four_secs[0], four_secs[1], four_secs[2], four_secs[3]];
    for bytes in [&[0x00][..], &[0x01, 0, 0][..], &estimate[..]] {
        assert!(data.write_cb(&value(bytes), Duration { nanos: 0 }, &clock, &mut reference));
    }
    let before = clock.now();
    while clock.now().duration_since(before).nanos < 1_000_000 {}
    let time = value(&[0x03, 0x10, 0, 0, 0, 0, 0, 0, 0]);
    assert!(data.write_cb(&time, Duration { nanos: 0 }, &clock, &mut reference));
    assert_eq!(reference.time, 0x10);
    assert!(reference.start.nanos >= before.nanos + 1_000_000);
    assert!(reference.start.nanos <= clock.now().nanos);
}

#[test]
fn server_begins() {
    let mut clock = RefClock::starting(at(0));
    let mut data = ServerData::new();
    assert_eq!(data.value_cb().as_slice(), &[0xFF]);
    assert_eq!(exchange(&mut data, &mut clock, &[0x01, 0, 0], at(1)), vec![0xFF]);
    assert_eq!(exchange(&mut data, &mut clock, &[0x00], at(1)), vec![0x80]);
    assert_eq!(exchange(&mut data, &mut clock, &[0x00], at(1)), vec![0x80]);
    assert_eq!(exchange(&mut data, &mut clock, &[0x07], at(1)), vec![0xFF]);
}

#[test]
fn begin_succeeds_the_second_time() {
    let mut clock = RefClock::starting(at(0));
    let mut data = ServerData::new();
    exchange(&mut data, &mut clock, &[0x00], at(1));
    exchange(&mut data, &mut clock, &[0x01, 0, 0], at(2));
    assert_eq!(exchange(&mut data, &mut clock, &[0x00], at(3)), vec![0xFF]);
    assert_eq!(exchange(&mut data, &mut clock, &[0x00], at(4)), vec![0x80]);
}

#[test]
fn server_counts_requests() {
    let mut clock = RefClock::starting(at(0));
    let mut data = ServerData::new();
    assert_eq!(data.grace_base().nanos, 0);
    exchange(&mut data, &mut clock, &[0x00], at(0));
    assert_eq!(exchange(&mut data, &mut clock, &[0x01, 0, 0], at(0)), vec![0x81, 0, 0]);
    assert_eq!(data.grace_base(), Duration::from_secs(4));
    assert_eq!(exchange(&mut data, &mut clock, &[0x01, 1, 0], at(20_000)), vec![0x81, 1, 0]);
    assert_eq!(data.grace_base(), micros(10_000));
    assert_eq!(exchange(&mut data, &mut clock, &[0x01, 2, 0], at(42_000)), vec![0x81, 2, 0]);
    assert_eq!(data.grace_base(), micros(10_500));
    // Too short to hold a number.
    assert_eq!(exchange(&mut data, &mut clock, &[0x01, 3], at(45_000)), vec![0x81, 2, 0]);
    // Another number than the next one.
    assert_eq!(exchange(&mut data, &mut clock, &[0x01, 9, 0], at(46_000)), vec![0x81, 0, 0]);
    assert_eq!(data.grace_base(), micros(10_500));
    // Too late: two and a quarter times 10.5 ms are 23.625 ms.
    assert_eq!(exchange(&mut data, &mut clock, &[0x01, 1, 0], at(69_626)), vec![0x81, 0, 0]);
    // Just in time.
    assert_eq!(exchange(&mut data, &mut clock, &[0x01, 1, 0], at(93_251)), vec![0x81, 1, 0]);
}

#[test]
fn server_compares_intervals() {
    let measured = || {
        let mut clock = RefClock::starting(at(0));
        let mut data = ServerData::new();
        exchange(&mut data, &mut clock, &[0x00], at(0));
        exchange(&mut data, &mut clock, &[0x01, 0, 0], at(0));
        exchange(&mut data, &mut clock, &[0x01, 1, 0], at(20_000));
        (data, clock)
    };
    let request = |ci: u32| {
        let mut bytes = vec![0x02];
        bytes.extend_from_slice(&ci.to_le_bytes());
        bytes
    };
    for (ci, answer) in [
        (10_000, vec![0x82]),
        (11_249, vec![0x82]),
        (8_751, vec![0x82]),
        (11_250, vec![0x81, 0, 0]),
        (8_750, vec![0x81, 0, 0]),
    ] {
        let (mut data, mut clock) = measured();
        assert_eq!(exchange(&mut data, &mut clock, &request(ci), at(21_000)), answer);
    }
    let (mut data, mut clock) = measured();
    assert_eq!(exchange(&mut data, &mut clock, &[0x02, 1, 2, 3], at(21_000)), vec![0x81, 1, 0]);
}

#[test]
fn server_takes_only_what_it_can() {
    let mut clock = RefClock::starting(at(0));
    let mut data = ServerData::new();
    assert!(!data.accepts(&value(&[])));
    exchange(&mut data, &mut clock, &[0x00], at(0));
    exchange(&mut data, &mut clock, &[0x01, 0, 0], at(0));
    // The estimate is four seconds still.
    let ci = 4_000_000u32.to_le_bytes();
    assert_eq!(
        exchange(&mut data, &mut clock, &[0x02, ci[0], ci[1], ci[2], ci[3]], at(0)),
        vec![0x82]
    );
    assert!(!data.accepts(&value(&[0x03, 1, 2])));
    assert!(data.accepts(&value(&[0x04])));
    let time = value(&[0x03, 0x10, 0, 0, 0, 0, 0, 0, 0]);
    assert!(data.accepts(&time));
    data.handle_write_at(&time, Duration { nanos: 0 }, at(50), &mut clock);
    assert_eq!(clock, RefClock { time: 0x10, start: at(50) });
    assert!(!data.accepts(&value(&[0x00])));
    let mut answer = vec![0x83];
    answer.extend_from_slice(&4_000_016u64.to_le_bytes());
    assert_eq!(data.value_cb().as_slice(), answer);
    assert_eq!(data.value_cb().as_slice(), &[0xFF]);
}

#[test]
fn server_callback() {
    let clock = Clock::new();
    let mut reference = RefClock::new(&clock);
    let before = reference;
    let mut data = ServerData::new();
    assert!(!data.write_cb(&value(&[]), Duration { nanos: 0 }, &clock, &mut reference));
    assert_eq!(data.value_cb().as_slice(), &[0xFF]);
    assert!(data.write_cb(&value(&[0x00]), Duration { nanos: 0 }, &clock, &mut reference));
    assert_eq!(data.value_cb().as_slice(), &[0x80]);
    data.handle_write(&value(&[0x01]), Duration { nanos: 0 }, &clock, &mut reference);
    assert_eq!(data.value_cb().as_slice(), &[0x81, 0, 0]);
    assert_eq!(reference, before);
}

#[test]
fn client_at_rest() {
    let mut data = ClientData::<u8>::new(at(0));
    assert_eq!(data.grace_base().nanos, 0);
    assert_eq!(data.get_to(Duration { nanos: 0 }, at(5)), Duration::from_secs(3600));
    assert!(data.accepts(&value(&[])));
    assert!(data.accepts(&value(&[0xFF])));
    assert!(!data.accepts(&value(&[0x80])));
    let step = notify(&mut data, &[0xFF], at(7));
    assert!(step.write.is_none() && step.answer.is_none());
    assert_eq!(step.wait, secs(3600));
    let step = data.handle_to(at(8));
    assert!(step.write.is_none());
    assert_eq!(step.wait, secs(3600));
    let step = data.handle_not(None, Duration { nanos: 0 }, at(9), at(9));
    assert!(step.write.is_none());
}

#[test]
fn client_begins() {
    let mut data = ClientData::new(at(0));
    let step = data.handle_ask(1u8, Duration { nanos: 0 }, at(1_000));
    assert_eq!(wrote(&step), &[0x00]);
    assert_eq!(step.wait, secs(9));
    assert_eq!(step.answer, None);
    // Anything but the answer is passed over.
    let step = notify(&mut data, &[0xFF], at(2_000));
    assert!(step.write.is_none());
    assert_eq!(step.wait, Wait::For(micros(7_999_000)));
    let step = notify(&mut data, &[], at(2_000));
    assert!(step.write.is_none());
    // Nothing came in time.
    let step = data.handle_to(at(9_001_000));
    assert_eq!(wrote(&step), &[0x00]);
    // Another one asks; the first is told no.
    let step = data.handle_ask(2, Duration { nanos: 0 }, at(9_002_000));
    assert_eq!(step.answer, Some((1, false)));
    assert_eq!(wrote(&step), &[0x00]);
    let step = notify(&mut data, &[0x80], at(9_012_000));
    assert_eq!(wrote(&step), &[0x01, 0, 0]);
    assert_eq!(step.wait, secs(9));
    assert_eq!(data.grace_base(), micros(10_000));
    // A measurement goes on when someone asks.
    let g = grace(data.grace_base());
    let step = data.handle_ask(3, g, at(9_013_000));
    assert_eq!(step.answer, Some((2, false)));
    assert!(step.write.is_none());
    assert_eq!(step.wait, Wait::For(micros(21_500)));
}

fn measuring(ci: u64) -> ClientData<u8> {
    let mut data = ClientData::new(at(0));
    data.handle_ask(1, Duration { nanos: 0 }, at(0));
    notify(&mut data, &[0x80], at(ci));
    data
}

#[test]
fn client_measures() {
    let mut data = measuring(10_000);
    // The first estimate is half of the twenty milliseconds.
    let step = notify(&mut data, &[0x81, 0, 0], at(30_000));
    assert_eq!(wrote(&step), &[0x01, 1, 0]);
    assert_eq!(step.wait, Wait::Grace);
    assert_eq!(data.grace_base(), micros(10_000));
    // Another number begins over.
    let step = notify(&mut data, &[0x81, 5, 0], at(31_000));
    assert_eq!(wrote(&step), &[0x01, 0, 0]);
    assert_eq!(step.wait, secs(9));
    assert_eq!(data.grace_base(), micros(10_000));
    // Too late begins over with four seconds.
    let step = notify(&mut data, &[0x81, 0, 0], at(31_000 + 22_501));
    assert_eq!(wrote(&step), &[0x01, 0, 0]);
    assert_eq!(data.grace_base(), Duration::from_secs(4));
    // A number that is cut off begins everything over.
    let step = notify(&mut data, &[0x81, 0], at(60_000));
    assert_eq!(wrote(&step), &[0x00]);
}

#[test]
fn client_settles_after_three_equal_estimates() {
    let mut data = measuring(10_000);
    for i in 0..2u8 {
        let step = notify(&mut data, &[0x81, i, 0], at(30_000 + 20_000 * i as u64));
        assert_eq!(wrote(&step), &[0x01, i + 1, 0]);
    }
    // An estimate that is off counts from the start.
    let step = notify(&mut data, &[0x81, 2, 0], at(50_000 + 2));
    assert_eq!(wrote(&step), &[0x01, 3, 0]);
    assert_eq!(data.grace_base().nanos, 6_667_000);
    for i in 3..5u8 {
        let step = notify(&mut data, &[0x81, i, 0], at(50_000 + 13_333 * (i as u64 - 2)));
        assert_eq!(wrote(&step), &[0x01, i + 1, 0]);
    }
    let step = notify(&mut data, &[0x81, 5, 0], at(50_000 + 13_333 * 3));
    assert_eq!(step.wait, Wait::Grace);
    assert_eq!(wrote(&step), &[0x02, 0x0A, 0x1A, 0, 0]);
}

#[test]
fn client_falls_back_while_agreeing() {
    let agreeing = || {
        let mut data = measuring(10_000);
        for i in 0..3u8 {
            notify(&mut data, &[0x81, i, 0], at(30_000 + 20_000 * i as u64));
        }
        data
    };
    let mut data = agreeing();
    assert_eq!(data.get_to(grace(data.grace_base()), at(71_000)), micros(21_500));
    assert_eq!(wrote(&notify(&mut data, &[0x81, 0, 0], at(72_000))), &[0x00]);
    let mut data = agreeing();
    let g = grace(data.grace_base());
    let step = data.handle_ask(2, g, at(71_000));
    assert!(step.write.is_none());
    assert_eq!(step.answer, Some((1, false)));
    let mut data = agreeing();
    let step = data.handle_not(None, g, at(71_000), at(71_001));
    assert_eq!(wrote(&step), &[0x00]);
}

#[test]
fn client_and_server_agree() {
    // Each way takes ten milliseconds; the client started at 1 s.
    let ci = 10_000;
    let mut clock = RefClock::starting(at(0));
    let mut server = ServerData::new();
    let mut client = ClientData::new(at(1_000_000));
    let mut now = 2_000_000;
    let mut step = client.handle_ask(9u8, Duration { nanos: 0 }, at(now));
    let mut writes = 0;
    loop {
        let bytes = match &step.write {
            Some(val) => val.as_slice().to_vec(),
            None => break,
        };
        writes += 1;
        now += ci;
        let answer = exchange(&mut server, &mut clock, &bytes, at(now));
        now += ci;
        step = notify(&mut client, &answer, at(now));
    }
    // Begin, four requests, the interval, the time. The first estimate is the
    // whole round trip.
    assert_eq!(writes, 7);
    assert_eq!(step.answer, Some((9, true)));
    assert_eq!(step.wait, secs(3600));
    // Both show the same time.
    assert_eq!(clock.get_time_at(at(now)), get_time(at(now), at(1_000_000)));
    assert_eq!(server.value_cb().as_slice(), &[0xFF]);
}

#[test]
fn client_compares_times() {
    let setting = || {
        let mut data = measuring(10_000);
        for i in 0..3u8 {
            notify(&mut data, &[0x81, i, 0], at(30_000 + 20_000 * i as u64));
        }
        let step = notify(&mut data, &[0x82], at(90_000));
        let mut sent = vec![0x03];
        sent.extend_from_slice(&100_000u64.to_le_bytes());
        assert_eq!(wrote(&step), sent);
        assert_eq!(step.wait, Wait::For(micros(22_500)));
        data
    };
    let reply = |time: u64| {
        let mut bytes = vec![0x83];
        bytes.extend_from_slice(&time.to_le_bytes());
        bytes
    };
    for (time, done) in [(110_000, true), (111_250, true), (108_750, true), (111_251, false)] {
        let mut data = setting();
        let step = notify(&mut data, &reply(time), at(110_000));
        if done {
            assert!(step.write.is_none());
            assert_eq!(step.answer, Some((1, true)));
            assert_eq!(step.wait, secs(3600));
        } else {
            assert_eq!(wrote(&step), &[0x00]);
            assert_eq!(step.answer, None);
        }
    }
    let mut data = setting();
    assert_eq!(wrote(&notify(&mut data, &[0x83, 1], at(110_000))), &[0x00]);
    let mut data = setting();
    assert_eq!(data.grace_base(), micros(10_000));
    assert_eq!(data.get_to(micros(22_500), at(91_000)), micros(21_500));
    // Someone who asks now begins over.
    let step = data.handle_ask(2, micros(22_500), at(91_000));
    assert_eq!(step.answer, Some((1, false)));
    assert_eq!(wrote(&step), &[0x00]);
    let step = data.start_client_sync(at(92_000));
    assert_eq!(wrote(&step), &[0x00]);
}
