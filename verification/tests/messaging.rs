use async_std::channel::{bounded, unbounded};
use btutils::messaging::client::{self, Action, ClientData, ClientOptions, Event, Received, Wait};
use btutils::messaging::frame::{read_ack, Frame};
use btutils::messaging::queue::Polled;
use btutils::messaging::server::{self, Next, OutData, ServerOptions, Woken};
use btutils::messaging::inflight::IndexSource;
use btutils::messaging::{ioe_to_blee, Error, LatDeque, Stats, SERV_IN, SERV_OUT, SERV_UUID};
use btutils::time::{Clock, Deadline, Duration, Instant};
use btutils::MAC;
use rustable::gatt::AttValue;

fn at(millis: u64) -> Instant {
    Instant { nanos: millis as u128 * 1_000_000 }
}

fn millis(n: u64) -> Duration {
    Duration::from_millis(n)
}

fn value(bytes: &[u8]) -> AttValue {
    AttValue::from(bytes)
}

fn frame(bytes: &[u8]) -> Frame {
    Frame::from_value(value(bytes)).unwrap()
}

fn bytes_of(frame: Frame) -> Vec<u8> {
    frame.into_value().as_slice().to_vec()
}

fn sending_client() -> ClientData {
    ClientData::new(32, millis(256), at(0))
}

#[test]
fn services() {
    assert_eq!(SERV_UUID, 0x0143d59000004dfbb83fb1135254e6b4);
    assert_eq!(SERV_OUT, 0x0143d59000014dfbb83fb1135254e6b4);
    assert_eq!(SERV_IN, 0x0143d59000024dfbb83fb1135254e6b4);
}

#[test]
fn default_options() {
    let mac = MAC::new(0x0102_03A0_B0C0);
    let options: btutils::messaging::ClientOptions = ClientOptions::new(mac);
    assert_eq!(options.dev, mac);
    assert_eq!(options.hci, 0);
    assert_eq!(options.lat_period, 32);
    assert_eq!(options.target_lt, millis(256));
    assert_eq!(options.name, None);
    let options = ServerOptions::default();
    assert_eq!(options.lat_period, 32);
    assert_eq!(options.target_lt, millis(256));
}

#[test]
fn frames() {
    assert_eq!(bytes_of(Frame::empty()), vec![0, 0, 0, 0]);
    assert_eq!(bytes_of(Frame::new(b"hi")), vec![0, 0, 0, 0, b'h', b'i']);
    let stamped = Frame::new(b"hi").stamp(0x0102_0304);
    assert_eq!(stamped.payload().as_slice(), b"hi");
    assert_eq!(stamped.ack().as_slice(), &[4, 3, 2, 1]);
    assert_eq!(stamped.header().as_slice(), &[4, 3, 2, 1]);
    assert!(!stamped.is_blank());
    assert!(Frame::empty().is_blank());
    assert!(!Frame::new(&[0]).is_blank());
    assert_eq!(bytes_of(stamped), vec![4, 3, 2, 1, b'h', b'i']);
    assert!(Frame::from_value(value(&[1, 2, 3])).is_none());
}

#[test]
fn longest_messages() {
    let long = vec![7u8; 600];
    let cut = client::send_msg(&long);
    assert_eq!(cut.payload().as_slice(), &long[..508]);
    assert_eq!(cut.into_value().as_slice().len(), 512);
    let whole = server::send_msg(&long[..508]);
    assert_eq!(whole.into_value().as_slice().len(), 512);
    assert_eq!(bytes_of(client::send_msg(b"abc")), vec![0, 0, 0, 0, b'a', b'b', b'c']);
}

#[test]
fn acknowledgements() {
    assert_eq!(read_ack(&value(&[1, 2, 0, 0])), Some(0x0201));
    assert_eq!(read_ack(&value(&[1, 2, 0])), None);
    assert_eq!(read_ack(&value(&[1, 2, 0, 0, 0])), None);
}

#[test]
fn latency_window() {
    let mut lat = LatDeque::starting(2, at(0));
    assert_eq!(lat.avg_lat().nanos, 0);
    assert_eq!(lat.avg_lat_adjusted().nanos, 0);
    lat.push_at(at(0), at(10));
    assert_eq!(lat.avg_lat(), millis(5));
    // Sent before the last acknowledgement: only the time since then counts.
    lat.push_at(at(4), at(30));
    assert_eq!(lat.avg_lat(), millis((10 + 26) / 2 / 2));
    assert_eq!(lat.avg_lat_adjusted().nanos, 7_500_000);
    // The oldest one leaves.
    lat.push_at(at(30), at(34));
    assert_eq!(lat.avg_lat().nanos, 7_500_000);
    assert_eq!(lat.avg_lat_adjusted(), millis(6));
    lat.pop_oldest();
    assert_eq!(lat.avg_lat(), millis(2));
    lat.pop_oldest();
    lat.pop_oldest();
    assert_eq!(lat.avg_lat().nanos, 0);
}

#[test]
fn latencies_of_any_length() {
    let mut lat = LatDeque::starting(2, at(0));
    let long = Instant { nanos: 1 << 100 };
    lat.push_at(at(0), long);
    assert_eq!(lat.avg_lat().nanos, 1 << 99);
    // A sum that does not fit is cut off, and right again once it fits.
    let last = Instant { nanos: u128::MAX };
    lat.push_at(at(0), last);
    assert_eq!(lat.avg_lat().nanos, u128::MAX / 4);
    lat.push_at(Instant { nanos: u128::MAX - 4 }, last);
    assert_eq!(lat.avg_lat().nanos, u128::MAX / 4);
    lat.push_at(Instant { nanos: u128::MAX - 8 }, last);
    assert_eq!(lat.avg_lat().nanos, 3);
    lat.pop_oldest();
    assert_eq!(lat.avg_lat().nanos, 4);
}

#[test]
fn latency_window_by_the_clock() {
    let clock = Clock::new();
    let mut lat = LatDeque::new(4, &clock);
    let sent = clock.now();
    while clock.now().duration_since(sent).nanos < 2_000_000 {}
    lat.push_new(sent, &clock);
    assert!(lat.avg_lat().nanos >= 1_000_000);
    assert!(lat.avg_lat().nanos < 5_000_000_000);
    assert!(lat.avg_lat_adjusted().nanos <= lat.avg_lat().nanos);
}

#[test]
fn figures() {
    let mut stats = Stats::default();
    assert_eq!(stats.get_avg_lat().nanos, 0);
    assert_eq!(stats.get_recvd_sent(), (0, 0));
    stats.update_lat(Duration { nanos: 12_999_999 });
    assert_eq!(stats.get_avg_lat(), millis(12));
    stats.update_lat(millis(65_536 + 3));
    assert_eq!(stats.get_avg_lat(), millis(3));
    stats.update_recvd_sent(1, 3);
    stats.update_recvd_sent(1, 1);
    assert_eq!(stats.get_recvd_sent(), (2, 4));
    assert_eq!(stats.get_sent(), 4);
    let (recvd, sent) = stats.get_recvd_sent();
    assert_eq!(1.0 - recvd as f64 / sent as f64, 0.5);
    stats.set_mtu(100);
    assert_eq!(stats.get_mtu(), 100);
    assert_eq!(client::get_out_mtu(&stats), 96);
    stats.reset();
    assert_eq!(stats.get_recvd_sent(), (0, 0));
    assert_eq!(stats.get_mtu(), 100);
    assert_eq!(stats.get_avg_lat(), millis(3));
}

#[test]
fn never_more_received_than_sent() {
    let mut data = sending_client();
    let mut stats = Stats::default();
    for round in 0..6u32 {
        data.send(Frame::new(b"x"), at(0));
        data.send(Frame::new(b"y"), at(0));
        let index = round * 2 + 1 + round % 2;
        data.handle_send_res(Some(value(&index.to_le_bytes())), at(1), &mut stats);
        let (recvd, sent) = stats.get_recvd_sent();
        assert!(recvd <= sent);
        if round == 3 {
            stats.reset();
            assert_eq!(stats.get_recvd_sent(), (0, 0));
        }
    }
    assert_eq!(stats.get_recvd_sent(), (2, 4));
}

#[test]
fn counters_carry_over() {
    let mut stats = Stats::default();
    stats.update_recvd_sent(0, u32::MAX);
    stats.update_recvd_sent(1, 1);
    assert_eq!(stats.get_recvd_sent(), (2, 0));
}

#[test]
fn characteristics_of_a_channel() {
    assert_eq!(client::find_channels(&[SERV_IN, SERV_OUT]).unwrap(), (1, 0));
    assert_eq!(client::find_channels(&[7, SERV_OUT, 8, SERV_IN, SERV_OUT]).unwrap(), (1, 3));
    assert!(matches!(client::find_channels(&[]), Err(Error::InvalidService)));
    assert!(matches!(client::find_channels(&[SERV_IN]), Err(Error::InvalidService)));
    assert!(matches!(
        client::find_channels(&[SERV_IN, SERV_IN, SERV_OUT]),
        Err(Error::InvalidService)
    ));
}

#[test]
fn client_numbers_its_messages() {
    let mut data = sending_client();
    let first = data.send(Frame::new(b"a"), at(1));
    assert_eq!(first.as_slice(), &[1, 0, 0, 0, b'a']);
    let second = data.send(Frame::new(b"b"), at(2));
    assert_eq!(second.as_slice(), &[2, 0, 0, 0, b'b']);
}

#[test]
fn indices_are_consecutive() {
    let mut indices = IndexSource::new();
    let first: Vec<u32> = (0..5).map(|_| indices.allocate_idx()).collect();
    assert_eq!(first, vec![1, 2, 3, 4, 5]);
}

#[test]
fn client_waits_for_acknowledgements() {
    let mut data = ClientData::new(32, millis(9), at(0));
    let mut stats = Stats::default();
    data.send(Frame::new(b"a"), at(0));
    assert!(!data.handle_send_res(Some(value(&[1, 0, 0, 0])), at(20), &mut stats));
    assert_eq!(stats.get_avg_lat(), millis(10));
    assert_eq!(stats.get_recvd_sent(), (1, 1));
    // Ten milliseconds for each message on its way are more than nine.
    assert!(data.can_send());
    data.send(Frame::new(b"b"), at(30));
    assert!(!data.can_send());
    // Sixteen times the mean latency.
    assert_eq!(data.get_to(at(30)), millis(160));
    assert_eq!(data.next_wait(at(50)), Wait::Device(millis(140)));
    assert_eq!(data.next_wait(at(300)), Wait::Device(millis(0)));
    assert!(!data.handle_send_res(Some(value(&[2, 0, 0, 0])), at(60), &mut stats));
    assert_eq!(data.next_wait(at(60)), Wait::Any);
    assert_eq!(stats.get_recvd_sent(), (2, 2));
}

#[test]
fn client_has_a_least_timeout() {
    let mut data = sending_client();
    assert_eq!(data.get_to(at(0)).nanos, 0);
    data.send(Frame::new(b"a"), at(5));
    assert_eq!(data.get_to(at(5)), millis(116));
}

#[test]
fn one_acknowledgement_settles_those_before() {
    let mut data = sending_client();
    let mut stats = Stats::default();
    for i in 0..4 {
        data.send(Frame::new(&[i]), at(i as u64));
    }
    data.handle_send_res(Some(value(&[3, 0, 0, 0])), at(12), &mut stats);
    assert_eq!(stats.get_recvd_sent(), (1, 3));
    assert_eq!(stats.get_avg_lat(), millis(5));
    // Coming again it changes nothing.
    data.handle_send_res(Some(value(&[3, 0, 0, 0])), at(99), &mut stats);
    assert_eq!(stats.get_recvd_sent(), (1, 3));
    assert_eq!(stats.get_avg_lat(), millis(5));
    data.handle_send_res(Some(value(&[4, 0, 0, 0])), at(13), &mut stats);
    assert_eq!(stats.get_recvd_sent(), (2, 4));
}

#[test]
fn acknowledgement_without_an_index_gives_up() {
    let mut data = ClientData::new(32, millis(0), at(0));
    let mut stats = Stats::default();
    data.send(Frame::new(b"a"), at(0));
    data.handle_send_res(Some(value(&[1, 0, 0, 0])), at(20), &mut stats);
    data.send(Frame::new(b"b"), at(30));
    data.send(Frame::new(b"c"), at(31));
    assert!(!data.can_send());
    data.handle_send_res(Some(value(&[0, 0, 0, 0])), at(40), &mut stats);
    assert!(data.can_send());
    assert_eq!(stats.get_recvd_sent(), (1, 1));
    data.handle_send_res(Some(value(&[2, 0, 0, 0])), at(50), &mut stats);
    assert_eq!(stats.get_recvd_sent(), (1, 1));
}

#[test]
fn client_ignores_what_is_no_acknowledgement() {
    let mut data = sending_client();
    let mut stats = Stats::default();
    data.send(Frame::new(b"a"), at(0));
    data.handle_send_res(Some(value(&[])), at(1), &mut stats);
    data.handle_send_res(Some(value(&[1, 0, 0])), at(1), &mut stats);
    data.handle_send_res(Some(value(&[9, 0, 0, 0])), at(1), &mut stats);
    assert_eq!(stats.get_recvd_sent(), (0, 0));
    assert!(data.handle_send_res(None, at(1), &mut stats));
}

#[test]
fn client_takes_messages() {
    match client::handle_recv(Some(value(&[5, 0, 0, 0, b'x']))) {
        Received::Deliver(frame, ack) => {
            assert_eq!(ack.as_slice(), &[5, 0, 0, 0]);
            let msg = client::recv_msg(Some(frame)).unwrap();
            assert_eq!(msg.as_slice(), b"x");
        }
        _ => panic!(),
    }
    assert!(matches!(client::handle_recv(Some(value(&[5, 0, 0]))), Received::Ignore));
    assert!(matches!(client::handle_recv(Some(value(&[0, 0, 0, 0]))), Received::Ignore));
    // An index without a message is handed on.
    assert!(matches!(
        client::handle_recv(Some(value(&[5, 0, 0, 0]))),
        Received::Deliver(_, _)
    ));
    assert!(matches!(client::handle_recv(None), Received::Reacquire));
    assert!(matches!(client::recv_msg(None), Err(Error::ClientThreadHungUp)));
}

#[test]
fn client_acts_upon_events() {
    let mut data = sending_client();
    let mut stats = Stats::default();
    match data.handle(Event::Outgoing(Some(Frame::new(b"m"))), at(0), &mut stats) {
        Action::Write(val) => assert_eq!(val.as_slice(), &[1, 0, 0, 0, b'm']),
        _ => panic!(),
    }
    match data.handle(Event::TimedOut, at(200), &mut stats) {
        Action::Write(val) => assert_eq!(val.as_slice(), &[2, 0, 0, 0]),
        _ => panic!(),
    }
    assert!(matches!(
        data.handle(Event::Out(Some(value(&[2, 0, 0, 0]))), at(210), &mut stats),
        Action::Nothing
    ));
    assert_eq!(stats.get_recvd_sent(), (1, 2));
    assert!(matches!(data.handle(Event::Out(None), at(211), &mut stats), Action::Reacquire));
    assert!(matches!(data.handle(Event::In(None), at(212), &mut stats), Action::Reacquire));
    match data.handle(Event::In(Some(value(&[1, 0, 0, 0, 9]))), at(213), &mut stats) {
        Action::Deliver(frame, ack) => {
            assert_eq!(frame.payload().as_slice(), &[9]);
            assert_eq!(ack.as_slice(), &[1, 0, 0, 0]);
        }
        _ => panic!(),
    }
    assert!(matches!(
        data.handle(Event::In(Some(value(&[]))), at(214), &mut stats),
        Action::Nothing
    ));
    assert!(matches!(data.handle(Event::Outgoing(None), at(215), &mut stats), Action::Stop));
}

#[test]
fn client_queue() {
    let (sender, inbound) = unbounded();
    assert!(matches!(client::try_recv_msg(&inbound), Ok(None)));
    sender.try_send(frame(&[1, 0, 0, 0, 6, 7])).unwrap();
    let msg = client::try_recv_msg(&inbound).unwrap().unwrap();
    assert_eq!(msg.as_slice(), &[6, 7]);
    drop(sender);
    assert!(matches!(client::try_recv_msg(&inbound), Err(Error::ClientThreadHungUp)));
    assert!(client::handed_over(true).is_ok());
    assert!(matches!(client::handed_over(false), Err(Error::ClientThreadHungUp)));
}

#[test]
fn polled_queues() {
    let msg = client::polled_msg(Polled::Item(frame(&[1, 2, 3, 4, 5]))).unwrap().unwrap();
    assert_eq!(msg.as_slice(), &[5]);
    assert!(matches!(client::polled_msg(Polled::Empty), Ok(None)));
    assert!(matches!(client::polled_msg(Polled::Closed), Err(Error::ClientThreadHungUp)));
    let head = server::polled_head(Polled::Item(frame(&[1, 2, 3, 4, 5]))).unwrap().unwrap();
    assert_eq!(head.as_slice(), &[1, 2, 3, 4]);
    assert!(matches!(server::polled_head(Polled::Empty), Ok(None)));
    assert!(matches!(server::polled_head(Polled::Closed), Err(Error::ClientThreadHungUp)));
}

#[test]
fn server_takes_messages() {
    let (frame, ack) = server::accept_write(value(&[3, 0, 0, 0, 1, 2])).unwrap();
    assert_eq!(ack.as_slice(), &[3, 0, 0, 0]);
    assert_eq!(server::recv_msg(Some(frame)).unwrap().as_slice(), &[1, 2]);
    assert!(server::accept_write(value(&[3, 0, 0])).is_none());
    assert!(matches!(server::recv_msg(None), Err(Error::InThreadHungUp)));
    assert!(server::handed_over(true).is_ok());
    assert!(matches!(server::handed_over(false), Err(Error::OutThreadHungUp)));
}

#[test]
fn server_queue() {
    let (sender, inbound) = unbounded();
    assert!(matches!(server::try_recv_msg(&inbound), Ok(None)));
    sender.try_send(frame(&[1, 0, 0, 0, 6, 7])).unwrap();
    let head = server::try_recv_msg(&inbound).unwrap().unwrap();
    assert_eq!(head.as_slice(), &[1, 0, 0, 0]);
    drop(sender);
    assert!(matches!(server::try_recv_msg(&inbound), Err(Error::ClientThreadHungUp)));
}

#[test]
fn server_answers() {
    let (_sender, recv) = bounded(1);
    let mut data = OutData::new(&ServerOptions::new(), recv, at(0));
    assert_eq!(data.timeout(), Deadline { nanos: 3_600_000_000_000 });
    let val = data.try_send_with(Next::Held, at(1), at(1));
    assert_eq!(val.as_slice(), &[0, 0, 0, 0]);
    assert_eq!(data.timeout(), Deadline { nanos: 3_600_001_000_000 });
    let val = data.try_send_with(Next::Looked(Polled::Empty), at(2), at(2));
    assert_eq!(val.as_slice(), &[0, 0, 0, 0]);
    assert_eq!(data.timeout(), Deadline { nanos: 3_600_002_000_000 });
    let val = data.try_send_with(Next::Looked(Polled::Closed), at(0), at(0));
    assert_eq!(val.as_slice(), &[0, 0, 0, 0]);
    assert_eq!(data.timeout(), Deadline { nanos: 1_314_000_000_000_000_000 });
    let val = data.try_send_with(Next::Looked(Polled::Item(Frame::new(b"s"))), at(4), at(5));
    assert_eq!(val.as_slice(), &[1, 0, 0, 0, b's']);
    // Sixteen times the least latency.
    assert_eq!(data.timeout(), Deadline { nanos: 4_000_000 + 23_200_000 });
}

#[test]
fn server_is_acknowledged() {
    let (_sender, recv) = bounded(1);
    let options = ServerOptions { target_lt: millis(9), lat_period: 4 };
    let mut data = OutData::new(&options, recv, at(0));
    let mut stats = Stats::default();
    let item = |msg: &[u8]| Next::Looked(Polled::Item(Frame::new(msg)));
    data.try_send_with(item(b"a"), at(0), at(0));
    assert!(data.handle_write_at(&value(&[1, 0, 0, 0]), at(20), true, &mut stats));
    assert_eq!(stats.get_avg_lat(), millis(10));
    assert_eq!(stats.get_recvd_sent(), (1, 1));
    assert!(!data.handle_write_at(&value(&[1, 0, 0, 0]), at(20), false, &mut stats));
    assert!(data.can_send_if(true));
    assert!(!data.can_send_if(false));
    data.try_send_with(item(b"b"), at(30), at(30));
    assert!(!data.can_send_if(true));
    // What is no acknowledgement is not answered.
    assert!(!data.handle_write_at(&value(&[2, 0, 0]), at(31), true, &mut stats));
    assert!(data.handle_write_at(&value(&[0, 0, 0, 0]), at(32), true, &mut stats));
    assert_eq!(stats.get_recvd_sent(), (1, 1));
}

#[test]
fn server_sends_from_its_queue() {
    let clock = Clock::new();
    let (sender, recv) = bounded(1);
    let mut data = OutData::new(&ServerOptions::new(), recv, clock.now());
    let mut stats = Stats::default();
    assert!(!data.can_send());
    assert_eq!(data.try_send(&clock).as_slice(), &[0, 0, 0, 0]);
    sender.try_send(Frame::new(b"q")).unwrap();
    assert!(data.can_send());
    assert!(data.handle_write(&value(&[0, 0, 0, 0]), &clock, &mut stats));
    assert_eq!(data.try_send(&clock).as_slice(), &[1, 0, 0, 0, b'q']);
    let sent = clock.now();
    assert!(data.timeout().nanos <= sent.nanos + 23_200_000);
    while clock.now().duration_since(sent).nanos < 6_000_000 {}
    assert!(!data.handle_write(&value(&[1, 0, 0, 0]), &clock, &mut stats));
    assert_eq!(stats.get_recvd_sent(), (1, 1));
    assert!(stats.get_avg_lat().nanos >= 3_000_000);
    assert_eq!(data.try_send(&clock).as_slice(), &[0, 0, 0, 0]);
}

#[test]
fn server_notifies() {
    let waited = Deadline { nanos: 5 };
    let moved = Deadline { nanos: 6 };
    assert_eq!(server::notify_step(waited, moved, Woken::Message), None);
    assert_eq!(server::notify_step(waited, waited, Woken::TimedOut), None);
    assert_eq!(server::notify_step(waited, moved, Woken::TimedOut), Some(moved));
}

#[test]
fn message_from_client_to_server_and_back() {
    let mut data = sending_client();
    let mut stats = Stats::default();
    let wire = data.send(client::send_msg(b"ping"), at(0));
    let (frame, ack) = server::accept_write(wire).unwrap();
    assert_eq!(server::recv_msg(Some(frame)).unwrap().as_slice(), b"ping");
    data.handle_send_res(Some(ack), at(8), &mut stats);
    assert_eq!(stats.get_recvd_sent(), (1, 1));
    assert!(data.can_send());

    let (_sender, recv) = bounded(1);
    let mut out = OutData::new(&ServerOptions::new(), recv, at(0));
    let item = Next::Looked(Polled::Item(server::send_msg(b"pong")));
    let wire = out.try_send_with(item, at(0), at(0));
    match client::handle_recv(Some(wire)) {
        Received::Deliver(frame, ack) => {
            assert_eq!(client::recv_msg(Some(frame)).unwrap().as_slice(), b"pong");
            assert!(out.handle_write_at(&ack, at(6), true, &mut stats));
        }
        _ => panic!(),
    }
    assert_eq!(stats.get_recvd_sent(), (2, 2));
    assert_eq!(stats.get_avg_lat(), millis(3));
}

#[test]
fn errors_are_wrapped() {
    let io = || std::io::Error::new(std::io::ErrorKind::Other, "broken");
    match ioe_to_blee(io()) {
        Error::Ble(rustable::Error::Io(err)) => assert_eq!(err.to_string(), "broken"),
        _ => panic!(),
    }
    assert!(matches!(Error::from(io()), Error::Dbus(_)));
    assert!(matches!(
        Error::from(rustable::Error::ThreadClosed),
        Error::Ble(rustable::Error::ThreadClosed)
    ));
    assert!(matches!(btutils::Error::from(io()), btutils::Error::Dbus(_)));
    assert!(matches!(
        btutils::Error::from(rustable::Error::SocketHungUp),
        btutils::Error::Ble(rustable::Error::SocketHungUp)
    ));
    assert!(matches!(
        btutils::timing::Error::from(io()),
        btutils::timing::Error::Dbus(_)
    ));
    assert!(matches!(
        btutils::timing::Error::from(rustable::Error::ThreadClosed),
        btutils::timing::Error::Ble(_)
    ));
}
