use rand::rngs::StdRng;
use rand::SeedableRng;
use vlyness::node::relay::{
    tick_delay_ms, Relay, RelayAction, Role, SocketRead, TunnelStats,
};
use vlyness::node::socks::{SocksError, SocksState, SocksStep};
use vlyness::shaping::cadence::Cadence;
use vlyness::transport::mux::MuxEvent;
use vlyness::wire::address::{Addr, AddressFrame, Cmd};

const VER: u8 = 5;

/// Plays a dialogue: what the client sends, all at once. Returns the outcome and all
/// that was written.
fn dialogue(input: &[u8]) -> (Result<(Addr, u16), Option<SocksError>>, Vec<u8>) {
    let mut state = SocksState::new();
    let mut at = 0;
    let mut written = Vec::new();
    loop {
        let n = state.need();
        if input.len() < at + n {
            return (Err(None), written);
        }
        let step = state.step(&input[at..at + n]);
        at += n;
        match step {
            SocksStep::Next { state: s, reply } => {
                written.extend_from_slice(&reply);
                state = s;
            }
            SocksStep::Done { addr, port, reply } => {
                written.extend_from_slice(&reply);
                assert_eq!(at, input.len());
                return (Ok((addr, port)), written);
            }
            SocksStep::Failed { error, reply } => {
                written.extend_from_slice(&reply);
                return (Err(Some(error)), written);
            }
        }
    }
}

#[test]
fn connect_ipv4() {
    let (r, out) = dialogue(&[VER, 1, 0, VER, 1, 0, 1, 1, 2, 3, 4, 0x01, 0xbb]);
    assert_eq!(r, Ok((Addr::Ipv4([1, 2, 3, 4]), 443)));
    assert_eq!(out, vec![VER, 0, VER, 0, 0, 1, 0, 0, 0, 0, 0, 0]);
}

#[test]
fn connect_domain() {
    let host = b"example.com";
    let mut req = vec![VER, 1, 0, VER, 1, 0, 3, host.len() as u8];
    req.extend_from_slice(host);
    req.extend_from_slice(&443u16.to_be_bytes());
    let (r, _) = dialogue(&req);
    assert_eq!(r, Ok((Addr::Domain("example.com".to_string()), 443)));
}

#[test]
fn rejects_non_connect() {
    let (r, out) = dialogue(&[VER, 1, 0, VER, 0x02, 0, 1, 0, 0, 0, 0, 0, 0]);
    assert_eq!(r, Err(Some(SocksError::NotConnect)));
    assert_eq!(out[2..], [VER, 0x07, 0, 1, 0, 0, 0, 0, 0, 0]);
}

#[test]
fn connect_ipv6_without_methods() {
    let mut req = vec![VER, 0, VER, 1, 9, 4];
    req.extend_from_slice(&[7; 16]);
    req.extend_from_slice(&[0, 80]);
    let (r, _) = dialogue(&req);
    assert_eq!(r, Ok((Addr::Ipv6([7; 16]), 80)));
}

#[test]
fn socks_failures() {
    assert_eq!(dialogue(&[4, 1]), (Err(Some(SocksError::NotSocks5)), vec![]));
    assert_eq!(
        dialogue(&[VER, 0, 4, 1, 0, 1]),
        (Err(Some(SocksError::BadRequestVersion)), vec![VER, 0])
    );
    let (r, out) = dialogue(&[VER, 0, VER, 1, 0, 2]);
    assert_eq!(r, Err(Some(SocksError::BadAddressType)));
    assert_eq!(out[3], 0x08);
    let (r, out) = dialogue(&[VER, 0, VER, 1, 0, 3, 2, 0xc3, 0x28]);
    assert_eq!(r, Err(Some(SocksError::DomainNotUtf8)));
    assert_eq!(out, vec![VER, 0]);
    assert_eq!(dialogue(&[VER, 3, 0]).0, Err(None));
}

// --- relay ---

fn open_event(id: u16) -> MuxEvent {
    MuxEvent::Open(AddressFrame::new(id, Cmd::Tcp, 80, Addr::Ipv4([1, 1, 1, 1])))
}

#[test]
fn a_server_connects_and_delivers() {
    let mut r: Relay<&str> = Relay::new(Role::Server);
    match r.on_event(open_event(3)) {
        RelayAction::Connect(af) => assert_eq!(af.stream_id, 3),
        other => panic!("{other:?}"),
    }
    let data = || MuxEvent::Data { stream_id: 3, data: vec![1, 2] };
    assert_eq!(r.on_event(data()), RelayAction::Nothing);
    r.register(3, "sink");
    assert_eq!(r.on_event(data()), RelayAction::Deliver { stream_id: 3, data: vec![1, 2] });
    assert_eq!(r.sink(3), Some(&"sink"));
    assert_eq!(r.sink(4), None);
    assert_eq!(r.on_event(MuxEvent::KeepAlive), RelayAction::Nothing);
    assert_eq!(r.on_event(MuxEvent::Close { stream_id: 3 }), RelayAction::Nothing);
    assert_eq!(r.on_event(data()), RelayAction::Nothing);
    // All data counts, delivered or not.
    assert_eq!(r.stats().bytes_down(), 6);
    assert_eq!(r.connect_failed(9), MuxEvent::Close { stream_id: 9 });
}

#[test]
fn a_client_ignores_openings() {
    let mut r: Relay<u8> = Relay::new(Role::Client);
    assert_eq!(r.on_event(open_event(3)), RelayAction::Nothing);
}

#[test]
fn sockets_feed_the_tunnel() {
    let mut r: Relay<u8> = Relay::new(Role::Client);
    r.register(1, 9);
    r.register(3, 9);
    assert_eq!(
        r.on_socket_read(1, SocketRead::Data(vec![7; 5])),
        (MuxEvent::Data { stream_id: 1, data: vec![7; 5] }, true)
    );
    assert_eq!(r.stats().bytes_up(), 5);
    assert_eq!(r.on_socket_read(1, SocketRead::Eof), (MuxEvent::Close { stream_id: 1 }, false));
    assert_eq!(
        r.on_socket_read(1, SocketRead::Failed),
        (MuxEvent::Close { stream_id: 1 }, false)
    );
    assert_eq!(r.sink(1), Some(&9));
    r.stream_ended(1);
    assert_eq!(r.sink(1), None);
    assert_eq!(r.sink(3), Some(&9));
    r.tunnel_ended();
    assert_eq!(r.sink(3), None);
}

#[test]
fn stream_numbers_are_odd_and_come_round() {
    let mut r: Relay<u8> = Relay::new(Role::Client);
    let mut want: u16 = 1;
    for _ in 0..32768 {
        let (id, ev) = r.open(Addr::Ipv4([1, 2, 3, 4]), 443);
        assert_eq!(id, want);
        assert_eq!(
            ev,
            MuxEvent::Open(AddressFrame::new(id, Cmd::Tcp, 443, Addr::Ipv4([1, 2, 3, 4])))
        );
        want = want.wrapping_add(2);
    }
    assert_eq!(r.open(Addr::Ipv4([0; 4]), 1).0, 1);
}

#[test]
fn idle_times_are_filled() {
    let fill = Cadence::new(10, 0, true);
    let quiet = Cadence::new(10, 0, false);
    let mut r: Relay<u8> = Relay::new(Role::Client);
    assert!(r.idle_tick(&fill));
    r.on_socket_read(1, SocketRead::Data(vec![1]));
    assert!(!r.idle_tick(&quiet));
    // Activity suppresses one sign of life.
    assert!(!r.idle_tick(&fill));
    assert!(r.idle_tick(&fill));
}

#[test]
fn the_rhythm_waits_at_least_a_millisecond() {
    let mut rng = StdRng::seed_from_u64(1);
    assert_eq!(tick_delay_ms(&Cadence::new(0, 0, true), &mut rng), 1);
    assert_eq!(tick_delay_ms(&Cadence::new(40, 0, true), &mut rng), 40);
    for _ in 0..1000 {
        let d = tick_delay_ms(&Cadence::new(1, 3, true), &mut rng);
        assert!((1..=4).contains(&d));
    }
}

#[test]
fn counts_wrap_around() {
    let mut s = TunnelStats::new();
    s.add_up(usize::MAX);
    s.add_up(3);
    s.add_down(4);
    assert_eq!(s.bytes_up(), 2);
    assert_eq!(s.bytes_down(), 4);
}
