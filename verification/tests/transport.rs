use rand::rngs::StdRng;
use rand::SeedableRng;
use vlyness::shaping::sampler::{LenDistribution, LenSampler};
use vlyness::transport::mux::{decode, encode, MuxError, MuxEvent};
use vlyness::transport::record::{body_len, decode_record, encode_record, RecordTooLong, MAX_RECORD};
use vlyness::transport::session::{
    client_finish, client_hello, open_record, pad_for_target, rekey_due, server_answer,
    stream_events, SendState, SessionError, DEFAULT_REKEY_FRAMES, MAX_STREAM_CHUNK, REKEY_BYTES,
};
use vlyness::wire::address::{Addr, AddressError, AddressFrame, Cmd};
use vlyness::wire::frame::{Frame, FrameError, FrameType, HEADER_LEN};
use vlyness::wire::noise::{generate_keypair, NoiseError, Transport, MAX_PLAINTEXT};

// --- events ---

fn roundtrip(ev: MuxEvent) {
    let frame = encode(&ev);
    assert_eq!(decode(&frame).unwrap(), ev);
}

#[test]
fn open_roundtrips() {
    let af = AddressFrame::new(3, Cmd::Tcp, 443, Addr::Ipv4([1, 1, 1, 1]));
    roundtrip(MuxEvent::Open(af));
}

#[test]
fn data_roundtrips() {
    roundtrip(MuxEvent::Data { stream_id: 42, data: b"payload".to_vec() });
    roundtrip(MuxEvent::Data { stream_id: 0, data: vec![] });
}

#[test]
fn close_and_keepalive_roundtrip() {
    roundtrip(MuxEvent::Close { stream_id: 7 });
    roundtrip(MuxEvent::KeepAlive);
}

#[test]
fn data_frame_without_stream_id_is_error() {
    let frame = Frame::new(FrameType::StreamData, vec![0x01]);
    assert_eq!(decode(&frame), Err(MuxError::MissingStreamId(FrameType::StreamData)));
}

#[test]
fn event_frames_are_exact() {
    let f = encode(&MuxEvent::Data { stream_id: 0x0102, data: vec![9] });
    assert_eq!(f, Frame::new(FrameType::StreamData, vec![1, 2, 9]));
    let f = encode(&MuxEvent::Close { stream_id: 0x0a0b });
    assert_eq!(f, Frame::new(FrameType::StreamClose, vec![0x0a, 0x0b]));
    // What follows the number of a stream to close is ignored.
    let f = Frame::new(FrameType::StreamClose, vec![0, 5, 6, 7]);
    assert_eq!(decode(&f), Ok(MuxEvent::Close { stream_id: 5 }));
}

#[test]
fn frames_that_are_no_events() {
    for t in [FrameType::StreamOpen, FrameType::Rekey] {
        let f = Frame::new(t, vec![]);
        assert_eq!(decode(&f), Err(MuxError::UnexpectedType(t)));
    }
    let f = Frame::new(FrameType::Address, vec![0]);
    assert_eq!(
        decode(&f),
        Err(MuxError::BadAddress(AddressError::Truncated { field: "stream_id" }))
    );
    let f = Frame::new(FrameType::StreamClose, vec![]);
    assert_eq!(decode(&f), Err(MuxError::MissingStreamId(FrameType::StreamClose)));
}

// --- records ---

#[test]
fn roundtrip_over_duplex() {
    let payloads: Vec<Vec<u8>> =
        vec![b"".to_vec(), b"x".to_vec(), vec![0xAB; 1000], vec![0u8; MAX_RECORD]];
    let mut stream = Vec::new();
    for p in &payloads {
        stream.extend_from_slice(&encode_record(p).unwrap());
    }
    let mut at = 0;
    for want in payloads {
        let (got, used) = decode_record(&stream[at..]).unwrap();
        assert_eq!(got, want);
        assert_eq!(body_len([stream[at], stream[at + 1]]), want.len());
        at += used;
    }
    assert_eq!(at, stream.len());
}

#[test]
fn oversize_body_is_rejected() {
    let big = vec![0u8; MAX_RECORD + 1];
    assert_eq!(encode_record(&big), Err(RecordTooLong(MAX_RECORD + 1)));
}

#[test]
fn a_part_of_a_record_is_none() {
    let rec = encode_record(&[1, 2, 3]).unwrap();
    assert_eq!(rec, vec![0, 3, 1, 2, 3]);
    for n in 0..rec.len() {
        assert_eq!(decode_record(&rec[..n]), None);
    }
}

// --- sessions ---

const AUTH: [u8; 44] = [0x5a; 44];

fn body(rec: &[u8]) -> Vec<u8> {
    let (b, used) = decode_record(rec).unwrap();
    assert_eq!(used, rec.len());
    b
}

fn session() -> (Transport, Transport) {
    let server = generate_keypair().unwrap();
    let client = generate_keypair().unwrap();
    let (ini, hello) = client_hello(&server.public, &client.private, &AUTH).unwrap();
    let (server_t, answer) = server_answer(&server.private, &AUTH, &body(&hello)).unwrap();
    let client_t = client_finish(ini, &body(&answer)).unwrap();
    (client_t, server_t)
}

fn sampled(seed: u64) -> SendState {
    SendState::with_rng(
        Some(LenSampler::new(LenDistribution::media_abr_v1())),
        StdRng::seed_from_u64(seed),
    )
}

/// Sends a frame and, if one is due, the announcement of a new key; returns what the
/// other side hands on.
fn send(
    out: &mut SendState,
    from: &mut Transport,
    to: &mut Transport,
    f: &Frame,
) -> (Option<Frame>, bool) {
    let rec = out.seal_frame(from, f).unwrap();
    let got = open_record(to, &body(&rec)).unwrap();
    let Some(rec) = out.record_sent(from).unwrap() else {
        return (got, false);
    };
    assert_eq!(open_record(to, &body(&rec)).unwrap(), None);
    assert_eq!(out.record_sent(from).unwrap(), None);
    (got, true)
}

/// One side of a session that answers every piece of data with the same piece.
fn echo(
    out: &mut SendState,
    io: &mut Transport,
    opened: &mut Vec<AddressFrame>,
    rec: &[u8],
) -> Option<Vec<u8>> {
    let f = open_record(io, &body(rec)).unwrap()?;
    match decode(&f).unwrap() {
        MuxEvent::Open(af) => {
            opened.push(af);
            None
        }
        MuxEvent::Data { stream_id, data } => {
            let answer = encode(&MuxEvent::Data { stream_id, data });
            let rec = out.seal_frame(io, &answer).unwrap();
            assert!(!out.frame_sent());
            Some(rec)
        }
        _ => None,
    }
}

#[test]
fn full_session_open_echo_close() {
    let (mut c, mut s) = session();
    let mut out_c = SendState::new(Some(LenSampler::new(LenDistribution::media_abr_v1())));
    let mut out_s = SendState::new(None);
    let mut opened = Vec::new();

    let af = AddressFrame::new(1, Cmd::Tcp, 443, Addr::Ipv4([1, 1, 1, 1]));
    let rec = out_c.seal_frame(&mut c, &encode(&MuxEvent::Open(af.clone()))).unwrap();
    assert_eq!(echo(&mut out_s, &mut s, &mut opened, &rec), None);

    for payload in [vec![b'a'; 5], vec![0xAB; 5000], b"vlyness".to_vec()] {
        let ev = MuxEvent::Data { stream_id: 1, data: payload };
        let rec = out_c.seal_frame(&mut c, &encode(&ev)).unwrap();
        let back = echo(&mut out_s, &mut s, &mut opened, &rec).unwrap();
        let f = open_record(&mut c, &body(&back)).unwrap().unwrap();
        assert_eq!(decode(&f), Ok(ev));
    }

    let rec = out_c.seal_frame(&mut c, &encode(&MuxEvent::Close { stream_id: 1 })).unwrap();
    let f = open_record(&mut s, &body(&rec)).unwrap().unwrap();
    assert_eq!(decode(&f), Ok(MuxEvent::Close { stream_id: 1 }));
    assert_eq!(opened, vec![af]);
}

#[test]
fn rekey_is_transparent_across_many_frames() {
    let (mut c, mut s) = session();
    let mut out_c = SendState::new(None);
    let mut out_s = SendState::new(None);
    out_c.set_rekey_interval(3);
    let mut opened = Vec::new();

    let af = AddressFrame::new(1, Cmd::Tcp, 443, Addr::Ipv4([9, 9, 9, 9]));
    let rec = out_c.seal_frame(&mut c, &encode(&MuxEvent::Open(af))).unwrap();
    assert_eq!(echo(&mut out_s, &mut s, &mut opened, &rec), None);
    assert!(!out_c.frame_sent());

    for i in 0u32..20 {
        let ev = MuxEvent::Data { stream_id: 1, data: format!("msg-{i}").into_bytes() };
        let rec = out_c.seal_frame(&mut c, &encode(&ev)).unwrap();
        let back = echo(&mut out_s, &mut s, &mut opened, &rec).unwrap();
        let due = out_c.frame_sent();
        assert_eq!(due, i % 3 == 1);
        if due {
            let rec = out_c.seal_rekey(&mut c).unwrap();
            out_c.rekeyed(&mut c);
            assert_eq!(open_record(&mut s, &body(&rec)).unwrap(), None);
        }
        let f = open_record(&mut c, &body(&back)).unwrap().unwrap();
        assert_eq!(decode(&f), Ok(ev), "сообщение {i} должно совпасть после рекеев");
    }
}

#[test]
fn full_duplex_concurrent_send_and_recv() {
    let (mut c, mut s) = session();
    let mut out_c = SendState::new(None).split_off();
    let mut out_s = SendState::new(None);
    let mut opened = Vec::new();

    let af = AddressFrame::new(1, Cmd::Tcp, 443, Addr::Ipv4([8, 8, 8, 8]));
    let rec = out_c.seal_frame(&mut c, &encode(&MuxEvent::Open(af))).unwrap();
    assert_eq!(echo(&mut out_s, &mut s, &mut opened, &rec), None);

    // All fifty are sealed before the first answer is opened.
    let events: Vec<MuxEvent> = (0u32..50)
        .map(|i| MuxEvent::Data { stream_id: 1, data: format!("m{i}").into_bytes() })
        .collect();
    let sent: Vec<Vec<u8>> =
        events.iter().map(|ev| out_c.seal_frame(&mut c, &encode(ev)).unwrap()).collect();
    let back: Vec<Vec<u8>> = sent
        .iter()
        .map(|rec| echo(&mut out_s, &mut s, &mut opened, rec).unwrap())
        .collect();
    assert_eq!(back.len(), 50);
    for (rec, ev) in back.iter().zip(&events) {
        let f = open_record(&mut c, &body(rec)).unwrap().unwrap();
        assert_eq!(&decode(&f).unwrap(), ev);
    }
}

#[test]
fn large_stream_is_fragmented_and_reassembled() {
    let big: Vec<u8> = (0..100_000).map(|i| (i * 31 + 7) as u8).collect();
    let events = stream_events(1, &big);
    assert_eq!(events.len(), 7);
    let (mut c, mut s) = session();
    let mut out = sampled(5);
    let mut assembled: Vec<u8> = Vec::new();
    for ev in &events {
        let (got, _) = send(&mut out, &mut c, &mut s, &encode(ev));
        match decode(&got.unwrap()) {
            Ok(MuxEvent::Data { stream_id, data }) => {
                assert_eq!(stream_id, 1);
                assert!(data.len() <= MAX_STREAM_CHUNK && !data.is_empty());
                assembled.extend_from_slice(&data);
            }
            other => panic!("{other:?}"),
        }
    }
    assert_eq!(assembled, big, "склеенный поток должен совпасть с исходным");
}

#[test]
fn wrong_auth_prologue_fails_handshake() {
    let server = generate_keypair().unwrap();
    let client = generate_keypair().unwrap();
    let (_, hello) = client_hello(&server.public, &client.private, &AUTH).unwrap();
    let bad_auth = [0u8; 44];
    assert!(matches!(
        server_answer(&server.private, &bad_auth, &body(&hello)),
        Err(SessionError::Noise(NoiseError::Snow(_)))
    ));
    // So does the key of another server.
    let other = generate_keypair().unwrap();
    assert!(server_answer(&other.private, &AUTH, &body(&hello)).is_err());
}

#[test]
fn both_directions_change_keys_on_their_own() {
    let (mut c, mut s) = session();
    let mut out_c = sampled(3);
    let mut out_s = sampled(4).split_off();
    out_c.set_rekey_interval(2);
    out_s.set_rekey_interval(5);
    for i in 0..30u8 {
        let f = encode(&MuxEvent::Data { stream_id: 1, data: vec![i] });
        assert_eq!(
            send(&mut out_c, &mut c, &mut s, &f),
            (Some(f.clone()), (i + 1) % 2 == 0)
        );
        let g = encode(&MuxEvent::Data { stream_id: 2, data: vec![i; 9] });
        assert_eq!(
            send(&mut out_s, &mut s, &mut c, &g),
            (Some(g.clone()), (i + 1) % 5 == 0)
        );
    }
}

#[test]
fn fragments_at_the_edges() {
    assert_eq!(stream_events(1, &[]), vec![MuxEvent::Data { stream_id: 1, data: vec![] }]);
    assert_eq!(stream_events(1, &vec![1; MAX_STREAM_CHUNK]).len(), 1);
    let two = stream_events(1, &vec![1; MAX_STREAM_CHUNK + 1]);
    assert_eq!(two.len(), 2);
    assert_eq!(two[1], MuxEvent::Data { stream_id: 1, data: vec![1] });
}

#[test]
fn padding_reaches_the_target_and_fits() {
    assert_eq!(pad_for_target(100, 200), 95);
    assert_eq!(pad_for_target(195, 200), 0);
    assert_eq!(pad_for_target(0, 1_000_000), (MAX_PLAINTEXT - HEADER_LEN) as u16);
    assert_eq!(pad_for_target(MAX_PLAINTEXT - HEADER_LEN - 3, 1_000_000), 3);
    assert_eq!(pad_for_target(MAX_PLAINTEXT, 1_000_000), 0);
}

#[test]
fn padding_is_drawn_by_the_sampler() {
    let mut out = sampled(6);
    let mut s = LenSampler::new(LenDistribution::media_abr_v1());
    let mut rng = StdRng::seed_from_u64(6);
    for _ in 0..200 {
        let target = s.sample(&mut rng);
        assert_eq!(out.choose_pad(30), pad_for_target(30, target));
    }
    assert_eq!(SendState::new(None).choose_pad(30), 0);
}

#[test]
fn frames_that_cannot_be_sent() {
    let (mut c, _) = session();
    let mut out = SendState::new(None);
    let f = Frame::new(FrameType::StreamData, vec![0; 65536]);
    assert!(matches!(
        out.seal_frame(&mut c, &f),
        Err(SessionError::Frame(FrameError::PayloadTooLarge(65536)))
    ));
    let f = Frame::new(FrameType::StreamData, vec![0; MAX_PLAINTEXT]);
    assert!(matches!(
        out.seal_frame(&mut c, &f),
        Err(SessionError::Noise(NoiseError::PlaintextTooLarge(n))) if n == MAX_PLAINTEXT + 5
    ));
}

#[test]
fn records_that_hold_no_frame() {
    let (mut c, mut s) = session();
    let ct = c.seal(&[1, 0, 9, 0, 0]).unwrap();
    assert!(matches!(
        open_record(&mut s, &ct),
        Err(SessionError::Frame(FrameError::LengthMismatch { declared: 14, actual: 5 }))
    ));
    assert!(matches!(
        open_record(&mut s, b"not sealed at all, and long"),
        Err(SessionError::Noise(NoiseError::Snow(_)))
    ));
}

#[test]
fn the_interval_is_at_least_one() {
    let mut out = SendState::new(None);
    assert!(!out.frame_sent());
    out.set_rekey_interval(0);
    assert!(out.frame_sent());
}

#[test]
fn a_key_lasts_an_interval() {
    let mut out = SendState::new(None);
    out.set_rekey_interval(4);
    let due: Vec<bool> = (0..5).map(|_| out.frame_sent()).collect();
    assert_eq!(due, vec![false, false, false, true, true]);
}

#[test]
fn a_split_session_goes_on_counting() {
    let (mut c, mut s) = session();
    let mut out = SendState::new(None);
    out.set_rekey_interval(3);
    let f = encode(&MuxEvent::KeepAlive);
    for _ in 0..2 {
        assert_eq!(send(&mut out, &mut c, &mut s, &f), (Some(f.clone()), false));
    }
    let mut out = out.split_off();
    let due: Vec<bool> = (0..4).map(|_| send(&mut out, &mut c, &mut s, &f).1).collect();
    assert_eq!(due, vec![true, false, false, true]);
}

#[test]
fn a_key_wears_out_by_frames_or_bytes() {
    assert_eq!(DEFAULT_REKEY_FRAMES, 1 << 20);
    assert_eq!(REKEY_BYTES, 1 << 34);
    assert!(!rekey_due(2, 3, (1 << 34) - 1));
    assert!(rekey_due(3, 3, 0));
    assert!(rekey_due(0, 3, 1 << 34));
    assert!(rekey_due(4, 3, u64::MAX));
}

#[test]
fn the_announcement_comes_under_the_old_key() {
    let (mut c, mut s) = session();
    let mut out = SendState::new(None);
    out.set_rekey_interval(1);
    let f = encode(&MuxEvent::Close { stream_id: 1 });
    let first = out.seal_frame(&mut c, &f).unwrap();
    let announcement = out.record_sent(&mut c).unwrap().unwrap();
    assert_eq!(out.record_sent(&mut c).unwrap(), None);
    let second = out.seal_frame(&mut c, &f).unwrap();
    assert_eq!(open_record(&mut s, &body(&first)).unwrap(), Some(f.clone()));
    // Before the announcement the receiver has the old key, which does not open the
    // next frame.
    assert!(open_record(&mut s, &body(&second)).is_err());
    assert_eq!(open_record(&mut s, &body(&announcement)).unwrap(), None);
    assert_eq!(open_record(&mut s, &body(&second)).unwrap(), Some(f));
}
