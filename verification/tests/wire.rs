use vlyness::wire::address::{Addr, AddressError, AddressFrame, Cmd, MAX_DOMAIN_LEN};
use vlyness::wire::auth::{
    epoch_at, epoch_now, AuthError, AuthToken, EPOCH_SECS, NONCE_LEN, PSK_LEN, SALT_LEN,
    TOKEN_B64_LEN, TOKEN_LEN,
};
use vlyness::wire::frame::{
    Frame, FrameError, FrameType, AEAD_TAG_LEN, HEADER_LEN, MAX_FIELD, RECORD_LEN_PREFIX,
};
use vlyness::wire::noise::{
    generate_keypair, Initiator, NoiseError, Responder, Transport, MAX_PLAINTEXT, TAG_LEN,
};
use vlyness::wire::replay::{ReplayGuard, KEEP_EPOCHS};

// --- addresses ---

fn roundtrip(f: &AddressFrame) {
    let buf = f.encode().unwrap();
    assert_eq!(&AddressFrame::decode(&buf).unwrap(), f);
}

#[test]
fn roundtrip_ipv4() {
    roundtrip(&AddressFrame::new(1, Cmd::Tcp, 443, Addr::Ipv4([93, 184, 216, 34])));
}

#[test]
fn roundtrip_ipv6() {
    // 2001:4860:4860::8888
    let ip = [0x20, 0x01, 0x48, 0x60, 0x48, 0x60, 0, 0, 0, 0, 0, 0, 0, 0, 0x88, 0x88];
    roundtrip(&AddressFrame::new(65535, Cmd::Udp, 53, Addr::Ipv6(ip)));
}

#[test]
fn roundtrip_domain() {
    roundtrip(&AddressFrame::new(7, Cmd::Tcp, 80, Addr::Domain("example.com".to_string())));
}

#[test]
fn roundtrip_max_length_domain() {
    let d = "a".repeat(MAX_DOMAIN_LEN);
    roundtrip(&AddressFrame::new(2, Cmd::Tcp, 8080, Addr::Domain(d)));
}

#[test]
fn encode_rejects_overlong_domain() {
    let d = "a".repeat(MAX_DOMAIN_LEN + 1);
    let f = AddressFrame::new(1, Cmd::Tcp, 443, Addr::Domain(d));
    assert_eq!(f.encode(), Err(AddressError::DomainTooLong(MAX_DOMAIN_LEN + 1)));
}

#[test]
fn decode_rejects_bad_cmd() {
    let buf = [0x00, 0x01, 0x09, 0x01, 0xbb, 0x01, 1, 2, 3, 4];
    assert_eq!(AddressFrame::decode(&buf), Err(AddressError::BadCmd(0x09)));
}

#[test]
fn decode_rejects_bad_addr_type() {
    let buf = [0x00, 0x01, 0x01, 0x01, 0xbb, 0x99];
    assert_eq!(AddressFrame::decode(&buf), Err(AddressError::BadAddrType(0x99)));
}

#[test]
fn decode_rejects_truncated() {
    let buf = [0x00, 0x01, 0x01, 0x01, 0xbb, 0x01, 1, 2];
    assert_eq!(AddressFrame::decode(&buf), Err(AddressError::Truncated { field: "ipv4" }));
}

#[test]
fn decode_rejects_trailing_bytes() {
    let mut buf =
        AddressFrame::new(1, Cmd::Tcp, 443, Addr::Ipv4([127, 0, 0, 1])).encode().unwrap();
    buf.push(0xff);
    assert_eq!(AddressFrame::decode(&buf), Err(AddressError::TrailingBytes(1)));
}

#[test]
fn address_bytes_are_exact() {
    let f = AddressFrame::new(0x0102, Cmd::Udp, 0x1f90, Addr::Domain("ab".to_string()));
    assert_eq!(f.encode().unwrap(), vec![1, 2, 2, 0x1f, 0x90, 2, 2, b'a', b'b']);
    let f = AddressFrame::new(3, Cmd::Tcp, 443, Addr::Ipv4([1, 2, 3, 4]));
    assert_eq!(f.encode().unwrap(), vec![0, 3, 1, 1, 0xbb, 1, 1, 2, 3, 4]);
}

#[test]
fn address_truncation_names_the_field() {
    let full = [0u8, 1, 1, 1, 0xbb, 2, 3, b'a', b'b', b'c'];
    let fields = [
        "stream_id", "stream_id", "cmd", "port", "port", "addr_type", "domain_len", "domain",
        "domain", "domain",
    ];
    for n in 0..full.len() {
        assert_eq!(
            AddressFrame::decode(&full[..n]),
            Err(AddressError::Truncated { field: fields[n] }),
            "{n} bytes"
        );
    }
    assert!(AddressFrame::decode(&full).is_ok());
    let v6 = [0u8, 1, 1, 1, 0xbb, 3, 9];
    assert_eq!(AddressFrame::decode(&v6), Err(AddressError::Truncated { field: "ipv6" }));
}

#[test]
fn address_domain_must_be_utf8() {
    let buf = [0u8, 1, 1, 1, 0xbb, 2, 2, 0xc3, 0x28];
    assert_eq!(AddressFrame::decode(&buf), Err(AddressError::DomainNotUtf8));
    let f = AddressFrame::new(1, Cmd::Tcp, 443, Addr::Domain("пример.рф".to_string()));
    roundtrip(&f);
}

// --- tokens ---

fn psk() -> [u8; PSK_LEN] {
    let mut p = [0u8; PSK_LEN];
    for (i, b) in p.iter_mut().enumerate() {
        *b = i as u8;
    }
    p
}

#[test]
fn roundtrip_encode_decode() {
    let t = AuthToken::build(&psk(), 100);
    let s = t.encode();
    let back = AuthToken::decode(&s).ok().unwrap();
    assert!(t == back);
}

#[test]
fn token_length_is_constant() {
    for epoch in [0u64, 1, 12345, u32::MAX as u64] {
        let s = AuthToken::build(&psk(), epoch).encode();
        assert_eq!(s.len(), TOKEN_B64_LEN, "epoch={epoch}");
    }
    assert_eq!(TOKEN_LEN, 44);
}

#[test]
fn verify_accepts_fresh_token() {
    let epoch = epoch_now();
    let t = AuthToken::build(&psk(), epoch);
    assert_eq!(t.verify(&psk(), epoch), Some(epoch));
}

#[test]
fn verify_tolerates_clock_skew() {
    let epoch = 500u64;
    let t = AuthToken::build(&psk(), epoch);
    assert_eq!(t.verify(&psk(), 499), Some(epoch));
    assert_eq!(t.verify(&psk(), 500), Some(epoch));
    assert_eq!(t.verify(&psk(), 501), Some(epoch));
    assert_eq!(t.verify(&psk(), 498), None);
    assert_eq!(t.verify(&psk(), 502), None);
}

#[test]
fn verify_rejects_wrong_psk() {
    let epoch = 42u64;
    let t = AuthToken::build(&psk(), epoch);
    let mut other = psk();
    other[0] ^= 0xff;
    assert_eq!(t.verify(&other, epoch), None);
}

#[test]
fn verify_rejects_tampered_tag() {
    let epoch = 7u64;
    let mut t = AuthToken::build(&psk(), epoch);
    t.tag[0] ^= 0x01;
    assert_eq!(t.verify(&psk(), epoch), None);
}

#[test]
fn decode_rejects_bad_length() {
    assert!(matches!(AuthToken::decode("short"), Err(AuthError::BadLength { .. })));
}

#[test]
fn distinct_sessions_share_no_observable_bytes() {
    let epoch = epoch_now();
    let a = AuthToken::build(&psk(), epoch).encode();
    let b = AuthToken::build(&psk(), epoch).encode();
    let c = AuthToken::build(&psk(), epoch).encode();
    assert_ne!(a, b);
    assert_ne!(b, c);
    assert_ne!(a, c);
}

#[test]
fn known_answer_vector() {
    let salt = [0x11u8; SALT_LEN];
    let nonce = [0x22u8; NONCE_LEN];
    let t = AuthToken::build_with(&psk(), 1, salt, nonce);
    let s = t.encode();
    assert_eq!(s.len(), TOKEN_B64_LEN);
    let t2 = AuthToken::build_with(&psk(), 1, salt, nonce);
    assert_eq!(s, t2.encode());
    assert_eq!(t.verify(&psk(), 1), Some(1));
}

#[test]
fn token_text_is_exact() {
    let t = AuthToken::build_with(&psk(), 1, [0x11; SALT_LEN], [0x22; NONCE_LEN]);
    assert_eq!(t.encode(), "ERERERERERERERERERERESIiIiIiIiIiIiIiIjfyX-74-mszNSh7arRuTwA");
    let mut raw = vec![0x11u8; 16];
    raw.extend_from_slice(&[0x22; 12]);
    raw.extend_from_slice(&t.tag);
    assert_eq!(t.raw().to_vec(), raw);
}

#[test]
fn token_text_must_be_base64url() {
    let bad = "!".repeat(TOKEN_B64_LEN);
    assert!(matches!(AuthToken::decode(&bad), Err(AuthError::BadEncoding)));
    // Bits beyond the last byte must be zero.
    let mut s = AuthToken::build_with(&psk(), 1, [0; SALT_LEN], [0; NONCE_LEN]).encode();
    s.pop();
    s.push('B');
    assert!(matches!(AuthToken::decode(&s), Err(AuthError::BadEncoding)));
    assert!(matches!(
        AuthToken::decode("short"),
        Err(AuthError::BadLength { expected: 59, got: 5 })
    ));
}

#[test]
fn verify_wraps_at_the_ends_of_the_epochs() {
    let t = AuthToken::build(&psk(), u64::MAX);
    assert_eq!(t.verify(&psk(), 0), Some(u64::MAX));
    let t = AuthToken::build(&psk(), 0);
    assert_eq!(t.verify(&psk(), u64::MAX), Some(0));
}

#[test]
fn epochs_are_hours() {
    assert_eq!(epoch_at(0), 0);
    assert_eq!(epoch_at(3599), 0);
    assert_eq!(epoch_at(3600), 1);
    assert_eq!(epoch_at(1_700_000_000), 472_222);
    assert!(epoch_now() > epoch_at(1_700_000_000));
    assert_eq!(EPOCH_SECS, 3600);
}

#[test]
fn token_is_not_printed() {
    assert_eq!(AuthToken::build(&psk(), 1).redacted(), "AuthToken(..)");
}

// --- frames ---

#[test]
fn roundtrip_no_padding() {
    let f = Frame::new(FrameType::StreamData, b"hello vlyness".to_vec());
    let buf = f.encode(0).unwrap();
    assert_eq!(buf.len(), HEADER_LEN + f.payload.len());
    assert_eq!(Frame::decode(&buf).unwrap(), f);
}

#[test]
fn roundtrip_with_padding_strips_it() {
    let f = Frame::new(FrameType::StreamData, b"abc".to_vec());
    let buf = f.encode(200).unwrap();
    assert_eq!(buf.len(), HEADER_LEN + 3 + 200);
    assert_eq!(Frame::decode(&buf).unwrap(), f);
}

#[test]
fn keepalive_is_pure_padding() {
    let f = Frame::keepalive();
    let buf = f.encode(512).unwrap();
    assert_eq!(buf.len(), HEADER_LEN + 512);
    let d = Frame::decode(&buf).unwrap();
    assert_eq!(d.ftype, FrameType::KeepAlive);
    assert!(d.payload.is_empty());
}

#[test]
fn all_types_roundtrip() {
    for t in [
        FrameType::StreamData,
        FrameType::StreamOpen,
        FrameType::StreamClose,
        FrameType::KeepAlive,
        FrameType::Rekey,
        FrameType::Address,
    ] {
        let f = Frame::new(t, vec![1, 2, 3]);
        let buf = f.encode(7).unwrap();
        assert_eq!(Frame::decode(&buf).unwrap(), f);
    }
}

#[test]
fn decode_rejects_short_buffer() {
    assert_eq!(Frame::decode(&[0x01, 0x00]), Err(FrameError::TooShort(2)));
}

#[test]
fn decode_rejects_bad_type() {
    let buf = [0xff, 0x00, 0x00, 0x00, 0x00];
    assert_eq!(Frame::decode(&buf), Err(FrameError::BadType(0xff)));
}

#[test]
fn decode_rejects_length_mismatch() {
    let buf = [0x01, 0x00, 0x0a, 0x00, 0x00];
    assert_eq!(
        Frame::decode(&buf),
        Err(FrameError::LengthMismatch { declared: HEADER_LEN + 10, actual: HEADER_LEN })
    );
}

#[test]
fn max_payload_roundtrips() {
    let f = Frame::new(FrameType::StreamData, vec![0xAB; MAX_FIELD]);
    let buf = f.encode(0).unwrap();
    assert_eq!(Frame::decode(&buf).unwrap(), f);
}

#[test]
fn wire_len_accounts_prefix_and_tag() {
    assert_eq!(Frame::plaintext_len(3, 10), 18);
    assert_eq!(Frame::wire_len(3, 10), 18 + RECORD_LEN_PREFIX + AEAD_TAG_LEN);
}

#[test]
fn frame_bytes_are_exact() {
    let f = Frame::new(FrameType::Address, vec![9, 8]);
    assert_eq!(f.encode(3).unwrap(), vec![6, 0, 2, 0, 3, 9, 8, 0, 0, 0]);
}

#[test]
fn frame_payload_has_a_limit() {
    let f = Frame::new(FrameType::StreamData, vec![0; MAX_FIELD + 1]);
    assert_eq!(f.encode(0), Err(FrameError::PayloadTooLarge(MAX_FIELD + 1)));
}

// --- Noise ---

fn handshake() -> (Transport, Transport, Vec<u8>, Vec<u8>) {
    let server = generate_keypair().unwrap();
    let client = generate_keypair().unwrap();
    let auth = [0x5au8; 44];

    let mut ini = Initiator::new(&server.public, &client.private, &auth).unwrap();
    let mut resp = Responder::new(&server.private, &auth).unwrap();

    let msg1 = ini.write_msg1(b"payload_0").unwrap();
    let p0 = resp.read_msg1(&msg1).unwrap();

    let (resp_t, msg2) = resp.write_msg2(b"payload_1").unwrap();
    let (ini_t, p1) = ini.read_msg2(&msg2).unwrap();

    (ini_t, resp_t, p0, p1)
}

#[test]
fn zero_rtt_payloads_delivered() {
    let (_ic, _sc, p0, p1) = handshake();
    assert_eq!(p0, b"payload_0");
    assert_eq!(p1, b"payload_1");
}

#[test]
fn transport_roundtrip_both_directions() {
    let (mut ini, mut resp, _, _) = handshake();

    let ct = ini.seal(b"from client").unwrap();
    assert_eq!(ct.len(), "from client".len() + TAG_LEN);
    assert_eq!(resp.open(&ct).unwrap(), b"from client");

    let ct = resp.seal(b"from server").unwrap();
    assert_eq!(ini.open(&ct).unwrap(), b"from server");
}

#[test]
fn full_stack_carries_address_frame() {
    let (mut ini, mut resp, _, _) = handshake();

    let af = AddressFrame::new(1, Cmd::Tcp, 443, Addr::Ipv4([1, 1, 1, 1]));
    let frame = Frame::new(FrameType::Address, af.encode().unwrap());
    let plaintext = frame.encode(37).unwrap();

    let sealed = ini.seal(&plaintext).unwrap();
    let opened = resp.open(&sealed).unwrap();

    let frame_back = Frame::decode(&opened).unwrap();
    assert_eq!(frame_back.ftype, FrameType::Address);
    let af_back = AddressFrame::decode(&frame_back.payload).unwrap();
    assert_eq!(af_back, af);
}

#[test]
fn wrong_prologue_breaks_handshake() {
    let server = generate_keypair().unwrap();
    let client = generate_keypair().unwrap();

    let mut ini = Initiator::new(&server.public, &client.private, b"AUTH-A").unwrap();
    let mut resp = Responder::new(&server.private, b"AUTH-B").unwrap();

    let msg1 = ini.write_msg1(b"x").unwrap();
    assert!(resp.read_msg1(&msg1).is_err());
}

#[test]
fn tampered_ciphertext_fails_open() {
    let (mut ini, mut resp, _, _) = handshake();
    let mut ct = ini.seal(b"secret").unwrap();
    ct[0] ^= 0x01;
    assert!(resp.open(&ct).is_err());
}

#[test]
fn seal_rejects_oversize_plaintext() {
    let (mut ini, _, _, _) = handshake();
    let big = vec![0u8; MAX_PLAINTEXT + 1];
    assert!(matches!(ini.seal(&big), Err(NoiseError::PlaintextTooLarge(_))));
}

#[test]
fn handshake_messages_have_their_overhead() {
    let server = generate_keypair().unwrap();
    let client = generate_keypair().unwrap();
    assert_eq!(server.public.len(), 32);
    assert_eq!(server.private.len(), 32);
    let mut ini = Initiator::new(&server.public, &client.private, b"p").unwrap();
    let mut resp = Responder::new(&server.private, b"p").unwrap();
    let msg1 = ini.write_msg1(b"12345").unwrap();
    assert_eq!(msg1.len(), 5 + 96);
    // A second first message is refused.
    assert!(matches!(ini.write_msg1(b""), Err(NoiseError::Snow(_))));
    assert_eq!(resp.read_msg1(&msg1).unwrap(), b"12345");
    let (_, msg2) = resp.write_msg2(b"").unwrap();
    assert_eq!(msg2.len(), 48);
}

#[test]
fn handshake_payload_has_a_limit() {
    let server = generate_keypair().unwrap();
    let client = generate_keypair().unwrap();
    let mut ini = Initiator::new(&server.public, &client.private, b"").unwrap();
    assert!(ini.write_msg1(&vec![0; 65535 - 95]).is_err());
    // The refusal left the handshake as it was.
    let mut ini = ini;
    let msg1 = ini.write_msg1(&vec![0; 65535 - 96]).unwrap();
    assert_eq!(msg1.len(), 65535);
    let mut resp = Responder::new(&server.private, b"").unwrap();
    assert_eq!(resp.read_msg1(&msg1).unwrap().len(), 65535 - 96);
}

#[test]
fn rekeying_both_sides_keeps_them_in_step() {
    let (mut ini, mut resp, _, _) = handshake();
    for round in 0..3u8 {
        let ct = ini.seal(&[round]).unwrap();
        assert_eq!(resp.open(&ct).unwrap(), vec![round]);
        ini.rekey_outgoing();
        resp.rekey_incoming();
        // The other direction is untouched.
        let ct = resp.seal(&[round, 1]).unwrap();
        assert_eq!(ini.open(&ct).unwrap(), vec![round, 1]);
    }
    // One side alone does not do.
    ini.rekey_outgoing();
    let ct = ini.seal(b"x").unwrap();
    assert!(resp.open(&ct).is_err());
    // A refusal does not count: with the key the record opens.
    resp.rekey_incoming();
    assert_eq!(resp.open(&ct).unwrap(), b"x");
}

#[test]
fn largest_record_fits() {
    let (mut ini, mut resp, _, _) = handshake();
    let ct = ini.seal(&vec![7; MAX_PLAINTEXT]).unwrap();
    assert_eq!(ct.len(), 65535);
    assert_eq!(resp.open(&ct).unwrap(), vec![7; MAX_PLAINTEXT]);
    assert!(resp.open(&[0; 15]).is_err());
    assert!(resp.open(&vec![0; 65536]).is_err());
}

// --- replays ---

#[test]
fn first_sighting_is_fresh_repeat_is_replay() {
    let mut g = ReplayGuard::new();
    let nonce = [1u8; NONCE_LEN];
    assert!(g.observe(100, &nonce), "первый раз — свежий");
    assert!(!g.observe(100, &nonce), "повтор — реплей");
    assert!(!g.observe(100, &nonce), "и снова реплей");
}

#[test]
fn different_nonces_same_epoch_are_independent() {
    let mut g = ReplayGuard::new();
    assert!(g.observe(5, &[1u8; NONCE_LEN]));
    assert!(g.observe(5, &[2u8; NONCE_LEN]));
    assert!(!g.observe(5, &[1u8; NONCE_LEN]));
}

#[test]
fn same_nonce_different_epoch_tracked_separately() {
    let mut g = ReplayGuard::new();
    let nonce = [7u8; NONCE_LEN];
    assert!(g.observe(10, &nonce));
    assert!(g.observe(11, &nonce));
}

#[test]
fn old_epochs_are_pruned() {
    let mut g = ReplayGuard::new();
    for epoch in 0..10u64 {
        g.observe(epoch, &[epoch as u8; NONCE_LEN]);
    }
    assert_eq!(g.tracked_epochs(), KEEP_EPOCHS);
    assert!(g.observe(0, &[0u8; NONCE_LEN]));
}

#[test]
fn integrates_with_real_token() {
    let mut g = ReplayGuard::new();
    let epoch = 42;
    let token = AuthToken::build(&[0x33; PSK_LEN], epoch);
    assert!(g.observe_token(&token, epoch));
    assert!(!g.observe_token(&token, epoch), "тот же токен — реплей");
}

#[test]
fn pruning_keeps_the_latest_epochs() {
    let mut g = ReplayGuard::default();
    for epoch in [10u64, 13, 11, 12] {
        assert!(g.observe(epoch, &[1; NONCE_LEN]));
    }
    // 11, 12 and 13 are kept; an older epoch comes and goes at once.
    for epoch in [11u64, 12, 13] {
        assert!(!g.observe(epoch, &[1; NONCE_LEN]));
    }
    assert!(g.observe(10, &[1; NONCE_LEN]));
    assert!(g.observe(10, &[1; NONCE_LEN]));
    assert_eq!(g.tracked_epochs(), 3);
}

#[test]
fn nonces_that_differ_anywhere_are_different() {
    let mut g = ReplayGuard::new();
    assert!(g.observe(1, &[0; NONCE_LEN]));
    for i in 0..NONCE_LEN {
        let mut n = [0u8; NONCE_LEN];
        n[i] = 1;
        assert!(g.observe(1, &n));
        assert!(!g.observe(1, &n));
    }
}

#[test]
fn a_nonce_is_new_again_behind_three_later_epochs() {
    let n = [3; NONCE_LEN];
    let mut g = ReplayGuard::new();
    assert!(g.observe(20, &n));
    // Earlier epochs do not count, nor does the same one twice.
    for epoch in [21, 5, 22, 6, 22, 7] {
        g.observe(epoch, &[4; NONCE_LEN]);
        assert!(!g.observe(20, &n));
    }
    g.observe(30, &[4; NONCE_LEN]);
    assert!(g.observe(20, &n));
    assert!(g.observe(20, &n));
    assert!(!g.observe(21, &[4; NONCE_LEN]));
}

#[test]
fn epochs_are_tracked_up_to_three() {
    let mut g = ReplayGuard::new();
    for (epoch, kept) in [(7, 1), (7, 1), (3, 2), (9, 3), (1, 3), (9, 3), (12, 3)] {
        g.observe(epoch, &[0; NONCE_LEN]);
        assert_eq!(g.tracked_epochs(), kept);
    }
}
