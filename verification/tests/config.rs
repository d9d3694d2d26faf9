use vlyness::carrier::tls::TlsMode;
use vlyness::config::{
    b64_decode, b64_encode, client_budget, client_cadence, decode_psk, pause_ms, server_keys,
    server_psk, tls_mode, wants_segments, TrafficMonitor,
};
use vlyness::discipline::backoff::Backoff;
use vlyness::discipline::blackhole::{AfterFreeze, BlackholeDetector, FreezeController};
use vlyness::discipline::budget::{ConnectionBudget, GateDecision};
use vlyness::discipline::clock::{FixedFraction, ManualClock};
use vlyness::discipline::manager::{ConnectionManager, ManagerAction};
use vlyness::profile::model::Profile;
use vlyness::wire::noise::{Initiator, Responder};

/// A list of one ECH configuration of this version, for X25519 and AES-128-GCM.
fn ech_list(version: u16) -> Vec<u8> {
    let mut contents = vec![7, 0x00, 0x20, 0, 32];
    contents.extend([9u8; 32]);
    contents.extend([0, 4, 0, 1, 0, 1, 0, 11]);
    contents.extend(b"example.com");
    contents.extend([0, 0]);
    let mut list = vec![0, contents.len() as u8 + 4];
    list.extend(version.to_be_bytes());
    list.extend([0, contents.len() as u8]);
    list.extend(contents);
    list
}

#[test]
fn base64_is_exact() {
    assert_eq!(b64_encode(b""), "");
    assert_eq!(b64_encode(b"a"), "YQ==");
    assert_eq!(b64_encode(b"ab"), "YWI=");
    assert_eq!(b64_encode(&[0xfb, 0xff, 0xfe]), "+//+");
    assert_eq!(b64_decode(" \nYWI=\t").unwrap(), b"ab");
    for bad in ["YWI", "YWJ=", "Y", "Y!==", "YQ==YQ==", "-_8="] {
        assert!(b64_decode(bad).unwrap_err().starts_with("некорректный base64: "), "{bad}");
    }
}

#[test]
fn malformed_base64_is_explained() {
    assert_eq!(
        b64_decode(" Y!== "),
        Err("некорректный base64: Invalid symbol 33, offset 1.".to_string())
    );
    let why = "некорректный base64: Invalid symbol 42, offset 0.".to_string();
    assert_eq!(decode_psk("*AAA"), Err(why.clone()));
    assert_eq!(server_psk(Some("*AAA")), Err(why.clone()));
    assert_eq!(tls_mode(Some("*AAA"), None), Err(why.clone()));
    assert_eq!(server_keys(Some("YQ=="), Some("*AAA")).err(), Some(why));
}

#[test]
fn secrets_have_32_bytes() {
    let psk: [u8; 32] = std::array::from_fn(|i| i as u8);
    let text = "AAECAwQFBgcICQoLDA0ODxAREhMUFRYXGBkaGxwdHh8=";
    assert_eq!(b64_encode(&psk), text);
    assert_eq!(decode_psk(&format!("  {text}\n")), Ok(psk));
    assert_eq!(decode_psk("YWI="), Err("PSK должен быть ровно 32 байта".to_string()));
    assert!(decode_psk("*").unwrap_err().starts_with("некорректный base64: "));
}

#[test]
fn a_server_takes_or_makes_its_secret() {
    let (psk, fresh) = server_psk(Some(&b64_encode(&[5; 32]))).unwrap();
    assert!(!fresh && psk == [5; 32]);
    assert!(server_psk(Some("YQ==")).is_err());
    let (a, fresh) = server_psk(None).unwrap();
    let (b, _) = server_psk(None).unwrap();
    assert!(fresh && a != b);
}

#[test]
fn a_server_takes_or_makes_its_keys() {
    let (pair, fresh) = server_keys(None, Some("YQ==")).unwrap();
    assert!(fresh);
    // The two keys belong together.
    let mut ini = Initiator::new(&pair.public, &[9; 32], b"p").unwrap();
    let mut resp = Responder::new(&pair.private, b"p").unwrap();
    assert_eq!(resp.read_msg1(&ini.write_msg1(b"hi").unwrap()).unwrap(), b"hi");
    let (given, fresh) =
        server_keys(Some(&b64_encode(&pair.private)), Some(&b64_encode(&pair.public))).unwrap();
    assert!(!fresh && given.private == pair.private && given.public == pair.public);
    assert!(server_keys(Some("?"), Some("YQ==")).is_err());
    assert!(server_keys(Some("YQ=="), Some("?")).is_err());
}

#[test]
fn budget_and_rhythm_follow_the_profile() {
    let mut b = client_budget(None);
    assert_eq!(b.poll(0), GateDecision::Allow);
    b.on_attempt(0);
    assert_eq!(b.poll(0), GateDecision::Wait(800));
    let mut p = Profile::example_media();
    p.budget.min_conn_interval_ms = 5;
    let mut b = client_budget(Some(&p));
    b.on_attempt(0);
    assert_eq!(b.poll(0), GateDecision::Wait(5));
    b.on_failure(0, &mut FixedFraction::new(1, 1));
    assert_eq!(b.poll(0), GateDecision::Wait(2001));
    assert_eq!(client_cadence(None).interval_ms(), 15_000);
    assert_eq!(client_cadence(Some(&p)).interval_ms(), 4000);
    p.traffic.seg_interval_ms = 10;
    p.traffic.idle_fill = false;
    assert_eq!(client_cadence(Some(&p)).interval_ms(), 1000);
    assert!(!client_cadence(Some(&p)).should_fill_idle());
}

#[test]
fn modes_are_chosen() {
    assert!(wants_segments("segments"));
    assert!(!wants_segments("stream"));
    let list = ech_list(0xfe0d);
    let text = b64_encode(&list);
    assert_eq!(tls_mode(Some(&text), Some("grease")), Ok(TlsMode::Ech(list)));
    assert_eq!(
        tls_mode(Some("YWI="), Some("grease")),
        Err("encrypted client hello failure: InvalidConfigList".to_string())
    );
    assert!(tls_mode(Some("?"), None).is_err());
    assert_eq!(tls_mode(None, Some("grease")), Ok(TlsMode::Grease));
    assert_eq!(tls_mode(None, Some("on")), Ok(TlsMode::Plain));
    assert_eq!(tls_mode(None, None), Ok(TlsMode::Plain));
}

#[test]
fn pauses_between_questions() {
    assert_eq!(pause_ms(&ManagerAction::Connect), None);
    assert_eq!(pause_ms(&ManagerAction::Wait(3)), Some(50));
    assert_eq!(pause_ms(&ManagerAction::Wait(300)), Some(300));
    assert_eq!(pause_ms(&ManagerAction::NetworkDown(0)), Some(50));
    assert_eq!(pause_ms(&ManagerAction::AtCapacity), Some(500));
    assert_eq!(
        pause_ms(&ManagerAction::Frozen { until_ms: 9, then: AfterFreeze::Probe }),
        Some(1000)
    );
}

#[test]
fn the_monitor_gives_up_on_a_silence() {
    let mut m = ConnectionManager::new(
        ManualClock::new(0),
        FixedFraction::new(0, 1),
        ConnectionBudget::new(1, 800, Backoff::new(2000, 300_000)),
        BlackholeDetector::with_defaults(),
        FreezeController::with_defaults(),
    );
    m.note_attempt();
    m.note_success();
    let mut mon = TrafficMonitor::new(0, 0);
    m.clock.set(2000);
    assert!(!mon.tick(&mut m, 10, 5, Some(true)));
    m.clock.set(4000);
    assert!(!mon.tick(&mut m, 20, 5, Some(true)));
    m.clock.set(11_000);
    assert!(!mon.tick(&mut m, 30, 5, Some(true)));
    m.clock.set(12_000);
    assert!(mon.tick(&mut m, 40, 5, Some(true)));
    assert_eq!(m.strikes(), 1);
    // An answer ends the escalation.
    mon.tick(&mut m, 40, 6, None);
    assert_eq!(m.strikes(), 0);
}
