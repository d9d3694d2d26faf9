use vlyness::carrier::h2bridge::{read_len, WriteGate, WriteStart, WriteStep};
use vlyness::carrier::tls::{
    client_config_ech, ech_unless_refused, gather_roots, name_objection, report_certificate,
    root_store_from_pem, self_signed, serve_unless_refused, server_config, RootItem, ServerTls,
    TlsMode,
};
use vlyness::carrier::http::{
    authorize, authorize_at, cookie_header, cookie_sid, parse_segments, segment_uri, session_pid,
    tunnel_uri, verify_only, Dir, Method, Route, Router,
};
use vlyness::wire::auth::{epoch_now, AuthToken, PSK_LEN};
use vlyness::wire::replay::ReplayGuard;

fn psk() -> [u8; PSK_LEN] {
    [0x9a; PSK_LEN]
}

#[test]
fn authorizes_fresh_token_once() {
    let mut replay = ReplayGuard::new();
    let sid = AuthToken::build(&psk(), epoch_now()).encode();
    assert!(authorize(&sid, &psk(), &mut replay).is_some(), "свежий токен проходит");
    assert!(authorize(&sid, &psk(), &mut replay).is_none(), "повтор того же — реплей, отказ");
}

#[test]
fn rejects_wrong_psk() {
    let mut replay = ReplayGuard::new();
    let sid = AuthToken::build(&psk(), epoch_now()).encode();
    let mut other = psk();
    other[0] ^= 0xff;
    assert!(authorize(&sid, &other, &mut replay).is_none());
}

#[test]
fn rejects_garbage_cookie() {
    let mut replay = ReplayGuard::new();
    assert!(authorize("not-a-valid-token", &psk(), &mut replay).is_none());
}

#[test]
fn authorizing_returns_the_prologue() {
    let mut replay = ReplayGuard::new();
    let t = AuthToken::build(&psk(), 100);
    assert_eq!(authorize_at(&t.encode(), &psk(), 102, &mut replay), None);
    assert_eq!(replay.tracked_epochs(), 0);
    assert_eq!(authorize_at(&t.encode(), &psk(), 101, &mut replay), Some(t.raw()));
    assert_eq!(authorize_at(&t.encode(), &psk(), 99, &mut replay), None);
    let (found, epoch) = verify_only(&t.encode(), &psk(), 99).unwrap();
    assert!(found == t && epoch == 100);
}

#[test]
fn cookies_are_found() {
    assert_eq!(cookie_sid("sid=abc"), Some("abc".to_string()));
    assert_eq!(cookie_sid("a=b; sid=x=y ;sid=z"), Some("x=y".to_string()));
    assert_eq!(cookie_sid(" \tsid="), Some("".to_string()));
    assert_eq!(cookie_sid("sida=1;xsid=2; SID=3;"), None);
    assert_eq!(cookie_sid(""), None);
    assert_eq!(cookie_sid(";;sid=ы;"), Some("ы".to_string()));
    assert_eq!(cookie_sid("sid = 1"), None);
}

#[test]
fn cookie_header_is_read_back() {
    let t = AuthToken::build(&psk(), 7);
    let header = cookie_header(&t, None);
    assert_eq!(header, format!("sid={}", t.encode()));
    assert_eq!(cookie_sid(&header), Some(t.encode()));
    let header = cookie_header(&t, Some("m1"));
    assert_eq!(header, format!("sid={}; v=m1", t.encode()));
    assert_eq!(cookie_sid(&header), Some(t.encode()));
    assert_eq!(cookie_sid(&cookie_header(&t, Some("; sid=x"))), Some(t.encode()));
}

#[test]
fn segment_paths_are_read() {
    let p = |path: &str, m: Method| parse_segments(path, "/base", m);
    assert_eq!(p("/base/ab12/up", Method::Post), Some(("ab12".to_string(), Dir::Up)));
    assert_eq!(p("/base/ab12/down", Method::Get), Some(("ab12".to_string(), Dir::Down)));
    assert_eq!(p("/base/ab12/up", Method::Get), None);
    assert_eq!(p("/base/ab12/down", Method::Post), None);
    assert_eq!(p("/base/ab12/down", Method::Other), None);
    assert_eq!(p("/base//up", Method::Post), None);
    assert_eq!(p("/base/a/b/up", Method::Post), None);
    assert_eq!(p("/base/ab12/up/", Method::Post), None);
    assert_eq!(p("/base/ab12", Method::Post), None);
    assert_eq!(p("/basex/ab12/up", Method::Post), None);
    assert_eq!(p("/bas", Method::Post), None);
    assert_eq!(p("/base", Method::Post), None);
    assert_eq!(p("/other/ab12/up", Method::Post), None);
}

#[test]
fn addresses_are_exact() {
    assert_eq!(tunnel_uri("h.example", "/v1/x"), "https://h.example/v1/x");
    assert_eq!(segment_uri("h", "/b", "0f", Dir::Up), "https://h/b/0f/up");
    assert_eq!(segment_uri("h", "/b", "0f", Dir::Down), "https://h/b/0f/down");
    let t = AuthToken::build_with(&psk(), 1, [0; 16], [0, 1, 15, 16, 0x7f, 0xa0, 0xff, 9, 9, 9, 9, 9]);
    assert_eq!(session_pid(&t), "00010f107fa0ff0909090909");
}

fn router() -> Router {
    Router::new(psk(), "/t".to_string())
}

#[test]
fn stream_one_is_routed_once() {
    let mut r = router();
    let mut g = ReplayGuard::new();
    let t = AuthToken::build(&psk(), 50);
    let c = cookie_header(&t, None);
    assert_eq!(
        r.route_at(&mut g, Method::Post, "/t", Some(&c), 50),
        Route::StreamOne { auth: t.raw() }
    );
    assert_eq!(r.route_at(&mut g, Method::Post, "/t", Some(&c), 50), Route::Fallback);
}

#[test]
fn strangers_get_the_site() {
    let mut r = router();
    let mut g = ReplayGuard::new();
    let t = AuthToken::build(&psk(), 50);
    let c = cookie_header(&t, None);
    for (m, path, cookie, now) in [
        (Method::Get, "/", None, 50),
        (Method::Post, "/t", None, 50),
        (Method::Post, "/t", Some("sid=nonsense"), 50),
        (Method::Post, "/t", Some(c.as_str()), 60),
        (Method::Get, "/t", Some(c.as_str()), 50),
        (Method::Post, "/t/x", Some(c.as_str()), 50),
        (Method::Other, "/t", Some(c.as_str()), 50),
        (Method::Get, "/t/aa/down", Some("a=b"), 50),
    ] {
        assert_eq!(r.route_at(&mut g, m, path, cookie, now), Route::Fallback);
    }
    // None of these used the token up.
    assert_eq!(g.tracked_epochs(), 0);
    assert!(matches!(
        r.route_at(&mut g, Method::Post, "/t", Some(&c), 50),
        Route::StreamOne { .. }
    ));
}

#[test]
fn halves_find_each_other() {
    let mut r = router();
    let mut g = ReplayGuard::new();
    let t = AuthToken::build(&psk(), 50);
    let c = cookie_header(&t, None);
    let pid = session_pid(&t);
    let down = format!("/t/{pid}/down");
    let up = format!("/t/{pid}/up");
    assert_eq!(
        r.route_at(&mut g, Method::Get, &down, Some(&c), 50),
        Route::Half { pid: pid.clone(), dir: Dir::Down, auth: t.raw() }
    );
    // Another token neither takes the half nor drives it out.
    let other = cookie_header(&AuthToken::build(&psk(), 50), Some("m1"));
    assert_eq!(r.route_at(&mut g, Method::Post, &up, Some(&other), 50), Route::Fallback);
    assert_eq!(
        r.route_at(&mut g, Method::Post, &up, Some(&c), 51),
        Route::Pair { pid: pid.clone(), dir: Dir::Up, auth: t.raw() }
    );
    // The pair is gone, and the token is used up.
    assert_eq!(r.route_at(&mut g, Method::Post, &up, Some(&c), 51), Route::Fallback);
    // The foreign token was not noted, so it may still begin a session.
    assert!(matches!(
        r.route_at(&mut g, Method::Post, &up, Some(&other), 50),
        Route::Half { dir: Dir::Up, .. }
    ));
}

#[test]
fn the_same_half_twice_drops_both() {
    let mut r = router();
    let mut g = ReplayGuard::new();
    let t = AuthToken::build(&psk(), 50);
    let c = cookie_header(&t, None);
    for _ in 0..3 {
        let u = AuthToken::build(&psk(), 50);
        let path = format!("/t/{}/up", session_pid(&u));
        assert!(matches!(
            r.route_at(&mut g, Method::Post, &path, Some(&cookie_header(&u, None)), 50),
            Route::Half { .. }
        ));
    }
    r.route_at(&mut g, Method::Get, "/t/p/down", Some(&c), 50);
    assert_eq!(
        r.route_at(&mut g, Method::Get, "/t/p/down", Some(&c), 50),
        Route::Clash { pid: "p".to_string(), dir: Dir::Down }
    );
    assert_eq!(r.route_at(&mut g, Method::Post, "/t/p/up", Some(&c), 50), Route::Fallback);
}

#[test]
fn routing_now_uses_the_clock() {
    let mut r = router();
    let mut g = ReplayGuard::new();
    let t = AuthToken::build(&psk(), epoch_now());
    assert_eq!(
        r.route(&mut g, Method::Post, "/t", Some(&cookie_header(&t, None))),
        Route::StreamOne { auth: t.raw() }
    );
}

// --- flow of bytes ---

#[test]
fn capacity_is_asked_for_once() {
    let mut g = WriteGate::new();
    assert_eq!(g.begin(0), WriteStart::Done);
    assert_eq!(g.begin(100_000), WriteStart::Reserve(16_384));
    assert_eq!(g.begin(100_000), WriteStart::Await);
    assert_eq!(g.on_capacity(0, 100_000), WriteStep::Await);
    assert_eq!(g.begin(100_000), WriteStart::Await);
    assert_eq!(g.on_capacity(5_000, 100_000), WriteStep::Send(5_000));
    assert_eq!(g.begin(10), WriteStart::Reserve(10));
    assert_eq!(g.on_capacity(5_000, 10), WriteStep::Send(10));
    assert_eq!(g.begin(16_384), WriteStart::Reserve(16_384));
    assert_eq!(g.on_capacity(50_000, 100_000), WriteStep::Send(16_384));
    assert_eq!(g.on_capacity(16_384, 16_385), WriteStep::Send(16_384));
}

#[test]
fn reads_take_what_fits() {
    assert_eq!(read_len(10, 3), 3);
    assert_eq!(read_len(3, 10), 3);
    assert_eq!(read_len(0, 10), 0);
}

#[test]
fn a_token_opens_once_whatever_comes_between() {
    let mut g = ReplayGuard::new();
    let first = AuthToken::build(&psk(), 100).encode();
    assert!(authorize_at(&first, &psk(), 99, &mut g).is_some());
    // Tokens of every epoch that is accepted, as the hours go by.
    for now in [99u64, 100, 101] {
        for epoch in [now - 1, now, now + 1] {
            let t = AuthToken::build(&psk(), epoch).encode();
            assert!(authorize_at(&t, &psk(), now, &mut g).is_some());
            assert!(authorize_at(&first, &psk(), now, &mut g).is_none());
        }
    }
    assert!(authorize_at(&first, &psk(), 102, &mut g).is_none());
}

// --- what TLS is set up with ---

fn self_signed_pem() -> (Vec<u8>, String, String) {
    let ck = rcgen::generate_simple_self_signed(vec!["localhost".to_string()]).unwrap();
    (ck.cert.der().to_vec(), ck.cert.pem(), ck.key_pair.serialize_pem())
}

#[test]
fn roots_are_read() {
    let (der1, pem1, key) = self_signed_pem();
    let (der2, pem2, _) = self_signed_pem();
    let data = format!("# roots\n{pem1}{key}{pem2}");
    assert_eq!(root_store_from_pem("ca.pem", data.as_bytes()), Ok(vec![der1, der2]));
}

#[test]
fn a_file_without_certificates_is_refused() {
    let (_, _, key) = self_signed_pem();
    for data in ["", "nothing here", &key] {
        assert_eq!(
            root_store_from_pem("ca.pem", data.as_bytes()),
            Err("в ca.pem нет сертификатов".to_string())
        );
    }
}

#[test]
fn the_first_bad_root_is_reported() {
    let (_, pem, _) = self_signed_pem();
    let refused = "-----BEGIN CERTIFICATE-----\nYWI=\n-----END CERTIFICATE-----\n";
    let malformed = "-----BEGIN CERTIFICATE-----\n*\n-----END CERTIFICATE-----\n";
    let open = "-----BEGIN CERTIFICATE-----\nYWI=\n";
    let message = |parts: &[&str]| root_store_from_pem("ca.pem", parts.concat().as_bytes()).unwrap_err();
    assert_eq!(
        message(&[&pem, refused, malformed]),
        "не удалось добавить корень: invalid peer certificate: BadEncoding"
    );
    assert!(message(&[&pem, malformed, refused]).starts_with("ошибка разбора PEM: "));
    assert!(message(&[&pem, open]).starts_with("ошибка разбора PEM: section end "));
    assert!(message(&["-----BEGIN X\n", &pem]).starts_with("ошибка разбора PEM: illegal section start"));
}

#[test]
fn roots_are_gathered() {
    let root = |b: u8| RootItem::Root(vec![b]);
    assert_eq!(gather_roots("f", vec![root(1), root(2)]), Ok(vec![vec![1], vec![2]]));
    assert_eq!(gather_roots("f", vec![]), Err("в f нет сертификатов".to_string()));
    let bad = RootItem::Malformed("why".to_string());
    let worse = RootItem::Refused("because".to_string());
    assert_eq!(
        gather_roots("f", vec![root(1), bad.clone(), worse.clone()]),
        Err("ошибка разбора PEM: why".to_string())
    );
    assert_eq!(
        gather_roots("f", vec![worse, root(1), bad]),
        Err("не удалось добавить корень: because".to_string())
    );
}

#[test]
fn ech_config_rejects_garbage() {
    let res = client_config_ech(vec![0x00, 0x00]);
    assert!(res.is_err(), "битый ECHConfigList должен быть отвергнут");
    assert_eq!(
        client_config_ech(vec![]),
        Err("encrypted client hello failure: InvalidConfigList".to_string())
    );
    // A configuration of another version is well-formed, but of no use.
    assert_eq!(
        client_config_ech(vec![0, 5, 0xfe, 0x0a, 0, 1, 7]),
        Err("encrypted client hello failure: NoCompatibleConfig".to_string())
    );
}

#[test]
fn ech_is_used_unless_refused() {
    assert_eq!(ech_unless_refused(vec![1], None), Ok(TlsMode::Ech(vec![1])));
    assert_eq!(ech_unless_refused(vec![1], Some("no".to_string())), Err("no".to_string()));
}

#[test]
fn a_server_certificate_is_trusted_by_its_pem() {
    let longest = "a".repeat(253);
    for domain in ["localhost", "app.example-media.tld", "127.0.0.1", "::1", "", "a b\0\x7f", &longest] {
        let (cert, key, pem) = self_signed(domain).unwrap();
        assert_eq!(root_store_from_pem("ca.pem", pem.as_bytes()), Ok(vec![cert.clone()]));
        let (other_cert, other_key, _) = self_signed(domain).unwrap();
        assert!(cert != other_cert && key != other_key);
        assert_eq!(
            server_config(vec![cert.clone()], key.clone()),
            Ok(ServerTls { certs: vec![cert], key })
        );
    }
}

#[test]
fn a_certificate_is_for_its_domain() {
    let label = "a".repeat(63);
    let longest = format!("{label}.{label}.{label}.{}", &label[..61]);
    for domain in ["localhost", "app.example-media.tld", "A-b.1c", "1.2.x", "0-0", &longest] {
        let (cert, _, _) = self_signed(domain).unwrap();
        assert_eq!(name_objection(&cert, domain), None, "{domain}");
        let why = name_objection(&cert, "other.example").unwrap();
        assert!(why.starts_with("invalid peer certificate: certificate not valid for name"), "{why}");
    }
    let (cert, _, _) = self_signed("localhost").unwrap();
    assert_eq!(name_objection(&cert, "a b"), Some("invalid dns name".to_string()));
    assert_eq!(
        name_objection(&[1, 2, 3], "localhost"),
        Some("invalid peer certificate: BadEncoding".to_string())
    );
}

#[test]
fn a_certificate_goes_with_its_own_key() {
    let (cert, key, _) = self_signed("localhost").unwrap();
    let (other_cert, other_key, _) = self_signed("localhost").unwrap();
    let mismatch = Err("keys may not be consistent: KeyMismatch".to_string());
    assert_eq!(server_config(vec![cert.clone()], other_key), mismatch);
    assert_eq!(server_config(vec![other_cert.clone(), cert.clone()], key.clone()), mismatch);
    // The certificates behind the first may belong to others.
    assert!(server_config(vec![cert.clone(), other_cert], key.clone()).is_ok());
    assert_eq!(server_config(vec![], key), Err("peer sent no certificates".to_string()));
    assert_eq!(
        server_config(vec![cert], vec![1, 2, 3]),
        Err("unexpected error: failed to parse private key as RSA, ECDSA, or EdDSA".to_string())
    );
}

#[test]
fn certificates_are_served_unless_refused() {
    assert_eq!(
        serve_unless_refused(vec![vec![1]], vec![2], None),
        Ok(ServerTls { certs: vec![vec![1]], key: vec![2] })
    );
    assert_eq!(
        serve_unless_refused(vec![vec![1]], vec![2], Some("no".to_string())),
        Err("no".to_string())
    );
}

#[test]
fn a_domain_in_another_script_gets_no_certificate() {
    assert_eq!(
        self_signed("пример.рф"),
        Err("не удалось создать сертификат: Invalid IA5String: 'пример.рф'".to_string())
    );
}

#[test]
fn certificates_are_reported() {
    let made = Ok((vec![1], vec![2], "pem".to_string()));
    assert_eq!(report_certificate(made.clone()), made);
    assert_eq!(
        report_certificate(Err("why".to_string())),
        Err("не удалось создать сертификат: why".to_string())
    );
}
