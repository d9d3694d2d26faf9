use vlyness::profile::model::{CarrierType, PlacementMode, Profile, TrafficMode, WlLevel};
use vlyness::profile::validate::{validate, CoherenceError};

fn codes(res: &Result<(), Vec<CoherenceError>>) -> Vec<&'static str> {
    match res {
        Ok(()) => vec![],
        Err(e) => e.iter().map(|c| c.code).collect(),
    }
}

#[test]
fn example_media_is_coherent() {
    let p = Profile::example_media();
    assert_eq!(validate(&p), Ok(()), "референс-профиль обязан проходить");
}

#[test]
fn detects_settings_fp_mismatch() {
    let mut p = Profile::example_media();
    p.http.settings_profile = "firefox-128".to_string();
    assert!(codes(&validate(&p)).contains(&"settings_fp_mismatch"));
}

#[test]
fn detects_ua_mismatch() {
    let mut p = Profile::example_media();
    p.http.ua = "Mozilla/5.0 (Windows NT 10.0) Firefox/128".to_string();
    let c = codes(&validate(&p));
    assert!(c.contains(&"ua_fp_mismatch"));
}

#[test]
fn detects_pq_mismatch() {
    let mut p = Profile::example_media();
    p.tls.pq_keyshare = true;
    assert!(codes(&validate(&p)).contains(&"pq_keyshare_mismatch"));
}

#[test]
fn detects_unknown_fingerprint() {
    let mut p = Profile::example_media();
    p.tls.fp = "chrome-131-spoof".to_string();
    assert!(codes(&validate(&p)).contains(&"unknown_fingerprint"));
}

#[test]
fn detects_alpn_mismatch() {
    let mut p = Profile::example_media();
    p.tls.alpn = vec!["http/1.1".to_string()];
    assert!(codes(&validate(&p)).contains(&"alpn_http_mismatch"));
}

#[test]
fn detects_stream_behind_cdn() {
    let mut p = Profile::example_media();
    p.traffic.mode = TrafficMode::Stream;
    assert!(codes(&validate(&p)).contains(&"stream_behind_cdn"));
}

#[test]
fn detects_carrier_placement_mismatch() {
    let mut p = Profile::example_media();
    p.placement.mode = PlacementMode::Direct;
    let c = codes(&validate(&p));
    assert!(c.contains(&"carrier_placement_mismatch"));
}

#[test]
fn detects_missing_ech_under_wl_sni() {
    let mut p = Profile::example_media();
    p.carrier.ech.enabled = false;
    assert!(codes(&validate(&p)).contains(&"ech_required"));
}

#[test]
fn detects_empty_ech_public_name() {
    let mut p = Profile::example_media();
    p.carrier.ech.public_name = "".to_string();
    assert!(codes(&validate(&p)).contains(&"ech_public_name_empty"));
}

#[test]
fn detects_ech_front_conflict() {
    let mut p = Profile::example_media();
    p.carrier.front.enabled = true;
    assert!(codes(&validate(&p)).contains(&"ech_front_conflict"));
}

#[test]
fn detects_fingerprint_rotation() {
    let mut p = Profile::example_media();
    p.budget.rotate_fingerprint = true;
    assert!(codes(&validate(&p)).contains(&"fingerprint_rotation"));
}

#[test]
fn detects_too_many_conns() {
    let mut p = Profile::example_media();
    p.budget.max_tls_conns = 5;
    assert!(codes(&validate(&p)).contains(&"too_many_conns"));
}

#[test]
fn detects_bad_schedule() {
    let mut p = Profile::example_media();
    p.schedule.active_hours = [20, 8];
    assert!(codes(&validate(&p)).contains(&"bad_active_hours"));
}

#[test]
fn detects_bad_seg_route() {
    let mut p = Profile::example_media();
    p.http.routes.seg = "/v1/media/stream".to_string();
    assert!(codes(&validate(&p)).contains(&"bad_seg_route"));
}

#[test]
fn collects_multiple_violations_at_once() {
    let mut p = Profile::example_media();
    p.budget.rotate_fingerprint = true;
    p.tls.pq_keyshare = true;
    p.schedule.active_hours = [10, 10];
    let c = codes(&validate(&p));
    assert!(c.contains(&"fingerprint_rotation"));
    assert!(c.contains(&"pq_keyshare_mismatch"));
    assert!(c.contains(&"bad_active_hours"));
    assert!(c.len() >= 3);
}

#[test]
fn violations_come_in_order_and_all_of_them() {
    let mut p = Profile::example_media();
    p.http.settings_profile = "x".to_string();
    p.http.ua = "curl".to_string();
    p.tls.pq_keyshare = true;
    p.http.version = 1;
    p.placement.mode = PlacementMode::Direct;
    p.carrier.ech.public_name = " \t\u{a0}\u{3000}".to_string();
    p.carrier.front.enabled = true;
    p.budget.rotate_fingerprint = true;
    p.budget.max_tls_conns = 0;
    p.budget.backoff_base_ms = 0;
    p.schedule.active_hours = [1, 25];
    p.schedule.max_session_min = 0;
    p.traffic.target_ratio_down_up = 0;
    p.traffic.seg_interval_ms = 0;
    p.traffic.len_profile = "".to_string();
    p.http.routes.seg = "{sid}".to_string();
    p.http.routes.tel = "{n}".to_string();
    assert_eq!(
        codes(&validate(&p)),
        vec![
            "settings_fp_mismatch",
            "ua_fp_mismatch",
            "pq_keyshare_mismatch",
            "bad_http_version",
            "carrier_placement_mismatch",
            "segments_direct",
            "ech_public_name_empty",
            "ech_front_conflict",
            "fingerprint_rotation",
            "zero_conns",
            "bad_backoff",
            "bad_active_hours",
            "zero_session",
            "zero_ratio",
            "zero_seg_interval",
            "no_len_profile",
            "bad_seg_route",
            "bad_tel_route",
        ]
    );
}

#[test]
fn messages_are_exact() {
    let mut p = Profile::example_media();
    p.tls.fp = "x-1".to_string();
    let errs = validate(&p).unwrap_err();
    assert_eq!(errs[0].message, "неизвестный fingerprint 'x-1': нет в реестре устройств");

    let mut p = Profile::example_media();
    p.tls.pq_keyshare = true;
    p.http.version = 3;
    p.budget.max_tls_conns = 4294967295;
    p.schedule.active_hours = [20, 8];
    p.carrier.kind = CarrierType::LocalCloud;
    p.placement.mode = PlacementMode::Direct;
    let errs = validate(&p).unwrap_err();
    let messages: Vec<&str> = errs.iter().map(|e| e.message.as_str()).collect();
    assert_eq!(
        messages[0],
        "tls.pq_keyshare=true не соответствует устройству 'okhttp-4' (ожидалось false); \
         имитация с рассогласованием PQ — маркер (01 §2 L2)"
    );
    assert_eq!(messages[1], "ALPN не содержит 'h3' при http.version=3");
    assert_eq!(messages[2], "носитель LocalCloud несовместим с площадкой Direct");
    assert_eq!(
        messages[4],
        "budget.max_tls_conns=4294967295 превышает 2: >3 параллельных TLS к одному SNI — \
         самый частый триггер ТСПУ (признак №5)"
    );
    assert_eq!(messages[5], "active_hours [20,8) некорректны (нужно 0≤start<end≤24)");

    let mut p = Profile::example_media();
    p.budget.rotate_fingerprint = true;
    p.traffic.len_profile = " ".to_string();
    let errs = validate(&p).unwrap_err();
    let messages: Vec<&str> = errs.iter().map(|e| e.message.as_str()).collect();
    assert_eq!(
        messages,
        vec![
            "budget.rotate_fingerprint=true запрещено: смена fingerprint под нагрузкой \
             даёт расширенный штраф ТСПУ 600 с (§4, §9)",
            "segments-режим требует len_profile (распределение длин для sampler §8.1)",
        ]
    );
}

#[test]
fn user_agent_is_compared_without_case() {
    let mut p = Profile::example_media();
    p.tls.fp = "cronet-android".to_string();
    p.http.settings_profile = "cronet-android".to_string();
    p.tls.pq_keyshare = true;
    p.http.ua = "App/1 CRONET/120".to_string();
    assert_eq!(validate(&p), Ok(()));
    p.http.ua = "App/1 Cron et".to_string();
    assert_eq!(codes(&validate(&p)), vec!["ua_fp_mismatch"]);
}

#[test]
fn other_devices_are_known() {
    for (fp, ua, pq) in [
        ("nsurlsession-ios", "App/1 CFNetwork/1485 Darwin/23", false),
        ("firefox-128", "Mozilla/5.0 Firefox/128.0", true),
    ] {
        let mut p = Profile::example_media();
        p.tls.fp = fp.to_string();
        p.http.settings_profile = fp.to_string();
        p.http.ua = ua.to_string();
        p.tls.pq_keyshare = pq;
        assert_eq!(validate(&p), Ok(()));
    }
}

#[test]
fn carriers_and_placements() {
    let fits = |k: CarrierType, m: PlacementMode| {
        let mut p = Profile::example_media();
        p.carrier.kind = k;
        p.placement.mode = m;
        !codes(&validate(&p)).contains(&"carrier_placement_mismatch")
    };
    let all = [PlacementMode::Cdn, PlacementMode::Colo, PlacementMode::Direct];
    let row = |k: CarrierType| all.map(|m| fits(k, m));
    assert_eq!(row(CarrierType::CdnCotenant), [true, false, false]);
    assert_eq!(row(CarrierType::LocalCloud), [true, true, false]);
    assert_eq!(row(CarrierType::ServiceChannel), [true, true, false]);
    assert_eq!(row(CarrierType::Refraction), [true, true, true]);
    assert_eq!(row(CarrierType::Direct), [false, false, true]);
}

#[test]
fn ech_is_asked_for_only_where_it_helps() {
    let mut p = Profile::example_media();
    p.carrier.ech.enabled = false;
    p.carrier.wl_level_target = WlLevel::Ip;
    assert_eq!(validate(&p), Ok(()));
    p.carrier.wl_level_target = WlLevel::Behave;
    assert_eq!(codes(&validate(&p)), vec!["ech_required"]);
    p.carrier.kind = CarrierType::ServiceChannel;
    assert_eq!(validate(&p), Ok(()));
    p.traffic.mode = TrafficMode::Datagram;
    assert_eq!(codes(&validate(&p)), vec!["datagram_service_channel"]);
}
