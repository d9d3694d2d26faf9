//! Whether a profile is coherent.
//!
//! What stands out is rarely one property, but two that contradict each other: a
//! fingerprint of one device with the user agent of another, a stream where only
//! segments can live. All contradictions are collected, not just the first.

use super::model;
use super::model::{CarrierType, PlacementMode, Profile, TrafficMode, WlLevel};
use crate::text;
use vstd::prelude::*;

verus! {

/// A contradiction.
#[derive(Debug, Clone, PartialEq, Eq)]
pub struct CoherenceError {
    /// A stable code.
    pub code: &'static str,
    /// An explanation for people.
    pub message: String,
}

/// What a contradiction says.
pub struct Violation {
    pub code: Seq<char>,
    pub message: Seq<char>,
}

impl View for CoherenceError {
    type V = Violation;

    open spec fn view(&self) -> Violation {
        Violation { code: self.code@, message: self.message@ }
    }
}

/// What a list of contradictions says.
pub open spec fn views(errs: Seq<CoherenceError>) -> Seq<Violation> {
    errs.map_values(|e: CoherenceError| e@)
}

/// One violation under a condition, else none.
pub open spec fn when(cond: bool, code: Seq<char>, message: Seq<char>) -> Seq<Violation> {
    if cond {
        seq![Violation { code, message }]
    } else {
        Seq::<Violation>::empty()
    }
}

/// What belongs together on one device: the fingerprint, the HTTP/2 settings, a part
/// of the user agent and whether a post-quantum key share is sent.
struct DeviceFamily {
    settings_profile: &'static str,
    ua_contains: &'static str,
    pq_keyshare: bool,
}

/// What a family holds.
pub struct FamilyView {
    pub settings_profile: Seq<char>,
    pub ua_contains: Seq<char>,
    pub pq_keyshare: bool,
}

/// The devices that are known, by fingerprint.
pub open spec fn family_of(fp: Seq<char>) -> Option<FamilyView> {
    if fp == "okhttp-4"@ {
        Some(
            FamilyView {
                settings_profile: "okhttp-4"@,
                ua_contains: "okhttp"@,
                pq_keyshare: false,
            },
        )
    } else if fp == "cronet-android"@ {
        Some(
            FamilyView {
                settings_profile: "cronet-android"@,
                ua_contains: "Cronet"@,
                pq_keyshare: true,
            },
        )
    } else if fp == "nsurlsession-ios"@ {
        Some(
            FamilyView {
                settings_profile: "nsurlsession-ios"@,
                ua_contains: "CFNetwork"@,
                pq_keyshare: false,
            },
        )
    } else if fp == "firefox-128"@ {
        Some(
            FamilyView {
                settings_profile: "firefox-128"@,
                ua_contains: "Firefox"@,
                pq_keyshare: true,
            },
        )
    } else {
        None
    }
}

fn lookup_family(fp: &str) -> (r: Option<DeviceFamily>)
    ensures
        match r {
            Some(d) => family_of(fp@) == Some(
                FamilyView {
                    settings_profile: d.settings_profile@,
                    ua_contains: d.ua_contains@,
                    pq_keyshare: d.pq_keyshare,
                },
            ),
            None => family_of(fp@) is None,
        },
{
    if text::same(fp, "okhttp-4") {
        Some(
            DeviceFamily {
                settings_profile: "okhttp-4",
                ua_contains: "okhttp",
                pq_keyshare: false,
            },
        )
    } else if text::same(fp, "cronet-android") {
        Some(
            DeviceFamily {
                settings_profile: "cronet-android",
                ua_contains: "Cronet",
                pq_keyshare: true,
            },
        )
    } else if text::same(fp, "nsurlsession-ios") {
        Some(
            DeviceFamily {
                settings_profile: "nsurlsession-ios",
                ua_contains: "CFNetwork",
                pq_keyshare: false,
            },
        )
    } else if text::same(fp, "firefox-128") {
        Some(
            DeviceFamily {
                settings_profile: "firefox-128",
                ua_contains: "Firefox",
                pq_keyshare: true,
            },
        )
    } else {
        None
    }
}

/// Whether any of these texts is `want`.
pub open spec fn lists(texts: Seq<String>, want: Seq<char>) -> bool {
    exists|i: int| 0 <= i < texts.len() && (#[trigger] texts[i])@ == want
}

fn list_has(texts: &Vec<String>, want: &str) -> (b: bool)
    ensures
        b == lists(texts@, want@),
{
    let mut i: usize = 0;
    while i < texts.len()
        invariant
            i <= texts@.len(),
            forall|j: int| 0 <= j < i ==> (#[trigger] texts@[j])@ != want@,
        decreases texts@.len() - i,
    {
        if text::same(texts[i].as_str(), want) {
            return true;
        }
        i += 1;
    }
    false
}

/// The name of a carrier in messages.
pub open spec fn carrier_name(k: CarrierType) -> Seq<char> {
    match k {
        CarrierType::CdnCotenant => "CdnCotenant"@,
        CarrierType::LocalCloud => "LocalCloud"@,
        CarrierType::ServiceChannel => "ServiceChannel"@,
        CarrierType::Refraction => "Refraction"@,
        CarrierType::Direct => "Direct"@,
    }
}

fn carrier_text(k: CarrierType) -> (s: &'static str)
    ensures
        s@ == carrier_name(k),
{
    match k {
        CarrierType::CdnCotenant => "CdnCotenant",
        CarrierType::LocalCloud => "LocalCloud",
        CarrierType::ServiceChannel => "ServiceChannel",
        CarrierType::Refraction => "Refraction",
        CarrierType::Direct => "Direct",
    }
}

/// The name of a placement in messages.
pub open spec fn placement_name(m: PlacementMode) -> Seq<char> {
    match m {
        PlacementMode::Cdn => "Cdn"@,
        PlacementMode::Colo => "Colo"@,
        PlacementMode::Direct => "Direct"@,
    }
}

fn placement_text(m: PlacementMode) -> (s: &'static str)
    ensures
        s@ == placement_name(m),
{
    match m {
        PlacementMode::Cdn => "Cdn",
        PlacementMode::Colo => "Colo",
        PlacementMode::Direct => "Direct",
    }
}

fn report(errs: &mut Vec<CoherenceError>, code: &'static str, message: String)
    ensures
        views(final(errs)@) == views(old(errs)@) + when(true, code@, message@),
{
    errs.push(CoherenceError { code, message });
    assert(views(errs@) =~= views(old(errs)@) + when(true, code@, message@));
}

/// Fingerprint, settings, user agent and key share belong to one device.
pub open spec fn device_coherence_violations(p: Profile) -> Seq<Violation> {
    match family_of(p.tls.fp@) {
        None => when(
            true,
            "unknown_fingerprint"@,
            "неизвестный fingerprint '"@ + p.tls.fp@ + "': нет в реестре устройств"@,
        ),
        Some(fam) => when(
            p.http.settings_profile@ != fam.settings_profile,
            "settings_fp_mismatch"@,
            "http.settings_profile '"@ + p.http.settings_profile@
                + "' не соответствует fingerprint '"@ + p.tls.fp@ + "' (ожидалось '"@
                + fam.settings_profile + "')"@,
        )
            + when(
                !text::contains(text::lowercase(p.http.ua@), text::lowercase(fam.ua_contains)),
                "ua_fp_mismatch"@,
                "User-Agent не содержит маркер '"@ + fam.ua_contains
                    + "', ожидаемый для fingerprint '"@ + p.tls.fp@ + "'"@,
            )
            + when(
                p.tls.pq_keyshare != fam.pq_keyshare,
                "pq_keyshare_mismatch"@,
                "tls.pq_keyshare="@ + text::bool_chars(p.tls.pq_keyshare)
                    + " не соответствует устройству '"@ + p.tls.fp@ + "' (ожидалось "@
                    + text::bool_chars(fam.pq_keyshare)
                    + "); имитация с рассогласованием PQ — маркер (01 §2 L2)"@,
            ),
    }
}

fn check_device_coherence(p: &Profile, errs: &mut Vec<CoherenceError>)
    ensures
        views(final(errs)@) == views(old(errs)@) + device_coherence_violations(*p),
{
    let fam = match lookup_family(p.tls.fp.as_str()) {
        Some(fam) => fam,
        None => {
            let mut m = String::new();
            m.append("неизвестный fingerprint '");
            m.append(p.tls.fp.as_str());
            m.append("': нет в реестре устройств");
            assert(m@ =~= "неизвестный fingerprint '"@ + p.tls.fp@ + "': нет в реестре устройств"@);
            report(errs, "unknown_fingerprint", m);
            return;
        },
    };
    if !text::same(p.http.settings_profile.as_str(), fam.settings_profile) {
        let mut m = String::new();
        m.append("http.settings_profile '");
        m.append(p.http.settings_profile.as_str());
        m.append("' не соответствует fingerprint '");
        m.append(p.tls.fp.as_str());
        m.append("' (ожидалось '");
        m.append(fam.settings_profile);
        m.append("')");
        assert(m@ =~= "http.settings_profile '"@ + p.http.settings_profile@
            + "' не соответствует fingerprint '"@ + p.tls.fp@ + "' (ожидалось '"@
            + fam.settings_profile@ + "')"@);
        report(errs, "settings_fp_mismatch", m);
    }
    let ua = text::to_lowercase(p.http.ua.as_str());
    let marker = text::to_lowercase(fam.ua_contains);
    if !text::has_part(ua.as_str(), marker.as_str()) {
        let mut m = String::new();
        m.append("User-Agent не содержит маркер '");
        m.append(fam.ua_contains);
        m.append("', ожидаемый для fingerprint '");
        m.append(p.tls.fp.as_str());
        m.append("'");
        assert(m@ =~= "User-Agent не содержит маркер '"@ + fam.ua_contains@
            + "', ожидаемый для fingerprint '"@ + p.tls.fp@ + "'"@);
        report(errs, "ua_fp_mismatch", m);
    }
    if p.tls.pq_keyshare != fam.pq_keyshare {
        let mut m = String::new();
        m.append("tls.pq_keyshare=");
        m.append(text::bool_text(p.tls.pq_keyshare));
        m.append(" не соответствует устройству '");
        m.append(p.tls.fp.as_str());
        m.append("' (ожидалось ");
        m.append(text::bool_text(fam.pq_keyshare));
        m.append("); имитация с рассогласованием PQ — маркер (01 §2 L2)");
        assert(m@ =~= "tls.pq_keyshare="@ + text::bool_chars(p.tls.pq_keyshare)
            + " не соответствует устройству '"@ + p.tls.fp@ + "' (ожидалось "@
            + text::bool_chars(fam.pq_keyshare) + "); имитация с рассогласованием PQ — маркер (01 §2 L2)"@);
        report(errs, "pq_keyshare_mismatch", m);
    }
    assert(views(errs@) =~= views(old(errs)@) + device_coherence_violations(*p));
}

/// The ALPN that belongs to a version of HTTP.
pub open spec fn alpn_for(version: u8) -> Option<Seq<char>> {
    if version == 2 {
        Some("h2"@)
    } else if version == 3 {
        Some("h3"@)
    } else {
        None
    }
}

/// The ALPN list has the version of HTTP.
pub open spec fn alpn_http_version_violations(p: Profile) -> Seq<Violation> {
    match alpn_for(p.http.version) {
        None => when(
            true,
            "bad_http_version"@,
            "http.version "@ + text::decimal(p.http.version as nat)
                + " не поддерживается (только 2 или 3)"@,
        ),
        Some(want) => when(
            !lists(p.tls.alpn@, want),
            "alpn_http_mismatch"@,
            "ALPN не содержит '"@ + want + "' при http.version="@
                + text::decimal(p.http.version as nat),
        ),
    }
}

fn check_alpn_http_version(p: &Profile, errs: &mut Vec<CoherenceError>)
    ensures
        views(final(errs)@) == views(old(errs)@) + alpn_http_version_violations(*p),
{
    let want = match p.http.version {
        2 => "h2",
        3 => "h3",
        _ => {
            let mut m = String::new();
            m.append("http.version ");
            text::put_decimal(&mut m, p.http.version as u64);
            m.append(" не поддерживается (только 2 или 3)");
            assert(m@ =~= "http.version "@ + text::decimal(p.http.version as nat)
                + " не поддерживается (только 2 или 3)"@);
            report(errs, "bad_http_version", m);
            return;
        },
    };
    if !list_has(&p.tls.alpn, want) {
        let mut m = String::new();
        m.append("ALPN не содержит '");
        m.append(want);
        m.append("' при http.version=");
        text::put_decimal(&mut m, p.http.version as u64);
        assert(m@ =~= "ALPN не содержит '"@ + want@ + "' при http.version="@
            + text::decimal(p.http.version as nat));
        report(errs, "alpn_http_mismatch", m);
    }
    assert(views(errs@) =~= views(old(errs)@) + alpn_http_version_violations(*p));
}

/// Whether a carrier can stand at a placement.
pub open spec fn carrier_fits(k: CarrierType, mode: PlacementMode) -> bool {
    match k {
        CarrierType::CdnCotenant => mode == PlacementMode::Cdn,
        CarrierType::LocalCloud => mode != PlacementMode::Direct,
        CarrierType::ServiceChannel => mode != PlacementMode::Direct,
        CarrierType::Refraction => true,
        CarrierType::Direct => mode == PlacementMode::Direct,
    }
}

/// Carrier and placement fit.
pub open spec fn carrier_placement_violations(p: Profile) -> Seq<Violation> {
    when(
        !carrier_fits(p.carrier.kind, p.placement.mode),
        "carrier_placement_mismatch"@,
        "носитель "@ + carrier_name(p.carrier.kind) + " несовместим с площадкой "@
            + placement_name(p.placement.mode),
    )
}

fn check_carrier_placement(p: &Profile, errs: &mut Vec<CoherenceError>)
    ensures
        views(final(errs)@) == views(old(errs)@) + carrier_placement_violations(*p),
{
    let mode = p.placement.mode;
    let ok = match p.carrier.kind {
        CarrierType::CdnCotenant => mode == PlacementMode::Cdn,
        CarrierType::LocalCloud => mode == PlacementMode::Cdn || mode == PlacementMode::Colo,
        CarrierType::ServiceChannel => mode != PlacementMode::Direct,
        CarrierType::Refraction => true,
        CarrierType::Direct => mode == PlacementMode::Direct,
    };
    if !ok {
        let mut m = String::new();
        m.append("носитель ");
        m.append(carrier_text(p.carrier.kind));
        m.append(" несовместим с площадкой ");
        m.append(placement_text(p.placement.mode));
        assert(m@ =~= "носитель "@ + carrier_name(p.carrier.kind) + " несовместим с площадкой "@
            + placement_name(p.placement.mode));
        report(errs, "carrier_placement_mismatch", m);
    }
    assert(views(errs@) =~= views(old(errs)@) + carrier_placement_violations(*p));
}

/// The use of the carrier and the placement fit.
pub open spec fn traffic_placement_violations(p: Profile) -> Seq<Violation> {
    when(
        p.traffic.mode == TrafficMode::Stream && p.placement.mode == PlacementMode::Cdn,
        "stream_behind_cdn"@,
        "traffic.mode=stream несовместим с placement=cdn: бесконечный двунаправленный стрим не переживает CDN (нужен segments)"@,
    )
        + when(
            p.traffic.mode == TrafficMode::Segments && p.placement.mode == PlacementMode::Direct,
            "segments_direct"@,
            "traffic.mode=segments рассчитан на носитель (cdn/colo), а не direct"@,
        )
        + when(
            p.traffic.mode == TrafficMode::Datagram
                && p.carrier.kind == CarrierType::ServiceChannel,
            "datagram_service_channel"@,
            "traffic.mode=datagram несовместим с носителем service-channel"@,
        )
}

fn check_traffic_placement(p: &Profile, errs: &mut Vec<CoherenceError>)
    ensures
        views(final(errs)@) == views(old(errs)@) + traffic_placement_violations(*p),
{
    if p.traffic.mode == TrafficMode::Stream && p.placement.mode == PlacementMode::Cdn {
        report(
            errs,
            "stream_behind_cdn",
            "traffic.mode=stream несовместим с placement=cdn: бесконечный двунаправленный стрим не переживает CDN (нужен segments)".to_owned(),
        );
    }
    if p.traffic.mode == TrafficMode::Segments && p.placement.mode == PlacementMode::Direct {
        report(
            errs,
            "segments_direct",
            "traffic.mode=segments рассчитан на носитель (cdn/colo), а не direct".to_owned(),
        );
    }
    if p.traffic.mode == TrafficMode::Datagram && p.carrier.kind == CarrierType::ServiceChannel {
        report(
            errs,
            "datagram_service_channel",
            "traffic.mode=datagram несовместим с носителем service-channel".to_owned(),
        );
    }
    assert(views(errs@) =~= views(old(errs)@) + traffic_placement_violations(*p));
}

/// Whether the filter that the profile is made for takes ECH.
pub open spec fn needs_ech(p: Profile) -> bool {
    &&& p.carrier.wl_level_target == WlLevel::Sni || p.carrier.wl_level_target == WlLevel::Behave
    &&& p.carrier.kind == CarrierType::CdnCotenant || p.carrier.kind == CarrierType::LocalCloud
}

/// Where a filter reads the SNI, ECH hides it behind a name.
pub open spec fn ech_for_whitelist_violations(p: Profile) -> Seq<Violation> {
    when(
        needs_ech(p) && !p.carrier.ech.enabled,
        "ech_required"@,
        "для wl_level_target=sni/behave на co-tenancy обязателен ECH (иначе SNI виден и дропается)"@,
    )
        + when(
            needs_ech(p)
                && p.carrier.ech.enabled
                && text::trimmed(p.carrier.ech.public_name@).len() == 0,
            "ech_public_name_empty"@,
            "ECH включён, но public_name пуст: внешний SNI обязан быть разрешённым именем носителя"@,
        )
}

fn check_ech_for_whitelist(p: &Profile, errs: &mut Vec<CoherenceError>)
    ensures
        views(final(errs)@) == views(old(errs)@) + ech_for_whitelist_violations(*p),
{
    let needs = (p.carrier.wl_level_target == WlLevel::Sni || p.carrier.wl_level_target
        == WlLevel::Behave) && (p.carrier.kind == CarrierType::CdnCotenant || p.carrier.kind
        == CarrierType::LocalCloud);
    if needs && !p.carrier.ech.enabled {
        report(
            errs,
            "ech_required",
            "для wl_level_target=sni/behave на co-tenancy обязателен ECH (иначе SNI виден и дропается)".to_owned(),
        );
    }
    if needs && p.carrier.ech.enabled && text::trim(p.carrier.ech.public_name.as_str()).is_empty() {
        report(
            errs,
            "ech_public_name_empty",
            "ECH включён, но public_name пуст: внешний SNI обязан быть разрешённым именем носителя".to_owned(),
        );
    }
    assert(views(errs@) =~= views(old(errs)@) + ech_for_whitelist_violations(*p));
}

/// ECH and fronting exclude each other.
pub open spec fn ech_front_exclusive_violations(p: Profile) -> Seq<Violation> {
    when(
        p.carrier.ech.enabled && p.carrier.front.enabled,
        "ech_front_conflict"@,
        "одновременно включены ECH и legacy domain fronting — выберите одно"@,
    )
}

fn check_ech_front_exclusive(p: &Profile, errs: &mut Vec<CoherenceError>)
    ensures
        views(final(errs)@) == views(old(errs)@) + ech_front_exclusive_violations(*p),
{
    if p.carrier.ech.enabled && p.carrier.front.enabled {
        report(
            errs,
            "ech_front_conflict",
            "одновременно включены ECH и legacy domain fronting — выберите одно".to_owned(),
        );
    }
    assert(views(errs@) =~= views(old(errs)@) + ech_front_exclusive_violations(*p));
}

/// The fingerprint stays, and limits and delays make sense.
pub open spec fn budget_violations(p: Profile) -> Seq<Violation> {
    when(
        p.budget.rotate_fingerprint,
        "fingerprint_rotation"@,
        "budget.rotate_fingerprint=true запрещено: смена fingerprint под нагрузкой даёт расширенный штраф ТСПУ 600 с (§4, §9)"@,
    )
        + when(p.budget.max_tls_conns == 0, "zero_conns"@, "budget.max_tls_conns должно быть ≥ 1"@)
        + when(
            p.budget.max_tls_conns > 2,
            "too_many_conns"@,
            "budget.max_tls_conns="@ + text::decimal(p.budget.max_tls_conns as nat)
                + " превышает 2: >3 параллельных TLS к одному SNI — самый частый триггер ТСПУ (признак №5)"@,
        )
        + when(
            p.budget.backoff_base_ms == 0 || p.budget.backoff_cap_ms < p.budget.backoff_base_ms,
            "bad_backoff"@,
            "backoff_base_ms>0 и backoff_cap_ms≥backoff_base_ms"@,
        )
}

fn check_budget(p: &Profile, errs: &mut Vec<CoherenceError>)
    ensures
        views(final(errs)@) == views(old(errs)@) + budget_violations(*p),
{
    if p.budget.rotate_fingerprint {
        report(
            errs,
            "fingerprint_rotation",
            "budget.rotate_fingerprint=true запрещено: смена fingerprint под нагрузкой даёт расширенный штраф ТСПУ 600 с (§4, §9)".to_owned(),
        );
    }
    if p.budget.max_tls_conns == 0 {
        report(errs, "zero_conns", "budget.max_tls_conns должно быть ≥ 1".to_owned());
    }
    if p.budget.max_tls_conns > 2 {
        let mut m = String::new();
        m.append("budget.max_tls_conns=");
        text::put_decimal(&mut m, p.budget.max_tls_conns as u64);
        m.append(" превышает 2: >3 параллельных TLS к одному SNI — самый частый триггер ТСПУ (признак №5)");
        assert(m@ =~= "budget.max_tls_conns="@ + text::decimal(p.budget.max_tls_conns as nat)
            + " превышает 2: >3 параллельных TLS к одному SNI — самый частый триггер ТСПУ (признак №5)"@);
        report(errs, "too_many_conns", m);
    }
    if p.budget.backoff_base_ms == 0 || p.budget.backoff_cap_ms < p.budget.backoff_base_ms {
        report(
            errs,
            "bad_backoff",
            "backoff_base_ms>0 и backoff_cap_ms≥backoff_base_ms".to_owned(),
        );
    }
    assert(views(errs@) =~= views(old(errs)@) + budget_violations(*p));
}

/// The hours and the length of a session make sense.
pub open spec fn schedule_violations(p: Profile) -> Seq<Violation> {
    let start = p.schedule.active_hours@[0];
    let end = p.schedule.active_hours@[1];
    when(
        start >= end || end > 24,
        "bad_active_hours"@,
        "active_hours ["@ + text::decimal(start as nat) + ","@ + text::decimal(end as nat)
            + ") некорректны (нужно 0≤start<end≤24)"@,
    )
        + when(p.schedule.max_session_min == 0, "zero_session"@, "max_session_min должно быть > 0"@)
}

fn check_schedule(p: &Profile, errs: &mut Vec<CoherenceError>)
    ensures
        views(final(errs)@) == views(old(errs)@) + schedule_violations(*p),
{
    let start: u8 = p.schedule.active_hours[0];
    let end: u8 = p.schedule.active_hours[1];
    if start >= end || end > 24 {
        let mut m = String::new();
        m.append("active_hours [");
        text::put_decimal(&mut m, start as u64);
        m.append(",");
        text::put_decimal(&mut m, end as u64);
        m.append(") некорректны (нужно 0≤start<end≤24)");
        assert(m@ =~= "active_hours ["@ + text::decimal(start as nat) + ","@
            + text::decimal(end as nat) + ") некорректны (нужно 0≤start<end≤24)"@);
        report(errs, "bad_active_hours", m);
    }
    if p.schedule.max_session_min == 0 {
        report(errs, "zero_session", "max_session_min должно быть > 0".to_owned());
    }
    assert(views(errs@) =~= views(old(errs)@) + schedule_violations(*p));
}

/// The shape of the traffic makes sense.
pub open spec fn traffic_params_violations(p: Profile) -> Seq<Violation> {
    when(
        p.traffic.target_ratio_down_up == 0,
        "zero_ratio"@,
        "target_ratio_down_up должно быть ≥ 1"@,
    )
        + when(
            p.traffic.mode == TrafficMode::Segments && p.traffic.seg_interval_ms == 0,
            "zero_seg_interval"@,
            "segments-режим требует seg_interval_ms > 0 (иначе нет cadence)"@,
        )
        + when(
            p.traffic.mode == TrafficMode::Segments
                && text::trimmed(p.traffic.len_profile@).len() == 0,
            "no_len_profile"@,
            "segments-режим требует len_profile (распределение длин для sampler §8.1)"@,
        )
}

fn check_traffic_params(p: &Profile, errs: &mut Vec<CoherenceError>)
    ensures
        views(final(errs)@) == views(old(errs)@) + traffic_params_violations(*p),
{
    if p.traffic.target_ratio_down_up == 0 {
        report(errs, "zero_ratio", "target_ratio_down_up должно быть ≥ 1".to_owned());
    }
    if p.traffic.mode == TrafficMode::Segments && p.traffic.seg_interval_ms == 0 {
        report(
            errs,
            "zero_seg_interval",
            "segments-режим требует seg_interval_ms > 0 (иначе нет cadence)".to_owned(),
        );
    }
    if p.traffic.mode == TrafficMode::Segments
        && text::trim(p.traffic.len_profile.as_str()).is_empty() {
        report(
            errs,
            "no_len_profile",
            "segments-режим требует len_profile (распределение длин для sampler §8.1)".to_owned(),
        );
    }
    assert(views(errs@) =~= views(old(errs)@) + traffic_params_violations(*p));
}

/// The paths have their placeholders.
pub open spec fn routes_violations(p: Profile) -> Seq<Violation> {
    when(
        p.traffic.mode == TrafficMode::Segments
            && !(text::contains(p.http.routes.seg@, "{sid}"@)
            && text::contains(p.http.routes.seg@, "{n}"@)),
        "bad_seg_route"@,
        "routes.seg должен содержать {sid} и {n} для segments-режима"@,
    )
        + when(
            p.traffic.mode == TrafficMode::Segments
                && !text::contains(p.http.routes.tel@, "{sid}"@),
            "bad_tel_route"@,
            "routes.tel должен содержать {sid}"@,
        )
}

fn check_routes(p: &Profile, errs: &mut Vec<CoherenceError>)
    ensures
        views(final(errs)@) == views(old(errs)@) + routes_violations(*p),
{
    if p.traffic.mode == TrafficMode::Segments
        && !(text::has_part(p.http.routes.seg.as_str(), "{sid}")
        && text::has_part(p.http.routes.seg.as_str(), "{n}")) {
        report(
            errs,
            "bad_seg_route",
            "routes.seg должен содержать {sid} и {n} для segments-режима".to_owned(),
        );
    }
    if p.traffic.mode == TrafficMode::Segments
        && !text::has_part(p.http.routes.tel.as_str(), "{sid}") {
        report(errs, "bad_tel_route", "routes.tel должен содержать {sid}".to_owned());
    }
    assert(views(errs@) =~= views(old(errs)@) + routes_violations(*p));
}

/// All contradictions of a profile, in the order in which they are looked for.
pub open spec fn violations(p: Profile) -> Seq<Violation> {
    device_coherence_violations(p)
        + alpn_http_version_violations(p)
        + carrier_placement_violations(p)
        + traffic_placement_violations(p)
        + ech_for_whitelist_violations(p)
        + ech_front_exclusive_violations(p)
        + budget_violations(p)
        + schedule_violations(p)
        + traffic_params_violations(p)
        + routes_violations(p)
}

/// Checks a profile: it is coherent, or here is all that contradicts.
pub fn validate(p: &Profile) -> (r: Result<(), Vec<CoherenceError>>)
    ensures
        match r {
            Ok(()) => violations(*p).len() == 0,
            Err(errs) => views(errs@) == violations(*p) && violations(*p).len() > 0,
        },
{
    let mut errs: Vec<CoherenceError> = Vec::new();
    assert(views(errs@) =~= Seq::<Violation>::empty());
    check_device_coherence(p, &mut errs);
    check_alpn_http_version(p, &mut errs);
    check_carrier_placement(p, &mut errs);
    check_traffic_placement(p, &mut errs);
    check_ech_for_whitelist(p, &mut errs);
    check_ech_front_exclusive(p, &mut errs);
    check_budget(p, &mut errs);
    check_schedule(p, &mut errs);
    check_traffic_params(p, &mut errs);
    check_routes(p, &mut errs);
    assert(views(errs@) =~= violations(*p));
    assert(views(errs@).len() == errs@.len());
    if errs.len() == 0 {
        Ok(())
    } else {
        Err(errs)
    }
}

/// Whether all that can be observed describes one and the same application.
pub open spec fn coherent(p: Profile) -> bool {
    &&& family_of(p.tls.fp@) matches Some(fam) && {
        &&& p.http.settings_profile@ == fam.settings_profile
        &&& text::contains(text::lowercase(p.http.ua@), text::lowercase(fam.ua_contains))
        &&& p.tls.pq_keyshare == fam.pq_keyshare
    }
    &&& alpn_for(p.http.version) matches Some(want) && lists(p.tls.alpn@, want)
    &&& carrier_fits(p.carrier.kind, p.placement.mode)
    &&& p.traffic.mode == TrafficMode::Stream ==> p.placement.mode != PlacementMode::Cdn
    &&& p.traffic.mode == TrafficMode::Datagram ==> p.carrier.kind != CarrierType::ServiceChannel
    &&& p.traffic.mode == TrafficMode::Segments ==> {
        &&& p.placement.mode != PlacementMode::Direct
        &&& p.traffic.seg_interval_ms > 0
        &&& text::trimmed(p.traffic.len_profile@).len() > 0
        &&& text::contains(p.http.routes.seg@, "{sid}"@)
        &&& text::contains(p.http.routes.seg@, "{n}"@)
        &&& text::contains(p.http.routes.tel@, "{sid}"@)
    }
    &&& needs_ech(p) ==> p.carrier.ech.enabled && text::trimmed(
        p.carrier.ech.public_name@,
    ).len() > 0
    &&& !(p.carrier.ech.enabled && p.carrier.front.enabled)
    &&& !p.budget.rotate_fingerprint
    &&& 1 <= p.budget.max_tls_conns <= 2
    &&& 0 < p.budget.backoff_base_ms <= p.budget.backoff_cap_ms
    &&& p.schedule.active_hours@[0] < p.schedule.active_hours@[1] <= 24
    &&& p.schedule.max_session_min > 0
    &&& p.traffic.target_ratio_down_up > 0
}

proof fn lemma_device_coherence(p: Profile)
    ensures
        device_coherence_violations(p).len() == 0 <==> (family_of(p.tls.fp@) matches Some(fam)
            && p.http.settings_profile@ == fam.settings_profile && text::contains(
            text::lowercase(p.http.ua@),
            text::lowercase(fam.ua_contains),
        ) && p.tls.pq_keyshare == fam.pq_keyshare),
{
}

proof fn lemma_connection(p: Profile)
    ensures
        alpn_http_version_violations(p).len() == 0 <==> (alpn_for(p.http.version) matches Some(want)
            && lists(p.tls.alpn@, want)),
        carrier_placement_violations(p).len() == 0 <==> carrier_fits(
            p.carrier.kind,
            p.placement.mode,
        ),
        ech_for_whitelist_violations(p).len() == 0 <==> (needs_ech(p) ==> p.carrier.ech.enabled
            && text::trimmed(p.carrier.ech.public_name@).len() > 0),
        ech_front_exclusive_violations(p).len() == 0 <==> !(p.carrier.ech.enabled
            && p.carrier.front.enabled),
{
}

proof fn lemma_traffic(p: Profile)
    ensures
        traffic_placement_violations(p).len() == 0 <==> (p.traffic.mode == TrafficMode::Stream
            ==> p.placement.mode != PlacementMode::Cdn) && (p.traffic.mode == TrafficMode::Datagram
            ==> p.carrier.kind != CarrierType::ServiceChannel) && (p.traffic.mode
            == TrafficMode::Segments ==> p.placement.mode != PlacementMode::Direct),
        traffic_params_violations(p).len() == 0 <==> p.traffic.target_ratio_down_up > 0 && (
        p.traffic.mode == TrafficMode::Segments ==> p.traffic.seg_interval_ms > 0
            && text::trimmed(p.traffic.len_profile@).len() > 0),
        routes_violations(p).len() == 0 <==> (p.traffic.mode == TrafficMode::Segments
            ==> text::contains(p.http.routes.seg@, "{sid}"@) && text::contains(
            p.http.routes.seg@,
            "{n}"@,
        ) && text::contains(p.http.routes.tel@, "{sid}"@)),
{
}

proof fn lemma_limits(p: Profile)
    ensures
        budget_violations(p).len() == 0 <==> !p.budget.rotate_fingerprint && 1
            <= p.budget.max_tls_conns <= 2 && 0 < p.budget.backoff_base_ms
            <= p.budget.backoff_cap_ms,
        schedule_violations(p).len() == 0 <==> p.schedule.active_hours@[0]
            < p.schedule.active_hours@[1] <= 24 && p.schedule.max_session_min > 0,
{
}

proof fn lemma_all_empty(
    a: Seq<Violation>,
    b: Seq<Violation>,
    c: Seq<Violation>,
    d: Seq<Violation>,
    e: Seq<Violation>,
    f: Seq<Violation>,
    g: Seq<Violation>,
    h: Seq<Violation>,
    i: Seq<Violation>,
    j: Seq<Violation>,
)
    ensures
        (a + b + c + d + e + f + g + h + i + j).len() == 0 <==> a.len() == 0 && b.len() == 0
            && c.len() == 0 && d.len() == 0 && e.len() == 0 && f.len() == 0 && g.len() == 0
            && h.len() == 0 && i.len() == 0 && j.len() == 0,
{
}

/// A profile has no contradiction exactly if it is coherent.
#[verifier::rlimit(50)]
pub proof fn law_no_violation_means_coherent(p: Profile)
    ensures
        violations(p).len() == 0 <==> coherent(p),
{
    lemma_device_coherence(p);
    lemma_connection(p);
    lemma_traffic(p);
    lemma_limits(p);
    lemma_all_empty(
        device_coherence_violations(p),
        alpn_http_version_violations(p),
        carrier_placement_violations(p),
        traffic_placement_violations(p),
        ech_for_whitelist_violations(p),
        ech_front_exclusive_violations(p),
        budget_violations(p),
        schedule_violations(p),
        traffic_params_violations(p),
        routes_violations(p),
    );
}

/// The reference profile is coherent: checking it finds nothing.
pub proof fn law_example_is_coherent(p: Profile)
    requires
        model::is_example_media(p),
    ensures
        coherent(p),
        violations(p).len() == 0,
{
    let ua = "ExampleMedia/3.2 (Android 14; okhttp/4.12)"@;
    assert(text::contains(text::lowercase(ua), text::lowercase("okhttp"@))) by {
        reveal_strlit("ExampleMedia/3.2 (Android 14; okhttp/4.12)");
        reveal_strlit("okhttp");
        text::lemma_contains_at(text::lowercase(ua), text::lowercase("okhttp"@), 30);
    }
    let seg = "/v1/media/{sid}/seg/{n}.m4s"@;
    let tel = "/v1/media/{sid}/telemetry"@;
    assert(text::contains(seg, "{sid}"@) && text::contains(seg, "{n}"@) && text::contains(
        tel,
        "{sid}"@,
    )) by {
        reveal_strlit("/v1/media/{sid}/seg/{n}.m4s");
        reveal_strlit("/v1/media/{sid}/telemetry");
        reveal_strlit("{sid}");
        reveal_strlit("{n}");
        text::lemma_contains_at(seg, "{sid}"@, 10);
        text::lemma_contains_at(seg, "{n}"@, 20);
        text::lemma_contains_at(tel, "{sid}"@, 10);
    }
    assert(text::trimmed("media-abr-v1"@).len() > 0 && text::trimmed(
        "cdn-public.example-cdn.net"@,
    ).len() > 0) by {
        reveal_strlit("media-abr-v1");
        reveal_strlit("cdn-public.example-cdn.net");
        assert(!text::is_white("media-abr-v1"@[0]) && !text::is_white("media-abr-v1"@.last()));
        assert(!text::is_white("cdn-public.example-cdn.net"@[0]) && !text::is_white(
            "cdn-public.example-cdn.net"@.last(),
        ));
    }
    assert(lists(p.tls.alpn@, "h2"@));
    law_no_violation_means_coherent(p);
}

/// Whether one of these contradictions has this code and says this part.
pub open spec fn has(vs: Seq<Violation>, code: Seq<char>, part: Seq<char>) -> bool {
    exists|i: int|
        0 <= i < vs.len() && (#[trigger] vs[i]).code == code && text::contains(vs[i].message, part)
}

/// Whether a profile is reported with this code, and with a message that says this part.
pub open spec fn reported(p: Profile, code: Seq<char>, part: Seq<char>) -> bool {
    has(violations(p), code, part)
}

proof fn lemma_has_sum(a: Seq<Violation>, b: Seq<Violation>, code: Seq<char>, part: Seq<char>)
    ensures
        has(a, code, part) || has(b, code, part) ==> has(a + b, code, part),
{
    if has(a, code, part) {
        let i = choose|i: int|
            0 <= i < a.len() && (#[trigger] a[i]).code == code && text::contains(a[i].message, part);
        assert((a + b)[i] == a[i]);
    } else if has(b, code, part) {
        let i = choose|i: int|
            0 <= i < b.len() && (#[trigger] b[i]).code == code && text::contains(b[i].message, part);
        assert((a + b)[a.len() + i] == b[i]);
    }
}

proof fn lemma_has_when(cond: bool, code: Seq<char>, message: Seq<char>, part: Seq<char>)
    requires
        cond,
        text::contains(message, part),
    ensures
        has(when(cond, code, message), code, part),
{
    assert(when(cond, code, message)[0] == (Violation { code, message }));
}

/// A group that has a contradiction makes the profile have it.
proof fn lemma_reported(p: Profile, code: Seq<char>, part: Seq<char>)
    ensures
        (has(device_coherence_violations(p), code, part)
            || has(alpn_http_version_violations(p), code, part)
            || has(carrier_placement_violations(p), code, part)
            || has(traffic_placement_violations(p), code, part)
            || has(ech_for_whitelist_violations(p), code, part)
            || has(ech_front_exclusive_violations(p), code, part)
            || has(budget_violations(p), code, part)
            || has(schedule_violations(p), code, part)
            || has(traffic_params_violations(p), code, part)
            || has(routes_violations(p), code, part)) ==> reported(p, code, part),
{
    lemma_has_sum(device_coherence_violations(p), alpn_http_version_violations(p), code, part);
    lemma_has_sum(device_coherence_violations(p) + alpn_http_version_violations(p), carrier_placement_violations(p), code, part);
    lemma_has_sum(device_coherence_violations(p) + alpn_http_version_violations(p) + carrier_placement_violations(p), traffic_placement_violations(p), code, part);
    lemma_has_sum(device_coherence_violations(p) + alpn_http_version_violations(p) + carrier_placement_violations(p) + traffic_placement_violations(p), ech_for_whitelist_violations(p), code, part);
    lemma_has_sum(device_coherence_violations(p) + alpn_http_version_violations(p) + carrier_placement_violations(p) + traffic_placement_violations(p) + ech_for_whitelist_violations(p), ech_front_exclusive_violations(p), code, part);
    lemma_has_sum(device_coherence_violations(p) + alpn_http_version_violations(p) + carrier_placement_violations(p) + traffic_placement_violations(p) + ech_for_whitelist_violations(p) + ech_front_exclusive_violations(p), budget_violations(p), code, part);
    lemma_has_sum(device_coherence_violations(p) + alpn_http_version_violations(p) + carrier_placement_violations(p) + traffic_placement_violations(p) + ech_for_whitelist_violations(p) + ech_front_exclusive_violations(p) + budget_violations(p), schedule_violations(p), code, part);
    lemma_has_sum(device_coherence_violations(p) + alpn_http_version_violations(p) + carrier_placement_violations(p) + traffic_placement_violations(p) + ech_for_whitelist_violations(p) + ech_front_exclusive_violations(p) + budget_violations(p) + schedule_violations(p), traffic_params_violations(p), code, part);
    lemma_has_sum(device_coherence_violations(p) + alpn_http_version_violations(p) + carrier_placement_violations(p) + traffic_placement_violations(p) + ech_for_whitelist_violations(p) + ech_front_exclusive_violations(p) + budget_violations(p) + schedule_violations(p) + traffic_params_violations(p), routes_violations(p), code, part);
}

proof fn lemma_says(a: Seq<char>, part: Seq<char>, b: Seq<char>)
    ensures
        text::contains(a + part + b, part),
{
    text::lemma_contains_at(a + part + b, part, a.len() as int);
}

proof fn lemma_says_nothing(s: Seq<char>)
    ensures
        text::contains(s, Seq::<char>::empty()),
{
    text::lemma_contains_at(s, Seq::<char>::empty(), 0);
}

/// Which devices are known, and what belongs to each: the settings go by the name of the
/// fingerprint, the user agent names the application's library, and two of them send a
/// post-quantum key share. With any of these amiss a profile is not coherent.
pub proof fn law_coherent_profile_is_one_device(p: Profile)
    requires
        coherent(p),
    ensures
        p.tls.fp@ == "okhttp-4"@ || p.tls.fp@ == "cronet-android"@ || p.tls.fp@
            == "nsurlsession-ios"@ || p.tls.fp@ == "firefox-128"@,
        p.http.settings_profile@ == p.tls.fp@,
        p.tls.fp@ == "okhttp-4"@ ==> text::contains(text::lowercase(p.http.ua@), "okhttp"@),
        p.tls.fp@ == "cronet-android"@ ==> text::contains(text::lowercase(p.http.ua@), "cronet"@),
        p.tls.fp@ == "nsurlsession-ios"@ ==> text::contains(
            text::lowercase(p.http.ua@),
            "cfnetwork"@,
        ),
        p.tls.fp@ == "firefox-128"@ ==> text::contains(text::lowercase(p.http.ua@), "firefox"@),
        p.tls.pq_keyshare <==> p.tls.fp@ == "cronet-android"@ || p.tls.fp@ == "firefox-128"@,
{
    lemma_devices();
}

/// The names of devices differ, and the markers in lower case are these.
proof fn lemma_devices()
    ensures
        "okhttp-4"@.len() == 8,
        "cronet-android"@.len() == 14,
        "nsurlsession-ios"@.len() == 16,
        "firefox-128"@.len() == 11,
        text::lowercase("okhttp"@) == "okhttp"@,
        text::lowercase("Cronet"@) == "cronet"@,
        text::lowercase("CFNetwork"@) == "cfnetwork"@,
        text::lowercase("Firefox"@) == "firefox"@,
{
    reveal_strlit("okhttp-4");
    reveal_strlit("cronet-android");
    reveal_strlit("nsurlsession-ios");
    reveal_strlit("firefox-128");
    reveal_strlit("okhttp");
    reveal_strlit("Cronet");
    reveal_strlit("cronet");
    reveal_strlit("CFNetwork");
    reveal_strlit("cfnetwork");
    reveal_strlit("Firefox");
    reveal_strlit("firefox");
    assert(text::lowercase("okhttp"@) =~= "okhttp"@);
    assert(text::lowercase("Cronet"@) =~= "cronet"@);
    assert(text::lowercase("CFNetwork"@) =~= "cfnetwork"@);
    assert(text::lowercase("Firefox"@) =~= "firefox"@);
}

/// What a device must have: the marker of its user agent in lower case, and whether it sends a
/// post-quantum key share; nothing for an unknown device.
pub open spec fn device(fp: Seq<char>) -> Option<(Seq<char>, bool)> {
    if fp == "firefox-128"@ {
        Some(("firefox"@, true))
    } else if fp == "nsurlsession-ios"@ {
        Some(("cfnetwork"@, false))
    } else if fp == "cronet-android"@ {
        Some(("cronet"@, true))
    } else if fp == "okhttp-4"@ {
        Some(("okhttp"@, false))
    } else {
        None
    }
}

/// Every contradiction between what shows of a device is reported, with a message that names
/// what contradicts: a fingerprint that no known device has, settings that are not those of
/// the fingerprint, a user agent without the device's marker, and a key share that the device
/// does not send or lacks.
pub proof fn law_device_contradictions_are_reported(p: Profile)
    ensures
        device(p.tls.fp@) is None ==> reported(p, "unknown_fingerprint"@, p.tls.fp@),
        device(p.tls.fp@) is Some && p.http.settings_profile@ != p.tls.fp@ ==> reported(
            p,
            "settings_fp_mismatch"@,
            p.http.settings_profile@,
        ) && reported(p, "settings_fp_mismatch"@, p.tls.fp@),
        device(p.tls.fp@) matches Some((marker, pq)) && !text::contains(
            text::lowercase(p.http.ua@),
            marker,
        ) ==> reported(p, "ua_fp_mismatch"@, p.tls.fp@),
        device(p.tls.fp@) matches Some((marker, pq)) && p.tls.pq_keyshare != pq ==> reported(
            p,
            "pq_keyshare_mismatch"@,
            p.tls.fp@,
        ),
{
    lemma_devices();
    let fp = p.tls.fp@;
    lemma_reported(p, "unknown_fingerprint"@, fp);
    lemma_reported(p, "settings_fp_mismatch"@, p.http.settings_profile@);
    lemma_reported(p, "settings_fp_mismatch"@, fp);
    lemma_reported(p, "ua_fp_mismatch"@, fp);
    lemma_reported(p, "pq_keyshare_mismatch"@, fp);
    match family_of(fp) {
        None => {
            let m = "неизвестный fingerprint '"@ + fp + "': нет в реестре устройств"@;
            lemma_says("неизвестный fingerprint '"@, fp, "': нет в реестре устройств"@);
            lemma_has_when(true, "unknown_fingerprint"@, m, fp);
        },
        Some(fam) => {
            let settings = p.http.settings_profile@ != fam.settings_profile;
            let agent = !text::contains(
                text::lowercase(p.http.ua@),
                text::lowercase(fam.ua_contains),
            );
            let share = p.tls.pq_keyshare != fam.pq_keyshare;
            let m1 = "http.settings_profile '"@ + p.http.settings_profile@
                + "' не соответствует fingerprint '"@ + fp + "' (ожидалось '"@
                + fam.settings_profile + "')"@;
            let m2 = "User-Agent не содержит маркер '"@ + fam.ua_contains
                + "', ожидаемый для fingerprint '"@ + fp + "'"@;
            let m3 = "tls.pq_keyshare="@ + text::bool_chars(p.tls.pq_keyshare)
                + " не соответствует устройству '"@ + fp + "' (ожидалось "@ + text::bool_chars(
                fam.pq_keyshare,
            ) + "); имитация с рассогласованием PQ — маркер (01 §2 L2)"@;
            let w1 = when(settings, "settings_fp_mismatch"@, m1);
            let w2 = when(agent, "ua_fp_mismatch"@, m2);
            let w3 = when(share, "pq_keyshare_mismatch"@, m3);
            assert(device_coherence_violations(p) == w1 + w2 + w3);
            if settings {
                let a = "http.settings_profile '"@;
                let b = "' не соответствует fingerprint '"@ + fp + "' (ожидалось '"@
                    + fam.settings_profile + "')"@;
                assert(m1 =~= a + p.http.settings_profile@ + b);
                lemma_says(a, p.http.settings_profile@, b);
                lemma_has_when(settings, "settings_fp_mismatch"@, m1, p.http.settings_profile@);
                lemma_has_sum(w1, w2, "settings_fp_mismatch"@, p.http.settings_profile@);
                lemma_has_sum(w1 + w2, w3, "settings_fp_mismatch"@, p.http.settings_profile@);
                let a = "http.settings_profile '"@ + p.http.settings_profile@
                    + "' не соответствует fingerprint '"@;
                let b = "' (ожидалось '"@ + fam.settings_profile + "')"@;
                assert(m1 =~= a + fp + b);
                lemma_says(a, fp, b);
                lemma_has_when(settings, "settings_fp_mismatch"@, m1, fp);
                lemma_has_sum(w1, w2, "settings_fp_mismatch"@, fp);
                lemma_has_sum(w1 + w2, w3, "settings_fp_mismatch"@, fp);
            }
            if agent {
                let a = "User-Agent не содержит маркер '"@ + fam.ua_contains
                    + "', ожидаемый для fingerprint '"@;
                lemma_says(a, fp, "'"@);
                lemma_has_when(agent, "ua_fp_mismatch"@, m2, fp);
                lemma_has_sum(w1, w2, "ua_fp_mismatch"@, fp);
                lemma_has_sum(w1 + w2, w3, "ua_fp_mismatch"@, fp);
            }
            if share {
                let a = "tls.pq_keyshare="@ + text::bool_chars(p.tls.pq_keyshare)
                    + " не соответствует устройству '"@;
                let b = "' (ожидалось "@ + text::bool_chars(fam.pq_keyshare)
                    + "); имитация с рассогласованием PQ — маркер (01 §2 L2)"@;
                assert(m3 =~= a + fp + b);
                lemma_says(a, fp, b);
                lemma_has_when(share, "pq_keyshare_mismatch"@, m3, fp);
                lemma_has_sum(w1 + w2, w3, "pq_keyshare_mismatch"@, fp);
            }
        },
    }
}

/// Every contradiction of the connection is reported: a version of HTTP other than 2 and 3, and
/// an ALPN list without that version, each with the version; a carrier that cannot stand at its
/// placement; and a use that the placement or the carrier does not bear.
pub proof fn law_connection_contradictions_are_reported(p: Profile)
    ensures
        ({
            let none = Seq::<char>::empty();
            let version = text::decimal(p.http.version as nat);
            let alpn = p.tls.alpn@.map_values(|s: String| s@);
            let kind = p.carrier.kind;
            let mode = p.placement.mode;
            &&& p.http.version != 2 && p.http.version != 3 ==> reported(
                p,
                "bad_http_version"@,
                version,
            )
            &&& p.http.version == 2 && !alpn.contains("h2"@) ==> reported(
                p,
                "alpn_http_mismatch"@,
                "h2"@,
            )
            &&& p.http.version == 3 && !alpn.contains("h3"@) ==> reported(
                p,
                "alpn_http_mismatch"@,
                "h3"@,
            )
            &&& kind == CarrierType::CdnCotenant && mode != PlacementMode::Cdn ==> reported(
                p,
                "carrier_placement_mismatch"@,
                none,
            )
            &&& (kind == CarrierType::LocalCloud || kind == CarrierType::ServiceChannel) && mode
                == PlacementMode::Direct ==> reported(p, "carrier_placement_mismatch"@, none)
            &&& kind == CarrierType::Direct && mode != PlacementMode::Direct ==> reported(
                p,
                "carrier_placement_mismatch"@,
                none,
            )
            &&& p.traffic.mode == TrafficMode::Stream && mode == PlacementMode::Cdn ==> reported(
                p,
                "stream_behind_cdn"@,
                none,
            )
            &&& p.traffic.mode == TrafficMode::Segments && mode == PlacementMode::Direct ==> reported(
                p,
                "segments_direct"@,
                none,
            )
            &&& p.traffic.mode == TrafficMode::Datagram && kind == CarrierType::ServiceChannel
                ==> reported(p, "datagram_service_channel"@, none)
        }),
{
    let none = Seq::<char>::empty();
    let version = text::decimal(p.http.version as nat);
    let alpn = p.tls.alpn@.map_values(|s: String| s@);
    lemma_reported(p, "bad_http_version"@, version);
    lemma_reported(p, "alpn_http_mismatch"@, "h2"@);
    lemma_reported(p, "alpn_http_mismatch"@, "h3"@);
    lemma_reported(p, "carrier_placement_mismatch"@, none);
    lemma_reported(p, "stream_behind_cdn"@, none);
    lemma_reported(p, "segments_direct"@, none);
    lemma_reported(p, "datagram_service_channel"@, none);
    match alpn_for(p.http.version) {
        None => {
            let b = " не поддерживается (только 2 или 3)"@;
            lemma_says("http.version "@, version, b);
            lemma_has_when(true, "bad_http_version"@, "http.version "@ + version + b, version);
        },
        Some(want) => {
            if !alpn.contains(want) {
                if lists(p.tls.alpn@, want) {
                    let i = choose|i: int|
                        0 <= i < p.tls.alpn@.len() && (#[trigger] p.tls.alpn@[i])@ == want;
                    assert(alpn[i] == want);
                }
                let b = "' при http.version="@ + version;
                let m = "ALPN не содержит '"@ + want + "' при http.version="@ + version;
                assert(m =~= "ALPN не содержит '"@ + want + b);
                lemma_says("ALPN не содержит '"@, want, b);
                lemma_has_when(!lists(p.tls.alpn@, want), "alpn_http_mismatch"@, m, want);
            }
        },
    }
    if !carrier_fits(p.carrier.kind, p.placement.mode) {
        let m = "носитель "@ + carrier_name(p.carrier.kind) + " несовместим с площадкой "@
            + placement_name(p.placement.mode);
        lemma_says_nothing(m);
        lemma_has_when(true, "carrier_placement_mismatch"@, m, none);
    }
    lemma_three(
        traffic_placement_violations(p),
        p.traffic.mode == TrafficMode::Stream && p.placement.mode == PlacementMode::Cdn,
        "stream_behind_cdn"@,
        "traffic.mode=stream несовместим с placement=cdn: бесконечный двунаправленный стрим не переживает CDN (нужен segments)"@,
        p.traffic.mode == TrafficMode::Segments && p.placement.mode == PlacementMode::Direct,
        "segments_direct"@,
        "traffic.mode=segments рассчитан на носитель (cdn/colo), а не direct"@,
        p.traffic.mode == TrafficMode::Datagram && p.carrier.kind == CarrierType::ServiceChannel,
        "datagram_service_channel"@,
        "traffic.mode=datagram несовместим с носителем service-channel"@,
    );
}

/// Each of three contradictions in a row is among them.
proof fn lemma_three(
    all: Seq<Violation>,
    c1: bool,
    k1: Seq<char>,
    m1: Seq<char>,
    c2: bool,
    k2: Seq<char>,
    m2: Seq<char>,
    c3: bool,
    k3: Seq<char>,
    m3: Seq<char>,
)
    requires
        all == when(c1, k1, m1) + when(c2, k2, m2) + when(c3, k3, m3),
    ensures
        c1 ==> has(all, k1, Seq::<char>::empty()),
        c2 ==> has(all, k2, Seq::<char>::empty()),
        c3 ==> has(all, k3, Seq::<char>::empty()),
{
    let none = Seq::<char>::empty();
    let w1 = when(c1, k1, m1);
    let w2 = when(c2, k2, m2);
    let w3 = when(c3, k3, m3);
    lemma_says_nothing(m1);
    lemma_says_nothing(m2);
    lemma_says_nothing(m3);
    if c1 {
        lemma_has_when(c1, k1, m1, none);
        lemma_has_sum(w1, w2, k1, none);
        lemma_has_sum(w1 + w2, w3, k1, none);
    }
    if c2 {
        lemma_has_when(c2, k2, m2, none);
        lemma_has_sum(w1, w2, k2, none);
        lemma_has_sum(w1 + w2, w3, k2, none);
    }
    if c3 {
        lemma_has_when(c3, k3, m3, none);
        lemma_has_sum(w1 + w2, w3, k3, none);
    }
}

/// Every contradiction of hiding, limits and times is reported: a filter that reads the name
/// of the server without ECH, or with ECH and no outer name; ECH together with fronting; a
/// changing fingerprint; no connection, or more than two, with their number; a backoff without
/// a base or with a lower cap; hours that do not lie within a day, and sessions without length.
pub proof fn law_limit_contradictions_are_reported(p: Profile)
    ensures
        ({
            let none = Seq::<char>::empty();
            let level = p.carrier.wl_level_target;
            let kind = p.carrier.kind;
            let reads_name = (level == WlLevel::Sni || level == WlLevel::Behave) && (kind
                == CarrierType::CdnCotenant || kind == CarrierType::LocalCloud);
            let ech = p.carrier.ech.enabled;
            let (start, end) = (p.schedule.active_hours@[0], p.schedule.active_hours@[1]);
            &&& reads_name && !ech ==> reported(p, "ech_required"@, none)
            &&& reads_name && ech && text::all_white(p.carrier.ech.public_name@) ==> reported(
                p,
                "ech_public_name_empty"@,
                none,
            )
            &&& ech && p.carrier.front.enabled ==> reported(p, "ech_front_conflict"@, none)
            &&& p.budget.rotate_fingerprint ==> reported(p, "fingerprint_rotation"@, none)
            &&& p.budget.max_tls_conns == 0 ==> reported(p, "zero_conns"@, none)
            &&& p.budget.max_tls_conns > 2 ==> reported(
                p,
                "too_many_conns"@,
                text::decimal(p.budget.max_tls_conns as nat),
            )
            &&& p.budget.backoff_base_ms == 0 || p.budget.backoff_cap_ms < p.budget.backoff_base_ms
                ==> reported(p, "bad_backoff"@, none)
            &&& !(start < end && end <= 24) ==> reported(
                p,
                "bad_active_hours"@,
                text::decimal(start as nat) + ","@ + text::decimal(end as nat),
            )
            &&& p.schedule.max_session_min == 0 ==> reported(p, "zero_session"@, none)
        }),
{
    let none = Seq::<char>::empty();
    let conns = text::decimal(p.budget.max_tls_conns as nat);
    let start = p.schedule.active_hours@[0];
    let end = p.schedule.active_hours@[1];
    let hours = text::decimal(start as nat) + ","@ + text::decimal(end as nat);
    lemma_reported(p, "ech_required"@, none);
    lemma_reported(p, "ech_public_name_empty"@, none);
    lemma_reported(p, "ech_front_conflict"@, none);
    lemma_reported(p, "fingerprint_rotation"@, none);
    lemma_reported(p, "zero_conns"@, none);
    lemma_reported(p, "too_many_conns"@, conns);
    lemma_reported(p, "bad_backoff"@, none);
    lemma_reported(p, "bad_active_hours"@, hours);
    lemma_reported(p, "zero_session"@, none);
    lemma_white_is_empty(p.carrier.ech.public_name@);
    let c1 = needs_ech(p) && !p.carrier.ech.enabled;
    let m1 = "для wl_level_target=sni/behave на co-tenancy обязателен ECH (иначе SNI виден и дропается)"@;
    let c2 = needs_ech(p) && p.carrier.ech.enabled && text::trimmed(
        p.carrier.ech.public_name@,
    ).len() == 0;
    let m2 = "ECH включён, но public_name пуст: внешний SNI обязан быть разрешённым именем носителя"@;
    let ech = when(c1, "ech_required"@, m1) + when(c2, "ech_public_name_empty"@, m2);
    assert(ech + when(false, none, none) =~= ech);
    lemma_three(
        ech,
        c1,
        "ech_required"@,
        m1,
        c2,
        "ech_public_name_empty"@,
        m2,
        false,
        none,
        none,
    );
    if p.carrier.ech.enabled && p.carrier.front.enabled {
        let m = "одновременно включены ECH и legacy domain fronting — выберите одно"@;
        lemma_says_nothing(m);
        lemma_has_when(true, "ech_front_conflict"@, m, none);
    }
    let b1 = p.budget.rotate_fingerprint;
    let t1 = "budget.rotate_fingerprint=true запрещено: смена fingerprint под нагрузкой даёт расширенный штраф ТСПУ 600 с (§4, §9)"@;
    let b2 = p.budget.max_tls_conns == 0;
    let t2 = "budget.max_tls_conns должно быть ≥ 1"@;
    let b3 = p.budget.max_tls_conns > 2;
    let tail = " превышает 2: >3 параллельных TLS к одному SNI — самый частый триггер ТСПУ (признак №5)"@;
    let t3 = "budget.max_tls_conns="@ + conns + tail;
    let b4 = p.budget.backoff_base_ms == 0 || p.budget.backoff_cap_ms < p.budget.backoff_base_ms;
    let t4 = "backoff_base_ms>0 и backoff_cap_ms≥backoff_base_ms"@;
    let w12 = when(b1, "fingerprint_rotation"@, t1) + when(b2, "zero_conns"@, t2);
    let w3 = when(b3, "too_many_conns"@, t3);
    let w4 = when(b4, "bad_backoff"@, t4);
    assert(budget_violations(p) == w12 + w3 + w4);
    lemma_three(
        w12 + w3,
        b1,
        "fingerprint_rotation"@,
        t1,
        b2,
        "zero_conns"@,
        t2,
        b3,
        "too_many_conns"@,
        t3,
    );
    lemma_has_sum(w12 + w3, w4, "fingerprint_rotation"@, none);
    lemma_has_sum(w12 + w3, w4, "zero_conns"@, none);
    if b3 {
        lemma_says("budget.max_tls_conns="@, conns, tail);
        lemma_has_when(b3, "too_many_conns"@, t3, conns);
        lemma_has_sum(w12, w3, "too_many_conns"@, conns);
        lemma_has_sum(w12 + w3, w4, "too_many_conns"@, conns);
    }
    if b4 {
        lemma_says_nothing(t4);
        lemma_has_when(b4, "bad_backoff"@, t4, none);
        lemma_has_sum(w12 + w3, w4, "bad_backoff"@, none);
    }
    let s1 = start >= end || end > 24;
    let after = ") некорректны (нужно 0≤start<end≤24)"@;
    let h1 = "active_hours ["@ + text::decimal(start as nat) + ","@ + text::decimal(end as nat)
        + after;
    let s2 = p.schedule.max_session_min == 0;
    let h2 = "max_session_min должно быть > 0"@;
    let v1 = when(s1, "bad_active_hours"@, h1);
    let v2 = when(s2, "zero_session"@, h2);
    if s1 {
        assert(h1 =~= "active_hours ["@ + hours + after);
        lemma_says("active_hours ["@, hours, after);
        lemma_has_when(s1, "bad_active_hours"@, h1, hours);
        lemma_has_sum(v1, v2, "bad_active_hours"@, hours);
    }
    if s2 {
        lemma_says_nothing(h2);
        lemma_has_when(s2, "zero_session"@, h2, none);
        lemma_has_sum(v1, v2, "zero_session"@, none);
    }
}

/// Of white space nothing is left.
proof fn lemma_white_is_empty(s: Seq<char>)
    ensures
        text::all_white(s) <==> text::trimmed(s).len() == 0,
    decreases s.len(),
{
    if s.len() > 0 {
        if text::is_white(s[0]) {
            let t = s.drop_first();
            lemma_white_is_empty(t);
            assert(s =~= seq![s[0]] + t);
            if text::all_white(t) {
                assert forall|i: int| 0 <= i < s.len() implies text::is_white(#[trigger] s[i]) by {
                    if i > 0 {
                        assert(s[i] == t[i - 1]);
                    }
                }
            }
        } else if text::is_white(s.last()) {
            let t = s.drop_last();
            lemma_white_is_empty(t);
            assert(!text::is_white(t[0])) by {
                assert(s.len() > 1);
                assert(t[0] == s[0]);
            }
        }
    }
}

/// Every contradiction of the traffic is reported: no ratio; and for segments no interval, no
/// profile of lengths, or paths without their placeholders.
pub proof fn law_traffic_contradictions_are_reported(p: Profile)
    ensures
        ({
            let none = Seq::<char>::empty();
            let segments = p.traffic.mode == TrafficMode::Segments;
            let seg = p.http.routes.seg@;
            &&& p.traffic.target_ratio_down_up == 0 ==> reported(p, "zero_ratio"@, none)
            &&& segments && p.traffic.seg_interval_ms == 0 ==> reported(
                p,
                "zero_seg_interval"@,
                none,
            )
            &&& segments && text::all_white(p.traffic.len_profile@) ==> reported(
                p,
                "no_len_profile"@,
                none,
            )
            &&& segments && !text::contains(seg, "{sid}"@) ==> reported(p, "bad_seg_route"@, none)
            &&& segments && !text::contains(seg, "{n}"@) ==> reported(p, "bad_seg_route"@, none)
            &&& segments && !text::contains(p.http.routes.tel@, "{sid}"@) ==> reported(
                p,
                "bad_tel_route"@,
                none,
            )
        }),
{
    let none = Seq::<char>::empty();
    let segments = p.traffic.mode == TrafficMode::Segments;
    lemma_reported(p, "zero_ratio"@, none);
    lemma_reported(p, "zero_seg_interval"@, none);
    lemma_reported(p, "no_len_profile"@, none);
    lemma_reported(p, "bad_seg_route"@, none);
    lemma_reported(p, "bad_tel_route"@, none);
    lemma_white_is_empty(p.traffic.len_profile@);
    lemma_three(
        traffic_params_violations(p),
        p.traffic.target_ratio_down_up == 0,
        "zero_ratio"@,
        "target_ratio_down_up должно быть ≥ 1"@,
        segments && p.traffic.seg_interval_ms == 0,
        "zero_seg_interval"@,
        "segments-режим требует seg_interval_ms > 0 (иначе нет cadence)"@,
        segments && text::trimmed(p.traffic.len_profile@).len() == 0,
        "no_len_profile"@,
        "segments-режим требует len_profile (распределение длин для sampler §8.1)"@,
    );
    let c1 = segments && !(text::contains(p.http.routes.seg@, "{sid}"@) && text::contains(
        p.http.routes.seg@,
        "{n}"@,
    ));
    let m1 = "routes.seg должен содержать {sid} и {n} для segments-режима"@;
    let c2 = segments && !text::contains(p.http.routes.tel@, "{sid}"@);
    let m2 = "routes.tel должен содержать {sid}"@;
    let routes = when(c1, "bad_seg_route"@, m1) + when(c2, "bad_tel_route"@, m2);
    assert(routes + when(false, none, none) =~= routes);
    lemma_three(
        routes,
        c1,
        "bad_seg_route"@,
        m1,
        c2,
        "bad_tel_route"@,
        m2,
        false,
        none,
        none,
    );
}

/// One if something holds, else zero.
pub open spec fn one_if(b: bool) -> nat {
    if b {
        1
    } else {
        0
    }
}

/// Nothing else is reported: there are as many contradictions in a report as hold, so that
/// each is there once, and nothing that is no contradiction.
pub proof fn law_nothing_else_is_reported(p: Profile)
    ensures
        ({
            let fp = p.tls.fp@;
            let alpn = p.tls.alpn@.map_values(|s: String| s@);
            let kind = p.carrier.kind;
            let mode = p.placement.mode;
            let level = p.carrier.wl_level_target;
            let reads_name = (level == WlLevel::Sni || level == WlLevel::Behave) && (kind
                == CarrierType::CdnCotenant || kind == CarrierType::LocalCloud);
            let ech = p.carrier.ech.enabled;
            let segments = p.traffic.mode == TrafficMode::Segments;
            let (start, end) = (p.schedule.active_hours@[0], p.schedule.active_hours@[1]);
            let of_device = match device(fp) {
                None => 1,
                Some((marker, pq)) => one_if(p.http.settings_profile@ != fp) + one_if(
                    !text::contains(text::lowercase(p.http.ua@), marker),
                ) + one_if(p.tls.pq_keyshare != pq),
            };
            let of_http = one_if(
                !(p.http.version == 2 && alpn.contains("h2"@) || p.http.version == 3
                    && alpn.contains("h3"@)),
            );
            let of_place = one_if(
                kind == CarrierType::CdnCotenant && mode != PlacementMode::Cdn || (kind
                    == CarrierType::LocalCloud || kind == CarrierType::ServiceChannel) && mode
                    == PlacementMode::Direct || kind == CarrierType::Direct && mode
                    != PlacementMode::Direct,
            ) + one_if(p.traffic.mode == TrafficMode::Stream && mode == PlacementMode::Cdn)
                + one_if(segments && mode == PlacementMode::Direct) + one_if(
                p.traffic.mode == TrafficMode::Datagram && kind == CarrierType::ServiceChannel,
            );
            let of_hiding = one_if(reads_name && !ech) + one_if(
                reads_name && ech && text::all_white(p.carrier.ech.public_name@),
            ) + one_if(ech && p.carrier.front.enabled);
            let of_limits = one_if(p.budget.rotate_fingerprint) + one_if(
                p.budget.max_tls_conns == 0,
            ) + one_if(p.budget.max_tls_conns > 2) + one_if(
                p.budget.backoff_base_ms == 0 || p.budget.backoff_cap_ms < p.budget.backoff_base_ms,
            ) + one_if(!(start < end && end <= 24)) + one_if(p.schedule.max_session_min == 0);
            let of_traffic = one_if(p.traffic.target_ratio_down_up == 0) + one_if(
                segments && p.traffic.seg_interval_ms == 0,
            ) + one_if(segments && text::all_white(p.traffic.len_profile@)) + one_if(
                segments && !(text::contains(p.http.routes.seg@, "{sid}"@) && text::contains(
                    p.http.routes.seg@,
                    "{n}"@,
                )),
            ) + one_if(segments && !text::contains(p.http.routes.tel@, "{sid}"@));
            violations(p).len() == of_device + of_http + of_place + of_hiding + of_limits
                + of_traffic
        }),
{
    lemma_count_device(p);
    lemma_count_connection(p);
    lemma_count_hiding(p);
    lemma_count_limits(p);
    lemma_count_traffic(p);
    lemma_total(
        device_coherence_violations(p),
        alpn_http_version_violations(p),
        carrier_placement_violations(p),
        traffic_placement_violations(p),
        ech_for_whitelist_violations(p),
        ech_front_exclusive_violations(p),
        budget_violations(p),
        schedule_violations(p),
        traffic_params_violations(p),
        routes_violations(p),
    );
}

proof fn lemma_total(
    a: Seq<Violation>,
    b: Seq<Violation>,
    c: Seq<Violation>,
    d: Seq<Violation>,
    e: Seq<Violation>,
    f: Seq<Violation>,
    g: Seq<Violation>,
    h: Seq<Violation>,
    i: Seq<Violation>,
    j: Seq<Violation>,
)
    ensures
        (a + b + c + d + e + f + g + h + i + j).len() == a.len() + b.len() + c.len() + d.len()
            + e.len() + f.len() + g.len() + h.len() + i.len() + j.len(),
{
}

proof fn lemma_count_device(p: Profile)
    ensures
        device_coherence_violations(p).len() == (match device(p.tls.fp@) {
            None => 1,
            Some((marker, pq)) => one_if(p.http.settings_profile@ != p.tls.fp@) + one_if(
                !text::contains(text::lowercase(p.http.ua@), marker),
            ) + one_if(p.tls.pq_keyshare != pq),
        }),
{
    lemma_devices();
}

proof fn lemma_count_connection(p: Profile)
    ensures
        ({
            let alpn = p.tls.alpn@.map_values(|s: String| s@);
            let kind = p.carrier.kind;
            let mode = p.placement.mode;
            &&& alpn_http_version_violations(p).len() == one_if(
                !(p.http.version == 2 && alpn.contains("h2"@) || p.http.version == 3
                    && alpn.contains("h3"@)),
            )
            &&& carrier_placement_violations(p).len() == one_if(
                kind == CarrierType::CdnCotenant && mode != PlacementMode::Cdn || (kind
                    == CarrierType::LocalCloud || kind == CarrierType::ServiceChannel) && mode
                    == PlacementMode::Direct || kind == CarrierType::Direct && mode
                    != PlacementMode::Direct,
            )
            &&& traffic_placement_violations(p).len() == one_if(
                p.traffic.mode == TrafficMode::Stream && mode == PlacementMode::Cdn,
            ) + one_if(p.traffic.mode == TrafficMode::Segments && mode == PlacementMode::Direct)
                + one_if(
                p.traffic.mode == TrafficMode::Datagram && kind == CarrierType::ServiceChannel,
            )
        }),
{
    lemma_lists(p.tls.alpn@, "h2"@);
    lemma_lists(p.tls.alpn@, "h3"@);
}

proof fn lemma_count_hiding(p: Profile)
    ensures
        ({
            let kind = p.carrier.kind;
            let level = p.carrier.wl_level_target;
            let reads_name = (level == WlLevel::Sni || level == WlLevel::Behave) && (kind
                == CarrierType::CdnCotenant || kind == CarrierType::LocalCloud);
            let ech = p.carrier.ech.enabled;
            &&& ech_for_whitelist_violations(p).len() == one_if(reads_name && !ech) + one_if(
                reads_name && ech && text::all_white(p.carrier.ech.public_name@),
            )
            &&& ech_front_exclusive_violations(p).len() == one_if(ech && p.carrier.front.enabled)
        }),
{
    lemma_white_is_empty(p.carrier.ech.public_name@);
}

proof fn lemma_count_limits(p: Profile)
    ensures
        budget_violations(p).len() == one_if(p.budget.rotate_fingerprint) + one_if(
            p.budget.max_tls_conns == 0,
        ) + one_if(p.budget.max_tls_conns > 2) + one_if(
            p.budget.backoff_base_ms == 0 || p.budget.backoff_cap_ms < p.budget.backoff_base_ms,
        ),
        schedule_violations(p).len() == one_if(
            !(p.schedule.active_hours@[0] < p.schedule.active_hours@[1]
                && p.schedule.active_hours@[1] <= 24),
        ) + one_if(p.schedule.max_session_min == 0),
{
}

proof fn lemma_count_traffic(p: Profile)
    ensures
        ({
            let segments = p.traffic.mode == TrafficMode::Segments;
            &&& traffic_params_violations(p).len() == one_if(p.traffic.target_ratio_down_up == 0)
                + one_if(segments && p.traffic.seg_interval_ms == 0) + one_if(
                segments && text::all_white(p.traffic.len_profile@),
            )
            &&& routes_violations(p).len() == one_if(
                segments && !(text::contains(p.http.routes.seg@, "{sid}"@) && text::contains(
                    p.http.routes.seg@,
                    "{n}"@,
                )),
            ) + one_if(segments && !text::contains(p.http.routes.tel@, "{sid}"@))
        }),
{
    lemma_white_is_empty(p.traffic.len_profile@);
}

proof fn lemma_lists(texts: Seq<String>, want: Seq<char>)
    ensures
        lists(texts, want) <==> texts.map_values(|s: String| s@).contains(want),
{
    let all = texts.map_values(|s: String| s@);
    if lists(texts, want) {
        let i = choose|i: int| 0 <= i < texts.len() && (#[trigger] texts[i])@ == want;
        assert(all[i] == want);
    }
    if all.contains(want) {
        let i = choose|i: int| 0 <= i < all.len() && all[i] == want;
        assert(texts[i]@ == want);
    }
}

/// What is named in a message about carrier and placement is what the profile has.
pub proof fn law_places_are_named(k: CarrierType, m: PlacementMode)
    ensures
        k == CarrierType::CdnCotenant ==> carrier_name(k) == "CdnCotenant"@,
        k == CarrierType::LocalCloud ==> carrier_name(k) == "LocalCloud"@,
        k == CarrierType::ServiceChannel ==> carrier_name(k) == "ServiceChannel"@,
        k == CarrierType::Refraction ==> carrier_name(k) == "Refraction"@,
        k == CarrierType::Direct ==> carrier_name(k) == "Direct"@,
        m == PlacementMode::Cdn ==> placement_name(m) == "Cdn"@,
        m == PlacementMode::Colo ==> placement_name(m) == "Colo"@,
        m == PlacementMode::Direct ==> placement_name(m) == "Direct"@,
{
}

} // verus!
