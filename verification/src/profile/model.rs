//! What a profile consists of. A user picks one as a whole: pieces of several do not
//! fit together.

use vstd::prelude::*;

verus! {

/// A complete profile.
#[derive(Debug, Clone, PartialEq, Eq)]
pub struct Profile {
    pub id: String,
    pub identity: Identity,
    pub placement: Placement,
    pub carrier: Carrier,
    pub tls: Tls,
    pub http: Http,
    pub session: Session,
    pub traffic: Traffic,
    pub budget: Budget,
    pub schedule: Schedule,
}

/// Domain and certificate.
#[derive(Debug, Clone, PartialEq, Eq)]
pub struct Identity {
    pub domain: String,
    pub acme: bool,
}

/// Where the server stands.
#[derive(Debug, Clone, Copy, PartialEq, Eq, Structural)]
pub enum PlacementMode {
    /// Behind a shared CDN, which ends the TLS session.
    Cdn,
    /// On a host that has other visitors too.
    Colo,
    /// On a server of its own.
    Direct,
}

/// The placement of the server.
#[derive(Debug, Clone, PartialEq, Eq)]
pub struct Placement {
    pub mode: PlacementMode,
    pub target_asn_class: String,
}

/// What carries the traffic.
#[derive(Debug, Clone, Copy, PartialEq, Eq, Structural)]
pub enum CarrierType {
    /// A tenant of a shared CDN.
    CdnCotenant,
    /// A local cloud that is allowed.
    LocalCloud,
    /// A service that is allowed, used as a channel.
    ServiceChannel,
    /// Decoy routing.
    Refraction,
    /// Nothing: a direct connection.
    Direct,
}

/// How strict a filter the profile is made for.
#[derive(Debug, Clone, Copy, PartialEq, Eq, Structural)]
pub enum WlLevel {
    /// Any, getting by with less where it must.
    Auto,
    /// By address.
    Ip,
    /// By address and SNI, which takes ECH.
    Sni,
    /// By address, SNI and behaviour.
    Behave,
}

/// Encrypted ClientHello.
#[derive(Debug, Clone, PartialEq, Eq)]
pub struct Ech {
    pub enabled: bool,
    /// The outer name that anyone sees.
    pub public_name: String,
    /// Where the configuration comes from.
    pub config_source: String,
}

/// Classic domain fronting.
#[derive(Debug, Clone, PartialEq, Eq)]
pub struct Front {
    pub enabled: bool,
    pub sni: String,
    pub host: String,
}

impl Default for Front {
    fn default() -> (f: Self)
        ensures
            !f.enabled,
            f.sni@ == Seq::<char>::empty(),
            f.host@ == Seq::<char>::empty(),
    {
        Front { enabled: false, sni: String::new(), host: String::new() }
    }
}

/// The carrier.
#[derive(Debug, Clone, PartialEq, Eq)]
pub struct Carrier {
    pub kind: CarrierType,
    pub endpoint_domain: String,
    pub ech: Ech,
    pub front: Front,
    pub wl_level_target: WlLevel,
}

/// How TLS looks.
#[derive(Debug, Clone, PartialEq, Eq)]
pub struct Tls {
    pub alpn: Vec<String>,
    /// The name of a fingerprint.
    pub fp: String,
    /// Whether a post-quantum key share is sent.
    pub pq_keyshare: bool,
}

/// Paths of the carrier.
#[derive(Debug, Clone, PartialEq, Eq)]
pub struct Routes {
    /// The path of a segment, which goes down.
    pub seg: String,
    /// The path of telemetry, which goes up.
    pub tel: String,
}

/// How HTTP looks.
#[derive(Debug, Clone, PartialEq, Eq)]
pub struct Http {
    /// 2 or 3.
    pub version: u8,
    /// The name of a set of HTTP/2 settings.
    pub settings_profile: String,
    pub ua: String,
    pub routes: Routes,
}

/// Cookies.
#[derive(Debug, Clone, PartialEq, Eq)]
pub struct Session {
    /// The cookie that holds the token.
    pub auth_cookie: String,
    /// What the second cookie always holds.
    pub profile_cookie_val: String,
}

/// How the carrier is used.
#[derive(Debug, Clone, Copy, PartialEq, Eq, Structural)]
pub enum TrafficMode {
    /// One stream in both directions.
    Stream,
    /// Segments down and telemetry up.
    Segments,
    /// Datagrams.
    Datagram,
}

/// The shape of the traffic.
#[derive(Debug, Clone, PartialEq, Eq)]
pub struct Traffic {
    pub mode: TrafficMode,
    pub seg_interval_ms: u64,
    pub seg_jitter_ms: u64,
    /// The name of a distribution of lengths.
    pub len_profile: String,
    pub target_ratio_down_up: u32,
    pub idle_fill: bool,
}

/// The budget of connections.
#[derive(Debug, Clone, Copy, PartialEq, Eq)]
pub struct Budget {
    pub max_tls_conns: u32,
    pub min_conn_interval_ms: u64,
    pub backoff_base_ms: u64,
    pub backoff_cap_ms: u64,
    /// Must be off: a change of fingerprint under load is punished.
    pub rotate_fingerprint: bool,
}

/// When the profile is in use.
#[derive(Debug, Clone, Copy, PartialEq, Eq)]
pub struct Schedule {
    /// The hours from the first up to the second.
    pub active_hours: [u8; 2],
    pub max_session_min: u32,
}

/// Whether `p` is the reference profile: media segments over HTTP/2 behind a CDN, with
/// ECH.
pub open spec fn is_example_media(p: Profile) -> bool {
    &&& p.id@ == "media-abr-h2-v1"@
    &&& p.identity.domain@ == "app.example-media.tld"@
    &&& p.identity.acme
    &&& p.placement.mode == PlacementMode::Cdn
    &&& p.placement.target_asn_class@ == "cdn"@
    &&& p.carrier.kind == CarrierType::CdnCotenant
    &&& p.carrier.endpoint_domain@ == "app.example-media.tld"@
    &&& p.carrier.ech.enabled
    &&& p.carrier.ech.public_name@ == "cdn-public.example-cdn.net"@
    &&& p.carrier.ech.config_source@ == "dns-https-rr"@
    &&& !p.carrier.front.enabled
    &&& p.carrier.front.sni@.len() == 0
    &&& p.carrier.front.host@.len() == 0
    &&& p.carrier.wl_level_target == WlLevel::Sni
    &&& p.tls.alpn@.len() == 1 && p.tls.alpn@[0]@ == "h2"@
    &&& p.tls.fp@ == "okhttp-4"@
    &&& !p.tls.pq_keyshare
    &&& p.http.version == 2
    &&& p.http.settings_profile@ == "okhttp-4"@
    &&& p.http.ua@ == "ExampleMedia/3.2 (Android 14; okhttp/4.12)"@
    &&& p.http.routes.seg@ == "/v1/media/{sid}/seg/{n}.m4s"@
    &&& p.http.routes.tel@ == "/v1/media/{sid}/telemetry"@
    &&& p.session.auth_cookie@ == "sid"@
    &&& p.session.profile_cookie_val@ == "m1"@
    &&& p.traffic.mode == TrafficMode::Segments
    &&& p.traffic.seg_interval_ms == 4000
    &&& p.traffic.seg_jitter_ms == 800
    &&& p.traffic.len_profile@ == "media-abr-v1"@
    &&& p.traffic.target_ratio_down_up == 15
    &&& p.traffic.idle_fill
    &&& p.budget.max_tls_conns == 1
    &&& p.budget.min_conn_interval_ms == 800
    &&& p.budget.backoff_base_ms == 2000
    &&& p.budget.backoff_cap_ms == 300000
    &&& !p.budget.rotate_fingerprint
    &&& p.schedule.active_hours@ == seq![7u8, 24u8]
    &&& p.schedule.max_session_min == 180
}

impl Profile {
    /// The reference profile.
    pub fn example_media() -> (p: Self)
        ensures
            is_example_media(p),
    {
        Profile {
            id: "media-abr-h2-v1".to_owned(),
            identity: Identity { domain: "app.example-media.tld".to_owned(), acme: true },
            placement: Placement {
                mode: PlacementMode::Cdn,
                target_asn_class: "cdn".to_owned(),
            },
            carrier: Carrier {
                kind: CarrierType::CdnCotenant,
                endpoint_domain: "app.example-media.tld".to_owned(),
                ech: Ech {
                    enabled: true,
                    public_name: "cdn-public.example-cdn.net".to_owned(),
                    config_source: "dns-https-rr".to_owned(),
                },
                front: Front::default(),
                wl_level_target: WlLevel::Sni,
            },
            tls: Tls {
                alpn: vec!["h2".to_owned()],
                fp: "okhttp-4".to_owned(),
                pq_keyshare: false,
            },
            http: Http {
                version: 2,
                settings_profile: "okhttp-4".to_owned(),
                ua: "ExampleMedia/3.2 (Android 14; okhttp/4.12)".to_owned(),
                routes: Routes {
                    seg: "/v1/media/{sid}/seg/{n}.m4s".to_owned(),
                    tel: "/v1/media/{sid}/telemetry".to_owned(),
                },
            },
            session: Session {
                auth_cookie: "sid".to_owned(),
                profile_cookie_val: "m1".to_owned(),
            },
            traffic: Traffic {
                mode: TrafficMode::Segments,
                seg_interval_ms: 4000,
                seg_jitter_ms: 800,
                len_profile: "media-abr-v1".to_owned(),
                target_ratio_down_up: 15,
                idle_fill: true,
            },
            budget: Budget {
                max_tls_conns: 1,
                min_conn_interval_ms: 800,
                backoff_base_ms: 2000,
                backoff_cap_ms: 300000,
                rotate_fingerprint: false,
            },
            schedule: Schedule { active_hours: [7, 24], max_session_min: 180 },
        }
    }
}

} // verus!
