//! Settings of the programs: keys and secrets as text, and what follows from a profile.

use crate::carrier::http;
use crate::carrier::tls;
use crate::carrier::tls::TlsMode;
use crate::discipline::backoff;
use crate::discipline::backoff::Backoff;
use crate::discipline::budget;
use crate::discipline::budget::ConnectionBudget;
use crate::discipline::clock::{Clock, Jitter};
use crate::discipline::manager;
use crate::discipline::manager::{ConnectionManager, ManagerAction, ManagerView};
use crate::profile::model::Profile;
use crate::profile::validate;
use crate::random;
use crate::shaping::cadence::Cadence;
use crate::text;
use crate::wire::noise;
use crate::wire::noise::Keypair;
use crate::wire::radix64;
use crate::wire::radix64::Form;
use vstd::prelude::*;

verus! {

/// Bytes as base64.
pub fn b64_encode(bytes: &[u8]) -> (s: String)
    requires
        radix64::text_len(Form::Standard, bytes@.len()) <= isize::MAX,
    ensures
        s@ == radix64::text(Form::Standard, bytes@),
{
    radix64::encode_standard(bytes)
}

/// The message for a malformed base64 text. It ends in the explanation of the `base64`
/// crate.
pub open spec fn bad_base64(s: Seq<char>) -> Seq<char> {
    "некорректный base64: "@ + radix64::error_text(radix64::decode_error(text::trimmed(s)))
}

/// Whether this is the message for a text that stands for no secret.
pub open spec fn is_bad_psk(s: Seq<char>, message: Seq<char>) -> bool {
    &&& forall|b: Seq<u8>|
        b.len() == 32 ==> #[trigger] radix64::text(Form::Standard, b) != text::trimmed(s)
    &&& if radix64::is_text(Form::Standard, text::trimmed(s)) {
        message == "PSK должен быть ровно 32 байта"@
    } else {
        message == bad_base64(s)
    }
}

/// The bytes that a base64 text stands for; white space around it does not matter.
pub fn b64_decode(s: &str) -> (r: Result<Vec<u8>, String>)
    ensures
        match r {
            Ok(v) => radix64::text(Form::Standard, v@) == text::trimmed(s@),
            Err(m) => !radix64::is_text(Form::Standard, text::trimmed(s@))
                && m@ == bad_base64(s@),
        },
{
    match radix64::decode_standard(text::trim(s)) {
        Ok(v) => Ok(v),
        Err(e) => {
            let mut m = "некорректный base64: ".to_owned();
            let why = radix64::explain(&e);
            m.append(why.as_str());
            Err(m)
        },
    }
}

/// The shared secret that a text stands for: exactly 32 bytes.
pub fn decode_psk(s: &str) -> (r: Result<[u8; 32], String>)
    ensures
        match r {
            Ok(psk) => radix64::text(Form::Standard, psk@) == text::trimmed(s@),
            Err(m) => is_bad_psk(s@, m@),
        },
{
    let v = match b64_decode(s) {
        Ok(v) => v,
        Err(m) => return Err(m),
    };
    if v.len() != 32 {
        proof {
            assert forall|b: Seq<u8>| b.len() == 32 implies #[trigger] radix64::text(
                Form::Standard,
                b,
            ) != text::trimmed(s@) by {
                if radix64::text(Form::Standard, b) == text::trimmed(s@) {
                    radix64::law_text_injective(Form::Standard, b, v@);
                }
            }
        }
        return Err("PSK должен быть ровно 32 байта".to_owned());
    }
    Ok(array32(v.as_slice()))
}

fn array32(bytes: &[u8]) -> (a: [u8; 32])
    requires
        bytes@.len() == 32,
    ensures
        a@ == bytes@,
{
    let mut a: [u8; 32] = [0; 32];
    let mut i: usize = 0;
    while i < 32
        invariant
            i <= 32,
            bytes@.len() == 32,
            forall|j: int| 0 <= j < i ==> a@[j] == bytes@[j],
        decreases 32 - i,
    {
        a[i] = bytes[i];
        i += 1;
    }
    assert(a@ =~= bytes@);
    a
}

/// A secret that was written as text is read back, with or without white space around it:
/// the text is not refused, and no other secret has it.
pub proof fn law_psk_roundtrip(psk: Seq<u8>, s: Seq<char>)
    requires
        psk.len() == 32,
        s == radix64::text(Form::Standard, psk) || text::trimmed(s) == radix64::text(
            Form::Standard,
            psk,
        ),
    ensures
        text::trimmed(s) == radix64::text(Form::Standard, psk),
        forall|m: Seq<char>| !#[trigger] is_bad_psk(s, m),
        forall|read: Seq<u8>| #[trigger]
            radix64::text(Form::Standard, read) == text::trimmed(s) ==> read == psk,
{
    let written = radix64::text(Form::Standard, psk);
    if s == written {
        radix64::lemma_text_len(Form::Standard, psk);
        radix64::lemma_standard_text_not_white(psk);
        assert(!text::is_white(s[0]) && !text::is_white(s.last()));
    }
    assert forall|read: Seq<u8>| #[trigger]
        radix64::text(Form::Standard, read) == text::trimmed(s) implies read == psk by {
        radix64::law_text_injective(Form::Standard, read, psk);
    }
}

/// What comes of a server's secret, if it is given.
pub open spec fn secret_chosen(
    given: Option<Seq<char>>,
    r: Result<([u8; 32], bool), String>,
) -> bool {
    match given {
        Some(s) => match r {
            Ok((psk, fresh)) => !fresh && radix64::text(Form::Standard, psk@) == text::trimmed(s),
            Err(m) => is_bad_psk(s, m@),
        },
        None => r matches Ok((psk, fresh)) && fresh,
    }
}

/// A server's secret: the given one, or a random one that it must show. The second part
/// tells whether it is random.
pub fn server_psk(given: Option<&str>) -> (r: Result<([u8; 32], bool), String>)
    ensures
        secret_chosen(http::chars_if_any(given), r),
{
    match given {
        Some(s) => match decode_psk(s) {
            Ok(psk) => Ok((psk, false)),
            Err(m) => Err(m),
        },
        None => Ok((array32(random::os_random(32).as_slice()), true)),
    }
}

/// What comes of the two keys of a server, as far as they are given.
pub open spec fn keys_chosen(
    private: Option<Seq<char>>,
    public: Option<Seq<char>>,
    r: Result<(Keypair, bool), String>,
) -> bool {
    match (private, public) {
        (Some(pv), Some(pb)) => match r {
            Ok((pair, fresh)) => {
                &&& !fresh
                &&& radix64::text(Form::Standard, pair.private@) == text::trimmed(pv)
                &&& radix64::text(Form::Standard, pair.public@) == text::trimmed(pb)
            },
            Err(m) => if !radix64::is_text(Form::Standard, text::trimmed(pv)) {
                m@ == bad_base64(pv)
            } else {
                !radix64::is_text(Form::Standard, text::trimmed(pb)) && m@ == bad_base64(pb)
            },
        },
        _ => r matches Ok((pair, fresh)) && fresh && pair.private@.len() == 32 && pair.public@
            == noise::x25519_public(pair.private@),
    }
}

/// A server's key pair: the given one, if both keys are given, or else a fresh one that
/// it must show. The second part tells whether it is fresh. The two given keys are
/// taken as they are.
pub fn server_keys(private: Option<&str>, public: Option<&str>) -> (r: Result<
    (Keypair, bool),
    String,
>)
    ensures
        keys_chosen(http::chars_if_any(private), http::chars_if_any(public), r),
{
    if let Some(pv) = private {
        if let Some(pb) = public {
            let private = match b64_decode(pv) {
                Ok(v) => v,
                Err(m) => return Err(m),
            };
            let public = match b64_decode(pb) {
                Ok(v) => v,
                Err(m) => return Err(m),
            };
            return Ok((Keypair { private, public }, false));
        }
    }
    match noise::generate_keypair() {
        Ok(pair) => Ok((pair, true)),
        Err(_) => Err("noise".to_owned()),
    }
}

/// What the budget of a client is made of.
pub open spec fn budget_params(p: Option<Profile>) -> (u32, u64, u64, u64) {
    match p {
        Some(p) => (
            p.budget.max_tls_conns,
            p.budget.min_conn_interval_ms,
            p.budget.backoff_base_ms,
            p.budget.backoff_cap_ms,
        ),
        None => (1u32, 800u64, 2000u64, 300000u64),
    }
}

/// A profile behind a reference.
pub open spec fn deref_profile(p: Option<&Profile>) -> Option<Profile> {
    match p {
        Some(p) => Some(*p),
        None => None,
    }
}

/// The budget of a client: that of its profile, or a cautious one.
pub fn client_budget(profile: Option<&Profile>) -> (b: ConnectionBudget)
    requires
        budget_params(deref_profile(profile)).0 >= 1,
    ensures
        ({
            let (max_conns, min_interval, base, cap) = budget_params(deref_profile(profile));
            b@ == budget::fresh_budget(max_conns, min_interval, backoff::fresh_backoff(base, cap))
        }),
{
    match profile {
        Some(p) => ConnectionBudget::new(
            p.budget.max_tls_conns,
            p.budget.min_conn_interval_ms,
            Backoff::new(p.budget.backoff_base_ms, p.budget.backoff_cap_ms),
        ),
        None => ConnectionBudget::new(1, 800, Backoff::new(2000, 300000)),
    }
}

/// A profile that is coherent gives a budget of one or two connections.
pub proof fn law_coherent_profile_has_budget(p: Profile)
    requires
        validate::violations(p).len() == 0,
    ensures
        1 <= budget_params(Some(p)).0 <= 2,
        0 < budget_params(Some(p)).2 <= budget_params(Some(p)).3,
{
    validate::law_no_violation_means_coherent(p);
}

/// What the rhythm of a client is made of: interval, jitter, and whether it fills idle times.
pub open spec fn cadence_params(p: Option<Profile>) -> (u64, u64, bool) {
    match p {
        Some(p) => (
            if p.traffic.seg_interval_ms < 1000 {
                1000u64
            } else {
                p.traffic.seg_interval_ms
            },
            p.traffic.seg_jitter_ms,
            p.traffic.idle_fill,
        ),
        None => (15000u64, 3000u64, true),
    }
}

/// The rhythm of a client: that of its profile, at least a second apart, or a slow one.
pub fn client_cadence(profile: Option<&Profile>) -> (c: Cadence)
    ensures
        (c.interval(), c.jitter(), c.fills_idle()) == cadence_params(deref_profile(profile)),
{
    match profile {
        Some(p) => {
            let interval: u64 = if p.traffic.seg_interval_ms < 1000 {
                1000
            } else {
                p.traffic.seg_interval_ms
            };
            Cadence::new(interval, p.traffic.seg_jitter_ms, p.traffic.idle_fill)
        },
        None => Cadence::new(15000, 3000, true),
    }
}

/// Whether a mode is that of segments.
pub open spec fn names_segments(mode: Seq<char>) -> bool {
    mode == "segments"@
}

/// Whether a client asks for segments: the mode is `segments`.
pub fn wants_segments(mode: &str) -> (b: bool)
    ensures
        b == names_segments(mode@),
{
    text::same(mode, "segments")
}

/// What comes of a list of ECH configurations, if there is one, and of a way to do without.
pub open spec fn tls_chosen(
    ech_config: Option<Seq<char>>,
    ech: Option<Seq<char>>,
    r: Result<TlsMode, String>,
) -> bool {
    match ech_config {
        Some(s) => if radix64::is_text(Form::Standard, text::trimmed(s)) {
            exists|list: Seq<u8>| #[trigger]
                radix64::text(Form::Standard, list) == text::trimmed(s) && tls::ech_outcome(
                    list,
                    tls::ech_refusal(list),
                    r,
                )
        } else {
            r matches Err(m) && m@ == bad_base64(s)
        },
        None => match ech {
            Some(m) => r == Ok::<TlsMode, String>(
                if m == "grease"@ {
                    TlsMode::Grease
                } else {
                    TlsMode::Plain
                },
            ),
            None => r == Ok::<TlsMode, String>(TlsMode::Plain),
        },
    }
}

/// Chooses how a client hides the name of its server in TLS: a list of ECH configurations
/// comes first, which has to be of use, then `grease`.
pub fn tls_mode(ech_config: Option<&str>, ech: Option<&str>) -> (r: Result<TlsMode, String>)
    ensures
        tls_chosen(http::chars_if_any(ech_config), http::chars_if_any(ech), r),
{
    match ech_config {
        Some(s) => match b64_decode(s) {
            Ok(list) => tls::client_config_ech(list),
            Err(m) => Err(m),
        },
        None => match ech {
            Some(m) => if text::same(m, "grease") {
                Ok(TlsMode::Grease)
            } else {
                Ok(TlsMode::Plain)
            },
            None => Ok(TlsMode::Plain),
        },
    }
}

/// The pause behind an action, nothing where a connection is made.
pub open spec fn pause_for(action: ManagerAction) -> Option<u64> {
    match action {
        ManagerAction::Connect => None::<u64>,
        ManagerAction::Wait(ms) => Some(
            if ms < 50 {
                50
            } else {
                ms
            },
        ),
        ManagerAction::NetworkDown(ms) => Some(
            if ms < 50 {
                50
            } else {
                ms
            },
        ),
        ManagerAction::AtCapacity => Some(500u64),
        ManagerAction::Frozen { until_ms, then } => Some(1000u64),
    }
}

/// How long a client pauses before it asks its manager again; nothing where it connects.
pub fn pause_ms(action: &ManagerAction) -> (r: Option<u64>)
    ensures
        r == pause_for(*action),
{
    match action {
        ManagerAction::Connect => None,
        ManagerAction::Wait(ms) => Some(at_least_50(*ms)),
        ManagerAction::NetworkDown(ms) => Some(at_least_50(*ms)),
        ManagerAction::AtCapacity => Some(500),
        ManagerAction::Frozen { .. } => Some(1000),
    }
}

fn at_least_50(ms: u64) -> (r: u64)
    ensures
        r == (if ms < 50 {
            50
        } else {
            ms
        }),
{
    if ms < 50 {
        50
    } else {
        ms
    }
}

/// The counts of a tunnel when they were last looked at.
#[derive(Debug, Clone, Copy)]
pub struct TrafficMonitor {
    pub last_up: u64,
    pub last_down: u64,
}

/// What the counts of a tunnel tell its manager: an answer, or else something sent.
pub open spec fn after_traffic(
    m: ManagerView,
    received: bool,
    sent: bool,
    now: u64,
) -> ManagerView {
    if received {
        ManagerView {
            detector: m.detector.after_recv(now),
            freeze: m.freeze.recovered(),
            ..m
        }
    } else if sent {
        ManagerView { detector: m.detector.after_sent(now), ..m }
    } else {
        m
    }
}

/// The manager behind an observation of another host, if there was one.
pub open spec fn after_observation(m: ManagerView, reference: Option<bool>, now: u64) -> ManagerView {
    match reference {
        Some(ok) => ManagerView { detector: m.detector.after_reference(now, ok), ..m },
        None => m,
    }
}

impl TrafficMonitor {
    /// What a look at these counts, up and down, and at another host does to the manager, with
    /// the three times at which the clock is read, and whether the tunnel is given up.
    pub open spec fn looked(
        self,
        counts: (u64, u64),
        reference: Option<bool>,
        times: (u64, u64, u64),
        before: ManagerView,
        after: ManagerView,
        give_up: bool,
    ) -> bool {
        let told = after_traffic(
            before,
            counts.1 > self.last_down,
            counts.0 > self.last_up,
            times.0,
        );
        let informed = after_observation(told, reference, times.1);
        &&& after == informed.after_poll(times.2)
        &&& give_up == (informed.action(times.2) is Frozen)
    }

    /// A monitor that has seen these counts.
    pub fn new(up: u64, down: u64) -> (m: Self)
        ensures
            m == (TrafficMonitor { last_up: up, last_down: down }),
    {
        TrafficMonitor { last_up: up, last_down: down }
    }

    /// Looks at the counts, tells the manager, and asks it whether the tunnel has to be
    /// given up. The clock is read for each of the three.
    pub fn tick<C: Clock, J: Jitter>(
        &mut self,
        mgr: &mut ConnectionManager<C, J>,
        up: u64,
        down: u64,
        reference: Option<bool>,
    ) -> (give_up: bool)
        ensures
            *final(self) == (TrafficMonitor { last_up: up, last_down: down }),
            final(mgr).clock == old(mgr).clock,
            final(mgr).jitter == old(mgr).jitter,
            exists|t1: u64, t2: u64, t3: u64|
                {
                    &&& #[trigger] old(mgr).clock.shows(t1)
                    &&& #[trigger] old(mgr).clock.shows(t2)
                    &&& #[trigger] old(mgr).clock.shows(t3)
                    &&& old(self).looked(
                        (up, down),
                        reference,
                        (t1, t2, t3),
                        old(mgr)@,
                        final(mgr)@,
                        give_up,
                    )
                },
    {
        let sent = up > self.last_up;
        let recv = down > self.last_down;
        self.last_up = up;
        self.last_down = down;
        let ghost start = mgr@;
        if recv {
            mgr.note_recv();
        } else if sent {
            mgr.note_sent();
        }
        let ghost told = mgr@;
        if let Some(ok) = reference {
            mgr.note_reference(ok);
        }
        let ghost informed = mgr@;
        let action = mgr.poll();
        let ghost t3 = choose|t: u64| #[trigger]
            mgr.clock.shows(t) && manager::polled(informed, mgr@, t, action);
        let ghost t1 = if recv || sent {
            choose|t: u64| #[trigger]
                mgr.clock.shows(t) && told == after_traffic(start, recv, sent, t)
        } else {
            t3
        };
        let ghost t2 = if reference is Some {
            choose|t: u64| #[trigger]
                mgr.clock.shows(t) && informed == after_observation(told, reference, t)
        } else {
            t3
        };
        assert(old(mgr).clock.shows(t1) && old(mgr).clock.shows(t2) && old(mgr).clock.shows(t3));
        match action {
            ManagerAction::Frozen { .. } => true,
            _ => false,
        }
    }
}

/// A budget is that of the profile, value by value; without one it is a single connection,
/// attempts 800 milliseconds apart, and a backoff from two seconds to five minutes.
pub proof fn law_budget_comes_from_profile(p: Profile)
    ensures
        budget_params(Some(p)).0 == p.budget.max_tls_conns,
        budget_params(Some(p)).1 == p.budget.min_conn_interval_ms,
        budget_params(Some(p)).2 == p.budget.backoff_base_ms,
        budget_params(Some(p)).3 == p.budget.backoff_cap_ms,
        budget_params(None).0 == 1 && budget_params(None).1 == 800,
        budget_params(None).2 == 2 * 1_000 && budget_params(None).3 == 5 * 60 * 1_000,
        deref_profile(Some(&p)) == Some(p) && deref_profile(None) is None,
{
}

/// A rhythm is that of the profile, but never faster than one segment a second; without a
/// profile it is one in fifteen seconds, give or take three, in idle times too.
pub proof fn law_rhythm_comes_from_profile(p: Profile)
    ensures
        p.traffic.seg_interval_ms >= 1000 ==> cadence_params(Some(p)).0 == p.traffic.seg_interval_ms,
        p.traffic.seg_interval_ms <= 1000 ==> cadence_params(Some(p)).0 == 1000,
        cadence_params(Some(p)).1 == p.traffic.seg_jitter_ms,
        cadence_params(Some(p)).2 == p.traffic.idle_fill,
        cadence_params(None).0 == 15 * 1_000,
        cadence_params(None).1 == 3 * 1_000,
        cadence_params(None).2,
{
}

/// A client goes on without a pause exactly where it connects. It waits as long as it is told
/// to, at least 50 milliseconds; at the limit half a second, and in a freeze a second.
pub proof fn law_pauses(a: ManagerAction)
    ensures
        pause_for(a) is None <==> a == ManagerAction::Connect,
        pause_for(a) matches Some(ms) ==> ms >= 50,
        a matches ManagerAction::Wait(ms) ==> (ms >= 50 ==> pause_for(a) == Some(ms)) && (ms <= 50
            ==> pause_for(a) == Some(50u64)),
        a matches ManagerAction::NetworkDown(ms) ==> (ms >= 50 ==> pause_for(a) == Some(ms)) && (ms
            <= 50 ==> pause_for(a) == Some(50u64)),
        a == ManagerAction::AtCapacity ==> pause_for(a) == Some(500u64),
        a is Frozen ==> pause_for(a) == Some(1_000u64),
{
}

/// What the counts of a tunnel tell: what came down is an answer, whether or not something
/// went up; what only went up is a message that waits for one; without either nothing is told.
/// An answer ends the freezes. The budget is not touched.
pub proof fn law_traffic_tells(m: ManagerView, received: bool, sent: bool, now: u64)
    ensures
        ({
            let after = after_traffic(m, received, sent, now);
            &&& after.budget == m.budget
            &&& received ==> after.detector.unanswered_since is None && after.detector.last_recv
                == Some(now) && after.freeze.strikes == 0 && after.freeze.silent_until is None
            &&& !received && sent ==> after.detector.unanswered_since == (
            if m.detector.unanswered_since is None {
                Some(now)
            } else {
                m.detector.unanswered_since
            }) && after.freeze == m.freeze
            &&& !received && !sent ==> after == m
            &&& after.detector.reference_ok == m.detector.reference_ok
            &&& after.detector.reference_bad == m.detector.reference_bad
        }),
{
}

/// What another host tells: that it was reachable or not, just now; without one, nothing.
pub proof fn law_other_host_tells(m: ManagerView, now: u64)
    ensures
        after_observation(m, None, now) == m,
        after_observation(m, Some(true), now).detector.reference_ok == Some(now),
        after_observation(m, Some(true), now).detector.reference_bad == m.detector.reference_bad,
        after_observation(m, Some(false), now).detector.reference_bad == Some(now),
        after_observation(m, Some(false), now).detector.reference_ok == m.detector.reference_ok,
        forall|ok: bool|
            (#[trigger] after_observation(m, Some(ok), now)).budget == m.budget && after_observation(
                m,
                Some(ok),
                now,
            ).freeze == m.freeze,
{
}

/// Which texts are no secret, and what is said of them: those that are no base64, with the
/// reason, and those that stand for another number of bytes than 32.
pub proof fn law_bad_secrets(s: Seq<char>, m: Seq<char>, b: Seq<u8>)
    ensures
        radix64::text(Form::Standard, b) == text::trimmed(s) && b.len() == 32 ==> !is_bad_psk(s, m),
        radix64::text(Form::Standard, b) == text::trimmed(s) && b.len() != 32 ==> (is_bad_psk(s, m)
            <==> m == "PSK должен быть ровно 32 байта"@),
        !radix64::is_text(Form::Standard, text::trimmed(s)) ==> (is_bad_psk(s, m) <==> m
            == "некорректный base64: "@ + radix64::error_text(
            radix64::decode_error(text::trimmed(s)),
        )),
{
    if radix64::text(Form::Standard, b) == text::trimmed(s) && b.len() != 32 {
        assert(radix64::is_text(Form::Standard, text::trimmed(s)));
        assert forall|c: Seq<u8>| c.len() == 32 implies #[trigger] radix64::text(Form::Standard, c)
            != text::trimmed(s) by {
            if radix64::text(Form::Standard, c) == text::trimmed(s) {
                radix64::law_text_injective(Form::Standard, c, b);
            }
        }
    }
    if !radix64::is_text(Form::Standard, text::trimmed(s)) {
        assert forall|c: Seq<u8>| c.len() == 32 implies #[trigger] radix64::text(Form::Standard, c)
            != text::trimmed(s) by {}
    }
}

/// When a tunnel is given up. Not when something came down since the last look: that ends all
/// freezes. Else while a freeze is on, or if the channel is blackholed by what is known with
/// this look: how long the first message without an answer waits, be it one that went up just
/// now, and what was last seen of another host.
pub proof fn law_tunnel_is_given_up(
    seen: TrafficMonitor,
    up: u64,
    down: u64,
    reference: Option<bool>,
    t1: u64,
    t2: u64,
    t3: u64,
    before: ManagerView,
    after: ManagerView,
    give_up: bool,
)
    requires
        seen.looked((up, down), reference, (t1, t2, t3), before, after, give_up),
    ensures
        down > seen.last_down ==> !give_up && after.freeze.strikes == 0
            && after.freeze.silent_until is None && after.detector.last_recv == Some(t1)
            && after.detector.unanswered_since is None,
        down <= seen.last_down ==> {
            let known = crate::discipline::blackhole::DetectorView {
                unanswered_since: if before.detector.unanswered_since is None && up
                    > seen.last_up {
                    Some(t1)
                } else {
                    before.detector.unanswered_since
                },
                reference_ok: if reference == Some(true) {
                    Some(t2)
                } else {
                    before.detector.reference_ok
                },
                reference_bad: if reference == Some(false) {
                    Some(t2)
                } else {
                    before.detector.reference_bad
                },
                ..before.detector
            };
            let on = before.freeze.silent_until matches Some(end) && t3 < end;
            &&& give_up <==> on || known.health(t3)
                == crate::discipline::blackhole::Health::Blackholed
            &&& on || !give_up ==> after.freeze == before.freeze && after.detector == known
                && after.budget == before.budget
            &&& give_up && !on ==> after.budget.active == 0 && after.detector.unanswered_since
                is None && after.freeze.silent_until is Some
        },
{
}

/// The text of bytes has no white space around it.
proof fn lemma_text_is_trimmed(b: Seq<u8>)
    ensures
        text::trimmed(radix64::text(Form::Standard, b)) == radix64::text(Form::Standard, b),
{
    let s = radix64::text(Form::Standard, b);
    radix64::lemma_text_len(Form::Standard, b);
    radix64::lemma_standard_text_not_white(b);
    if s.len() > 0 {
        assert(!text::is_white(s[0]) && !text::is_white(s.last()));
    }
}

/// A server takes the secret that it is given, and tells that it is not new; without one it
/// makes a new one, and tells so.
pub proof fn law_given_secret_is_taken(psk: Seq<u8>, r: Result<([u8; 32], bool), String>)
    requires
        psk.len() == 32,
    ensures
        secret_chosen(Some(radix64::text(Form::Standard, psk)), r) ==> (r matches Ok((read, fresh))
            && read@ == psk && !fresh),
        secret_chosen(None, r) ==> (r matches Ok((read, fresh)) && fresh),
{
    let s = radix64::text(Form::Standard, psk);
    lemma_text_is_trimmed(psk);
    law_psk_roundtrip(psk, s);
    if secret_chosen(Some(s), r) {
        match r {
            Ok((read, fresh)) => radix64::law_text_injective(Form::Standard, read@, psk),
            Err(m) => assert(!is_bad_psk(s, m@)),
        }
    }
}

/// A server takes the two keys that it is given, each in its place. With one of them alone, or
/// none, it makes a new pair. If one is no text of a key, that is told, of the private one
/// first.
pub proof fn law_given_keys_are_taken(
    private: Seq<u8>,
    public: Seq<u8>,
    other: Seq<char>,
    r: Result<(Keypair, bool), String>,
)
    ensures
        ({
            let pv = radix64::text(Form::Standard, private);
            let pb = radix64::text(Form::Standard, public);
            &&& keys_chosen(Some(pv), Some(pb), r) ==> (r matches Ok((pair, fresh))
                && pair.private@ == private && pair.public@ == public && !fresh)
            &&& keys_chosen(Some(other), None, r) || keys_chosen(None, Some(other), r)
                || keys_chosen(None, None, r) ==> (r matches Ok((pair, fresh)) && fresh
                && pair.private@.len() == 32 && pair.public@ == noise::x25519_public(
                pair.private@,
            ))
            &&& !radix64::is_text(Form::Standard, text::trimmed(other)) && (keys_chosen(
                Some(other),
                Some(pb),
                r,
            ) || keys_chosen(Some(pv), Some(other), r)) ==> (r matches Err(m) && m@ == bad_base64(
                other,
            ))
        }),
{
    let pv = radix64::text(Form::Standard, private);
    let pb = radix64::text(Form::Standard, public);
    lemma_text_is_trimmed(private);
    lemma_text_is_trimmed(public);
    assert(radix64::is_text(Form::Standard, pv));
    assert(radix64::is_text(Form::Standard, pb));
    if let Ok((pair, fresh)) = r {
        if keys_chosen(Some(pv), Some(pb), r) {
            radix64::law_text_injective(Form::Standard, pair.private@, private);
            radix64::law_text_injective(Form::Standard, pair.public@, public);
        }
        if keys_chosen(Some(other), Some(pb), r) {
            assert(radix64::text(Form::Standard, pair.private@) == text::trimmed(other));
        }
        if keys_chosen(Some(pv), Some(other), r) {
            assert(radix64::text(Form::Standard, pair.public@) == text::trimmed(other));
        }
    }
}

/// How a client hides the name of its server. With a list of configurations it uses that very
/// list, or tells why it is refused, whatever else it is told. Without one nothing is refused,
/// and it looks as if exactly if it is told so by name.
pub proof fn law_name_is_hidden_as_told(
    list: Seq<u8>,
    config: Seq<char>,
    ech: Option<Seq<char>>,
    r: Result<TlsMode, String>,
)
    ensures
        ({
            let given = Some(radix64::text(Form::Standard, list));
            let grease = Some(seq!['g', 'r', 'e', 'a', 's', 'e']);
            &&& tls_chosen(given, ech, r) && tls::ech_refusal(list) is None ==> (r matches Ok(
                TlsMode::Ech(used),
            ) && used@ == list)
            &&& tls_chosen(given, ech, r) ==> (tls::ech_refusal(list) matches Some(why) ==> (
            r matches Err(m) && m@ == why))
            &&& tls_chosen(None, ech, r) && ech == grease ==> r == Ok::<TlsMode, String>(
                TlsMode::Grease,
            )
            &&& tls_chosen(None, ech, r) && ech != grease ==> r == Ok::<TlsMode, String>(
                TlsMode::Plain,
            )
            &&& tls_chosen(Some(config), ech, r) && !radix64::is_text(
                Form::Standard,
                text::trimmed(config),
            ) ==> (r matches Err(m) && m@ == bad_base64(config))
        }),
{
    reveal_strlit("grease");
    assert("grease"@ =~= seq!['g', 'r', 'e', 'a', 's', 'e']);
    let written = radix64::text(Form::Standard, list);
    lemma_text_is_trimmed(list);
    assert(radix64::is_text(Form::Standard, written));
    if tls_chosen(Some(written), ech, r) {
        let used = choose|used: Seq<u8>| #[trigger]
            radix64::text(Form::Standard, used) == written && tls::ech_outcome(
                used,
                tls::ech_refusal(used),
                r,
            );
        radix64::law_text_injective(Form::Standard, used, list);
    }
}

/// A mode asks for segments exactly if it spells them.
pub proof fn law_segments_are_spelled(mode: Seq<char>)
    ensures
        names_segments(mode) <==> mode == seq!['s', 'e', 'g', 'm', 'e', 'n', 't', 's'],
{
    reveal_strlit("segments");
    assert("segments"@ =~= seq!['s', 'e', 'g', 'm', 'e', 'n', 't', 's']);
}

/// A client with the example profile, and one without a profile, allow one connection at a
/// time, 800 milliseconds apart, and back off from two seconds up to five minutes. The example
/// speaks every four seconds, give or take 0.8, the other every fifteen, give or take three;
/// both fill what is idle.
pub proof fn law_usual_clients(p: Profile)
    requires
        crate::profile::model::is_example_media(p),
    ensures
        budget_params(Some(p)) == (1u32, 800u64, 2_000u64, 300_000u64),
        budget_params(None) == budget_params(Some(p)),
        cadence_params(Some(p)) == (4_000u64, 800u64, true),
        cadence_params(None) == (15_000u64, 3_000u64, true),
        p.traffic.target_ratio_down_up == 15,
        p.schedule.active_hours@[0] == 7 && p.schedule.active_hours@[1] == 24,
        p.schedule.max_session_min == 3 * 60,
        p.identity.domain@ == p.carrier.endpoint_domain@,
        p.identity.acme,
{
}

} // verus!
