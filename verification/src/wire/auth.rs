//! The token that authenticates a request.
//!
//! Every session shows the outside a fresh `(salt, nonce, tag)` and nothing that
//! another session of the same client shares. The key follows the hour, and the hour
//! before and after is accepted too, so that clocks may drift.
//!
//! ```text
//! epoch   = floor(unix time / 3600)
//! prk     = BLAKE2s(key = salt, PSK)
//! authKey = BLAKE2s(key = prk, "vlyness/auth/v1" || LE64(epoch) || 0x01)
//! tag     = BLAKE2s(key = authKey, salt || nonce)[0..16]
//! token   = base64url(salt || nonce || tag)
//! ```

use super::octets;
use super::radix64;
use crate::random;
use crate::time;
use blake2::digest::Mac;
use blake2::Blake2sMac256;
use std::time::SystemTime;
use subtle::ConstantTimeEq;
use vstd::prelude::*;

verus! {

/// Length of the salt of a session.
pub const SALT_LEN: usize = 16;

/// Length of the nonce of a session, by which a replay is recognised.
pub const NONCE_LEN: usize = 12;

/// Length of the truncated tag.
pub const TAG_LEN: usize = 16;

/// Length of a token in bytes.
pub const TOKEN_LEN: usize = 44;

/// Length of a token in characters. That it never varies matters: a varying length
/// would itself tell something.
pub const TOKEN_B64_LEN: usize = 59;

/// How long an epoch lasts.
pub const EPOCH_SECS: u64 = 3600;

/// Length of the shared secret.
pub const PSK_LEN: usize = 32;

/// Why a text is no token.
#[derive(Debug, Clone, Copy, PartialEq, Eq)]
pub enum AuthError {
    /// The text is not base64url.
    BadEncoding,
    /// The text has another length than every token has.
    BadLength { expected: usize, got: usize },
    /// The tag does not fit.
    BadTag,
}

/// A token. There is no `Debug`: its contents are secret (see `redacted`).
#[derive(Clone, PartialEq, Eq)]
pub struct AuthToken {
    pub salt: [u8; 16],
    pub nonce: [u8; 12],
    pub tag: [u8; 16],
}

/// What a token holds.
pub struct TokenView {
    pub salt: Seq<u8>,
    pub nonce: Seq<u8>,
    pub tag: Seq<u8>,
}

impl View for AuthToken {
    type V = TokenView;

    open spec fn view(&self) -> TokenView {
        TokenView { salt: self.salt@, nonce: self.nonce@, tag: self.tag@ }
    }
}

impl TokenView {
    /// Whether the parts have their lengths.
    pub open spec fn well_formed(self) -> bool {
        &&& self.salt.len() == SALT_LEN
        &&& self.nonce.len() == NONCE_LEN
        &&& self.tag.len() == TAG_LEN
    }

    /// The bytes of the token.
    pub open spec fn raw(self) -> Seq<u8> {
        self.salt + self.nonce + self.tag
    }

    /// The token as it stands in a cookie.
    pub open spec fn text(self) -> Seq<char> {
        radix64::text(radix64::Form::UrlSafe, self.raw())
    }
}

/// What keyed BLAKE2s-256 yields for a key and a message.
pub uninterp spec fn blake2s(key: Seq<u8>, msg: Seq<u8>) -> Seq<u8>;

/// The key of an epoch.
pub open spec fn auth_key(psk: Seq<u8>, salt: Seq<u8>, epoch: u64) -> Seq<u8> {
    blake2s(
        blake2s(salt, psk),
        vstd::utf8::encode_utf8("vlyness/auth/v1"@) + octets::le64(epoch as int) + seq![1u8],
    )
}

/// The tag of a salt and a nonce in an epoch.
pub open spec fn auth_tag(psk: Seq<u8>, salt: Seq<u8>, nonce: Seq<u8>, epoch: u64) -> Seq<u8> {
    blake2s(auth_key(psk, salt, epoch), salt + nonce).subrange(0, TAG_LEN as int)
}

/// The token of a salt and a nonce in an epoch.
pub open spec fn token_for(psk: Seq<u8>, salt: Seq<u8>, nonce: Seq<u8>, epoch: u64) -> TokenView {
    TokenView { salt, nonce, tag: auth_tag(psk, salt, nonce, epoch) }
}

/// Whether a token was made in this epoch with this secret.
pub open spec fn tag_fits(t: TokenView, psk: Seq<u8>, epoch: u64) -> bool {
    t.tag == auth_tag(psk, t.salt, t.nonce, epoch)
}

/// The epochs that are accepted at `now`: the one before, the present one, the next.
pub open spec fn before(now: u64) -> u64 {
    if now == 0 {
        u64::MAX
    } else {
        (now - 1) as u64
    }
}

/// See `before`.
pub open spec fn after(now: u64) -> u64 {
    if now == u64::MAX {
        0
    } else {
        (now + 1) as u64
    }
}

/// The epoch on which a token is accepted at `now`, the latest one if there are
/// several.
pub open spec fn accepted_epoch(t: TokenView, psk: Seq<u8>, now: u64) -> Option<u64> {
    if tag_fits(t, psk, after(now)) {
        Some(after(now))
    } else if tag_fits(t, psk, now) {
        Some(now)
    } else if tag_fits(t, psk, before(now)) {
        Some(before(now))
    } else {
        None
    }
}

/// Keyed BLAKE2s-256 with `blake2::Blake2sMac256` (`new_from_slice`, `update`,
/// `finalize`). The key is at most 32 bytes long, else `new_from_slice` refuses it;
/// the 32 bytes of the result are a function of key and message.
#[verifier::external_body]
fn keyed_blake2s(key: &[u8], msg: &[u8]) -> (out: [u8; 32])
    requires
        key@.len() <= 32,
    ensures
        out@ == blake2s(key@, msg@),
{
    let mut mac = <Blake2sMac256 as Mac>::new_from_slice(key).expect("key of at most 32 bytes");
    mac.update(msg);
    mac.finalize().into_bytes().into()
}

/// Compares with `subtle::ConstantTimeEq::ct_eq`, in a time that does not depend on
/// the contents: slices of different lengths differ, others are equal if all their
/// bytes are.
#[verifier::external_body]
fn ct_equal(a: &[u8], b: &[u8]) -> (equal: bool)
    ensures
        equal == (a@ == b@),
{
    a.ct_eq(b).into()
}

/// The epoch at a Unix time.
pub fn epoch_at(unix_secs: u64) -> (epoch: u64)
    ensures
        epoch == unix_secs / EPOCH_SECS,
        3600 * epoch <= unix_secs < 3600 * (epoch + 1),
{
    unix_secs / EPOCH_SECS
}

/// The epoch at a point in time; a time before 1970 counts as 1970.
pub open spec fn epoch_of(t: SystemTime) -> nat {
    match time::nanos_since_1970(t) {
        Some(n) => n / 1_000_000_000 / EPOCH_SECS as nat,
        None => 0,
    }
}

/// The present epoch by the system's clock; a clock before 1970 counts as 1970.
pub fn epoch_now() -> (epoch: u64)
    ensures
        exists|now: SystemTime| epoch == #[trigger] epoch_of(now),
        epoch <= u64::MAX / EPOCH_SECS,
{
    let now = time::system_now();
    let secs: u64 = match time::since_1970(&now) {
        Ok(d) => time::whole_seconds(&d),
        Err(_) => 0,
    };
    assert(epoch_of(now) == secs / EPOCH_SECS);
    epoch_at(secs)
}

/// The key of an epoch.
fn derive_auth_key(psk: &[u8; 32], salt: &[u8; 16], epoch: u64) -> (key: [u8; 32])
    ensures
        key@ == auth_key(psk@, salt@, epoch),
{
    let prk = keyed_blake2s(salt.as_slice(), psk.as_slice());
    let mut info: Vec<u8> = Vec::new();
    octets::put_bytes(&mut info, "vlyness/auth/v1".as_bytes());
    octets::put_u64_le(&mut info, epoch);
    info.push(1);
    assert(info@ =~= vstd::utf8::encode_utf8("vlyness/auth/v1"@) + octets::le64(epoch as int)
        + seq![1u8]);
    keyed_blake2s(prk.as_slice(), info.as_slice())
}

/// The tag under a key.
fn compute_tag(key: &[u8; 32], salt: &[u8; 16], nonce: &[u8; 12]) -> (tag: [u8; 16])
    ensures
        tag@ == blake2s(key@, salt@ + nonce@).subrange(0, TAG_LEN as int),
{
    let mut msg: Vec<u8> = Vec::new();
    octets::put_bytes(&mut msg, salt.as_slice());
    octets::put_bytes(&mut msg, nonce.as_slice());
    assert(msg@ =~= salt@ + nonce@);
    let full = keyed_blake2s(key.as_slice(), msg.as_slice());
    octets::array16(full.as_slice(), 0)
}

impl AuthToken {
    /// A fresh token: salt and nonce are random, the tag fits them.
    pub fn build(psk: &[u8; 32], epoch: u64) -> (t: Self)
        ensures
            t@ == token_for(psk@, t.salt@, t.nonce@, epoch),
    {
        let salt = octets::array16(random::os_random(SALT_LEN).as_slice(), 0);
        let nonce = octets::array12(random::os_random(NONCE_LEN).as_slice(), 0);
        Self::build_with(psk, epoch, salt, nonce)
    }

    /// The token of a given salt and nonce.
    pub fn build_with(psk: &[u8; 32], epoch: u64, salt: [u8; 16], nonce: [u8; 12]) -> (t: Self)
        ensures
            t@ == token_for(psk@, salt@, nonce@, epoch),
            t.salt == salt,
            t.nonce == nonce,
    {
        let key = derive_auth_key(psk, &salt, epoch);
        let tag = compute_tag(&key, &salt, &nonce);
        AuthToken { salt, nonce, tag }
    }

    /// The bytes of the token. They are also the prologue of the Noise handshake,
    /// which binds the session to the token.
    pub fn raw(&self) -> (raw: [u8; 44])
        ensures
            raw@ == self@.raw(),
    {
        let mut raw: [u8; 44] = [0; 44];
        let mut i: usize = 0;
        while i < TOKEN_LEN
            invariant
                i <= TOKEN_LEN,
                forall|j: int| 0 <= j < i ==> raw@[j] == self@.raw()[j],
            decreases TOKEN_LEN - i,
        {
            raw[i] = if i < SALT_LEN {
                self.salt[i]
            } else if i < SALT_LEN + NONCE_LEN {
                self.nonce[i - SALT_LEN]
            } else {
                self.tag[i - SALT_LEN - NONCE_LEN]
            };
            i += 1;
        }
        assert(raw@ =~= self@.raw());
        raw
    }

    /// The token as it stands in a cookie.
    pub fn encode(&self) -> (s: String)
        ensures
            s@ == self@.text(),
            s@.len() == TOKEN_B64_LEN,
    {
        proof {
            radix64::lemma_text_len(radix64::Form::UrlSafe, self@.raw());
        }
        radix64::encode_url_safe(self.raw().as_slice())
    }

    /// Reads a token from a cookie. Its tag is not looked at.
    pub fn decode(s: &str) -> (r: Result<Self, AuthError>)
        ensures
            match r {
                Ok(t) => s@ == t@.text(),
                Err(AuthError::BadLength { expected, got }) => {
                    &&& expected == TOKEN_B64_LEN
                    &&& got == vstd::utf8::encode_utf8(s@).len()
                    &&& got != TOKEN_B64_LEN
                },
                Err(AuthError::BadEncoding) => {
                    &&& vstd::utf8::encode_utf8(s@).len() == TOKEN_B64_LEN
                    &&& forall|t: TokenView| t.well_formed() ==> #[trigger] t.text() != s@
                },
                Err(AuthError::BadTag) => false,
            },
            (exists|t: TokenView| t.well_formed() && #[trigger] t.text() == s@) ==> r is Ok,
    {
        let bytes = s.as_bytes();
        proof {
            lemma_token_texts(s);
        }
        if bytes.len() != TOKEN_B64_LEN {
            return Err(AuthError::BadLength { expected: TOKEN_B64_LEN, got: bytes.len() });
        }
        let raw = match radix64::decode_url_safe(s) {
            Some(raw) => raw,
            None => return Err(AuthError::BadEncoding),
        };
        proof {
            radix64::lemma_text_len(radix64::Form::UrlSafe, raw@);
            vstd::utf8::is_ascii_chars_encode_utf8(s@);
        }
        let salt = octets::array16(raw.as_slice(), 0);
        let nonce = octets::array12(raw.as_slice(), SALT_LEN);
        let tag = octets::array16(raw.as_slice(), SALT_LEN + NONCE_LEN);
        let t = AuthToken { salt, nonce, tag };
        assert(t@.raw() =~= raw@);
        Ok(t)
    }

    /// Whether the token was made in this epoch with this secret, told in constant
    /// time.
    pub fn verify_epoch(&self, psk: &[u8; 32], epoch: u64) -> (ok: bool)
        ensures
            ok == tag_fits(self@, psk@, epoch),
    {
        let key = derive_auth_key(psk, &self.salt, epoch);
        let expected = compute_tag(&key, &self.salt, &self.nonce);
        ct_equal(expected.as_slice(), self.tag.as_slice())
    }

    /// The epoch among the previous, the present and the next one on which the token
    /// is accepted. All three are always tried, whichever fits.
    pub fn verify(&self, psk: &[u8; 32], now_epoch: u64) -> (epoch: Option<u64>)
        ensures
            epoch == accepted_epoch(self@, psk@, now_epoch),
    {
        let mut matched: Option<u64> = None;
        let previous: u64 = now_epoch.wrapping_sub(1);
        let next: u64 = now_epoch.wrapping_add(1);
        if self.verify_epoch(psk, previous) {
            matched = Some(previous);
        }
        if self.verify_epoch(psk, now_epoch) {
            matched = Some(now_epoch);
        }
        if self.verify_epoch(psk, next) {
            matched = Some(next);
        }
        matched
    }

    /// What may be printed of a token.
    pub fn redacted(&self) -> (s: String)
        ensures
            s@ == "AuthToken(..)"@,
    {
        "AuthToken(..)".to_owned()
    }
}

/// Every text of a token has the length of one.
proof fn lemma_token_texts(s: &str)
    ensures
        forall|t: TokenView|
            t.well_formed() && #[trigger] t.text() == s@ ==> vstd::utf8::encode_utf8(s@).len()
                == TOKEN_B64_LEN && radix64::is_text(radix64::Form::UrlSafe, s@),
{
    assert forall|t: TokenView|
        t.well_formed() && #[trigger] t.text() == s@ implies vstd::utf8::encode_utf8(s@).len()
        == TOKEN_B64_LEN && radix64::is_text(radix64::Form::UrlSafe, s@) by {
        radix64::lemma_text_len(radix64::Form::UrlSafe, t.raw());
        vstd::utf8::is_ascii_chars_encode_utf8(s@);
    }
}

/// A token's text has the same length whatever the token, and no two tokens share
/// one.
pub proof fn law_token_text(a: TokenView, b: TokenView)
    requires
        a.well_formed(),
        b.well_formed(),
    ensures
        a.text().len() == TOKEN_B64_LEN,
        a.text() == b.text() ==> a == b,
{
    radix64::lemma_text_len(radix64::Form::UrlSafe, a.raw());
    if a.text() == b.text() {
        radix64::law_text_injective(radix64::Form::UrlSafe, a.raw(), b.raw());
        let r = a.raw();
        assert(r.subrange(0, 16) =~= a.salt && r.subrange(0, 16) =~= b.salt);
        assert(r.subrange(16, 28) =~= a.nonce && r.subrange(16, 28) =~= b.nonce);
        assert(r.subrange(28, 44) =~= a.tag && r.subrange(28, 44) =~= b.tag);
    }
}

/// A token made in an epoch is accepted in that epoch, in the one before and in the
/// one after.
pub proof fn law_fresh_token_accepted(psk: Seq<u8>, salt: Seq<u8>, nonce: Seq<u8>, epoch: u64)
    ensures
        ({
            let t = token_for(psk, salt, nonce, epoch);
            &&& accepted_epoch(t, psk, epoch) is Some
            &&& accepted_epoch(t, psk, before(epoch)) is Some
            &&& accepted_epoch(t, psk, after(epoch)) is Some
        }),
{
}

/// A token is accepted only with the tag of one of the three epochs: whatever was
/// tampered with, the tag must fit what is there.
pub proof fn law_accepted_tag_fits(t: TokenView, psk: Seq<u8>, now: u64)
    ensures
        accepted_epoch(t, psk, now) matches Some(e) ==> {
            &&& e == before(now) || e == now || e == after(now)
            &&& tag_fits(t, psk, e)
        },
        accepted_epoch(t, psk, now) is None ==> !tag_fits(t, psk, before(now)) && !tag_fits(
            t,
            psk,
            now,
        ) && !tag_fits(t, psk, after(now)),
{
}

/// Changing nothing but the tag of an accepted token makes it unfit for the epoch on
/// which it was accepted.
pub proof fn law_tampered_tag_unfit(t: TokenView, psk: Seq<u8>, now: u64, tag: Seq<u8>)
    requires
        accepted_epoch(t, psk, now) is Some,
        tag != t.tag,
    ensures
        !tag_fits(TokenView { tag, ..t }, psk, accepted_epoch(t, psk, now)->Some_0),
{
}

/// The bytes of a token are its salt, its nonce and its tag, of sixteen, twelve and sixteen
/// bytes; its text is their base64 in the alphabet for addresses, of 59 characters.
pub proof fn law_token_layout(t: TokenView)
    requires
        t.well_formed(),
    ensures
        t.raw().len() == 44,
        t.raw().subrange(0, 16) == t.salt,
        t.raw().subrange(16, 28) == t.nonce,
        t.raw().subrange(28, 44) == t.tag,
        t.text() == radix64::text(radix64::Form::UrlSafe, t.raw()),
        t.text().len() == 59,
        t.well_formed() <==> t.salt.len() == 16 && t.nonce.len() == 12 && t.tag.len() == 16,
        SALT_LEN + NONCE_LEN + TAG_LEN == TOKEN_LEN && TOKEN_LEN == 44,
        TOKEN_B64_LEN == 59 && PSK_LEN == 32,
{
    radix64::lemma_text_len(radix64::Form::UrlSafe, t.raw());
    assert(t.raw().subrange(0, 16) =~= t.salt);
    assert(t.raw().subrange(16, 28) =~= t.nonce);
    assert(t.raw().subrange(28, 44) =~= t.tag);
}

/// How a tag follows from the secret: the salt keys the hash of the secret; that keys the hash
/// of a label, the eight bytes of the epoch with the low one first, and a one; that keys the
/// hash of salt and nonce, of which the first sixteen bytes count.
pub proof fn law_tag_derivation(
    psk: Seq<u8>,
    salt: Seq<u8>,
    nonce: Seq<u8>,
    epoch: u64,
    info: Seq<u8>,
)
    requires
        info.len() == 24,
        info.take(15) == vstd::utf8::encode_utf8("vlyness/auth/v1"@),
        info[15] + 0x100 * info[16] + 0x1_0000 * info[17] + 0x100_0000 * info[18] + 0x1_0000_0000
            * info[19] + 0x100_0000_0000 * info[20] + 0x1_0000_0000_0000 * info[21]
            + 0x100_0000_0000_0000 * info[22] == epoch,
        info[23] == 1,
    ensures
        token_for(psk, salt, nonce, epoch) == (TokenView {
            salt,
            nonce,
            tag: blake2s(blake2s(blake2s(salt, psk), info), salt + nonce).take(16),
        }),
{
    octets::law_little_endian(epoch);
    let b = octets::le64(epoch as int);
    let label = vstd::utf8::encode_utf8("vlyness/auth/v1"@);
    assert(label.len() == 15);
    lemma_little_endian_unique(b, info.subrange(15, 23));
    assert(label + b + seq![1u8] =~= info) by {
        assert forall|i: int| 0 <= i < 24 implies (label + b + seq![1u8])[i] == info[i] by {
            if i < 15 {
                assert(info.take(15)[i] == info[i]);
            } else if i < 23 {
                assert(info.subrange(15, 23)[i - 15] == info[i]);
            }
        }
    }
    let full = blake2s(blake2s(blake2s(salt, psk), info), salt + nonce);
    assert(full.subrange(0, 16) =~= full.take(16));
}

proof fn lemma_low_byte(a: u8, x: int, b: u8, y: int)
    requires
        a + 0x100 * x == b + 0x100 * y,
    ensures
        a == b,
        x == y,
{
}

/// Eight bytes with the low one first stand for one number only.
proof fn lemma_little_endian_unique(a: Seq<u8>, b: Seq<u8>)
    requires
        a.len() == 8,
        b.len() == 8,
        a[0] + 0x100 * a[1] + 0x1_0000 * a[2] + 0x100_0000 * a[3] + 0x1_0000_0000 * a[4]
            + 0x100_0000_0000 * a[5] + 0x1_0000_0000_0000 * a[6] + 0x100_0000_0000_0000 * a[7]
            == b[0] + 0x100 * b[1] + 0x1_0000 * b[2] + 0x100_0000 * b[3] + 0x1_0000_0000 * b[4]
            + 0x100_0000_0000 * b[5] + 0x1_0000_0000_0000 * b[6] + 0x100_0000_0000_0000 * b[7],
    ensures
        a == b,
{
    let a6 = a[6] + 0x100 * a[7];
    let a5 = a[5] + 0x100 * a6;
    let a4 = a[4] + 0x100 * a5;
    let a3 = a[3] + 0x100 * a4;
    let a2 = a[2] + 0x100 * a3;
    let a1 = a[1] + 0x100 * a2;
    let b6 = b[6] + 0x100 * b[7];
    let b5 = b[5] + 0x100 * b6;
    let b4 = b[4] + 0x100 * b5;
    let b3 = b[3] + 0x100 * b4;
    let b2 = b[2] + 0x100 * b3;
    let b1 = b[1] + 0x100 * b2;
    lemma_low_byte(a[0], a1, b[0], b1);
    lemma_low_byte(a[1], a2, b[1], b2);
    lemma_low_byte(a[2], a3, b[2], b3);
    lemma_low_byte(a[3], a4, b[3], b4);
    lemma_low_byte(a[4], a5, b[4], b5);
    lemma_low_byte(a[5], a6, b[5], b6);
    lemma_low_byte(a[6], a[7] as int, b[6], b[7] as int);
    assert(a =~= b);
}

/// Which tokens are accepted, and on which epoch: those whose tag is that of the next, of the
/// present or of the last epoch, on the latest of these.
pub proof fn law_accepted_on_latest_fitting_epoch(t: TokenView, psk: Seq<u8>, now: u64)
    requires
        0 < now < u64::MAX,
    ensures
        ({
            let next = t.tag == auth_tag(psk, t.salt, t.nonce, (now + 1) as u64);
            let present = t.tag == auth_tag(psk, t.salt, t.nonce, now);
            let last = t.tag == auth_tag(psk, t.salt, t.nonce, (now - 1) as u64);
            &&& next ==> accepted_epoch(t, psk, now) == Some((now + 1) as u64)
            &&& !next && present ==> accepted_epoch(t, psk, now) == Some(now)
            &&& !next && !present && last ==> accepted_epoch(t, psk, now) == Some((now - 1) as u64)
            &&& !next && !present && !last ==> accepted_epoch(t, psk, now) is None
        }),
        after(u64::MAX) == 0 && before(0) == u64::MAX,
{
}

/// An epoch is an hour of the time since 1970: so many hours are over, and the next is not. A
/// time before 1970 is in the first.
pub proof fn law_epoch_is_hour(t: SystemTime)
    ensures
        match time::nanos_since_1970(t) {
            Some(n) => 3_600_000_000_000 * epoch_of(t) <= n < 3_600_000_000_000 * (epoch_of(t) + 1),
            None => epoch_of(t) == 0,
        },
        EPOCH_SECS == 60 * 60,
{
}

} // verus!
