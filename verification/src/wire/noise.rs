//! The end-to-end layer: the handshake `Noise_IK_25519_ChaChaPoly_BLAKE2s` and the two
//! chains of sealed records behind it, both done by the `snow` crate.
//!
//! ```text
//! -> e, es, s, ss, [payload_0]     in the body of the first request
//! <- e, ee, se, [payload_1]        in the body of the first response
//! ```
//!
//! The initiator knows the responder's static key beforehand and sends data with its
//! first message. The prologue is the token of the request, so that a token taken from
//! one session does not fit the handshake of another.
//!
//! That a message altered on its way, or one made under another prologue, is refused
//! rests on the strength of the cipher and is not stated here.

use super::octets;
use snow::{Builder, HandshakeState, TransportState};
use vstd::prelude::*;

verus! {

/// The one set of parameters in use; nothing is negotiated.
pub const NOISE_PARAMS: &'static str = "Noise_IK_25519_ChaChaPoly_BLAKE2s";

/// The longest Noise message.
pub const NOISE_MAX_MESSAGE: usize = 65535;

/// What sealing adds to a plaintext.
pub const TAG_LEN: usize = 16;

/// The longest plaintext of a record.
pub const MAX_PLAINTEXT: usize = 65519;

/// `snow::Error`: why `snow` refused. Nothing here looks inside.
#[verifier::external_type_specification]
#[verifier::external_body]
pub struct ExSnowError(snow::Error);

/// `snow::HandshakeState`: one side of a handshake.
#[verifier::external_type_specification]
#[verifier::external_body]
pub struct ExHandshakeState(HandshakeState);

/// `snow::TransportState`: one side of a session behind its handshake.
#[verifier::external_type_specification]
#[verifier::external_body]
pub struct ExTransportState(TransportState);

/// Why a handshake or a record failed.
#[derive(Debug)]
pub enum NoiseError {
    /// `snow` refused.
    Snow(snow::Error),
    /// The plaintext is longer than `MAX_PLAINTEXT`.
    PlaintextTooLarge(usize),
}

/// A static key pair.
pub struct Keypair {
    pub private: Vec<u8>,
    pub public: Vec<u8>,
}

/// What one side of a handshake goes by.
pub struct HandshakeView {
    /// Whether this side speaks first.
    pub initiator: bool,
    /// Its static private key.
    pub static_key: Seq<u8>,
    /// The other side's static public key.
    pub remote_key: Seq<u8>,
    /// The bytes that both sides must agree on.
    pub prologue: Seq<u8>,
    /// Its ephemeral private key, drawn when it writes its message.
    pub ephemeral: Seq<u8>,
    /// The messages so far, of either side.
    pub messages: Seq<Seq<u8>>,
}

/// The two chains of one side of a session: a key and the number of records so far.
pub struct TransportView {
    pub send_key: Seq<u8>,
    pub sent: nat,
    pub recv_key: Seq<u8>,
    pub received: nat,
}

/// What a `HandshakeState` goes by; a key that it does not have yet is empty.
pub uninterp spec fn handshake_view(h: HandshakeState) -> HandshakeView;

/// What a `TransportState` goes by.
pub uninterp spec fn transport_view(t: TransportState) -> TransportView;

/// The X25519 public key of a private key.
pub uninterp spec fn x25519_public(private: Seq<u8>) -> Seq<u8>;

/// What `HandshakeState::read_message` makes of a message: the payload and the static
/// key of the sender, or nothing if it refuses.
pub uninterp spec fn noise_read(h: HandshakeView, msg: Seq<u8>) -> Option<(Seq<u8>, Seq<u8>)>;

/// The keys of the initiator's and of the responder's records once both messages of a
/// handshake are known.
pub uninterp spec fn noise_keys(h: HandshakeView) -> (Seq<u8>, Seq<u8>);

/// ChaCha20-Poly1305 under a key and a record number, without associated data.
pub uninterp spec fn aead_seal(key: Seq<u8>, n: nat, plaintext: Seq<u8>) -> Seq<u8>;

/// The plaintext of a ChaCha20-Poly1305 ciphertext, nothing if its tag does not fit.
pub uninterp spec fn aead_open(key: Seq<u8>, n: nat, ciphertext: Seq<u8>) -> Option<Seq<u8>>;

/// The key that follows a key.
pub open spec fn next_key(key: Seq<u8>) -> Seq<u8> {
    aead_seal(key, u64::MAX as nat, octets::zeros(32)).subrange(0, 32)
}

/// A key cut or filled up with zeros to 32 bytes.
pub open spec fn fit32(key: Seq<u8>) -> Seq<u8> {
    Seq::new(
        32,
        |i: int|
            if i < key.len() {
                key[i]
            } else {
                0u8
            },
    )
}

impl HandshakeView {
    /// Whether it is this side's turn to write.
    pub open spec fn may_write(self) -> bool {
        self.messages.len() == (if self.initiator {
            0nat
        } else {
            1nat
        })
    }

    /// What a message adds to its payload: the ephemeral key and the tag, and in the
    /// first message the sealed static key.
    pub open spec fn overhead(self) -> nat {
        if self.initiator {
            96
        } else {
            48
        }
    }

    /// This side once it has written or read `msg`.
    pub open spec fn with_message(self, msg: Seq<u8>) -> HandshakeView {
        HandshakeView { messages: self.messages.push(msg), ..self }
    }
}

/// The initiator's side before its first message. It has no ephemeral key yet.
pub open spec fn fresh_initiator(
    remote_key: Seq<u8>,
    static_key: Seq<u8>,
    prologue: Seq<u8>,
) -> HandshakeView {
    HandshakeView {
        initiator: true,
        static_key: fit32(static_key),
        remote_key: fit32(remote_key),
        prologue,
        ephemeral: Seq::empty(),
        messages: Seq::empty(),
    }
}

/// The responder's side before the first message. It has no ephemeral key yet, and does not
/// know the other side's key.
pub open spec fn fresh_responder(static_key: Seq<u8>, prologue: Seq<u8>) -> HandshakeView {
    HandshakeView {
        initiator: false,
        static_key: fit32(static_key),
        remote_key: Seq::empty(),
        prologue,
        ephemeral: Seq::empty(),
        messages: Seq::empty(),
    }
}

/// Whether `reader` is the side for which `writer` wrote its last message: the roles
/// differ, prologue and earlier messages agree, and each side has the public keys that
/// belong to the other's private keys, as far as the message needs them.
pub open spec fn is_meant_for(writer: HandshakeView, reader: HandshakeView) -> bool {
    &&& reader.initiator != writer.initiator
    &&& reader.prologue == writer.prologue
    &&& reader.messages == writer.messages.drop_last()
    &&& reader.static_key.len() == 32
    &&& x25519_public(reader.static_key) == writer.remote_key
    &&& !writer.initiator ==> {
        &&& reader.remote_key == x25519_public(writer.static_key)
        &&& reader.ephemeral.len() == 32
        &&& x25519_public(reader.ephemeral) == writer.messages[0].subrange(0, 32)
    }
}

/// What writing does: the side draws an ephemeral key, shows its public key at the
/// start of the message, and the side for which it is meant can read it. Behind the
/// second message both sides have the same keys.
pub open spec fn wrote(
    pre: HandshakeView,
    post: HandshakeView,
    payload: Seq<u8>,
    msg: Seq<u8>,
) -> bool {
    &&& post == (HandshakeView { ephemeral: post.ephemeral, ..pre.with_message(msg) })
    &&& msg.len() == payload.len() + pre.overhead()
    &&& post.ephemeral.len() == 32
    &&& msg.subrange(0, 32) == x25519_public(post.ephemeral)
    &&& forall|reader: HandshakeView| #[trigger]
        is_meant_for(post, reader) ==> noise_read(reader, msg) == Some(
            (payload, x25519_public(post.static_key)),
        ) && (!post.initiator ==> noise_keys(reader.with_message(msg)) == noise_keys(post))
}

/// What reading does where it succeeds.
pub open spec fn did_read(
    pre: HandshakeView,
    post: HandshakeView,
    msg: Seq<u8>,
    payload: Seq<u8>,
) -> bool {
    &&& noise_read(pre, msg) == Some((payload, post.remote_key))
    &&& post == (HandshakeView { remote_key: post.remote_key, ..pre.with_message(msg) })
}

/// The chains of a finished handshake.
pub open spec fn chains(h: HandshakeView) -> TransportView {
    keyed(h.initiator, noise_keys(h))
}

/// Chains under two keys, the first for what the initiator sends.
pub open spec fn keyed(initiator: bool, keys: (Seq<u8>, Seq<u8>)) -> TransportView {
    let (i, r) = keys;
    if initiator {
        TransportView { send_key: i, sent: 0, recv_key: r, received: 0 }
    } else {
        TransportView { send_key: r, sent: 0, recv_key: i, received: 0 }
    }
}

/// What writing the last message does: the session `t` begins with the chains of the
/// finished handshake.
pub open spec fn wrote_last(
    pre: HandshakeView,
    t: TransportView,
    payload: Seq<u8>,
    msg: Seq<u8>,
) -> bool {
    exists|post: HandshakeView| #[trigger] wrote(pre, post, payload, msg) && t == chains(post)
}

/// Draws a key pair with `snow::Builder::generate_keypair`: 32 bytes each, the public
/// key belonging to the private one. The default resolver knows every part of these
/// parameters, so nothing can fail.
#[verifier::external_body]
fn snow_keypair(params: &str) -> (r: Result<(Vec<u8>, Vec<u8>), snow::Error>)
    requires
        params@ == NOISE_PARAMS@,
    ensures
        r is Ok,
        r matches Ok(pair) ==> pair.0@.len() == 32 && pair.1@.len() == 32 && pair.1@
            == x25519_public(pair.0@),
{
    match Builder::new(params.parse()?).generate_keypair() {
        Ok(pair) => Ok((pair.private, pair.public)),
        Err(e) => Err(e),
    }
}

/// Starts the initiator's side with `snow::Builder::build_initiator`. Keys are cut or
/// filled up to 32 bytes; `snow` panics where they do not fit its buffers. With both
/// keys given nothing can fail.
#[verifier::external_body]
fn snow_initiator(params: &str, remote_key: &[u8], static_key: &[u8], prologue: &[u8]) -> (r: Result<
    HandshakeState,
    snow::Error,
>)
    requires
        params@ == NOISE_PARAMS@,
        static_key@.len() <= 32,
        remote_key@.len() <= 56,
    ensures
        r is Ok,
        r matches Ok(h) ==> handshake_view(h) == fresh_initiator(
            remote_key@,
            static_key@,
            prologue@,
        ),
{
    Builder::new(params.parse()?)
        .prologue(prologue)
        .local_private_key(static_key)
        .remote_public_key(remote_key)
        .build_initiator()
}

/// Starts the responder's side with `snow::Builder::build_responder`, as above. It
/// learns the other side's key from the first message.
#[verifier::external_body]
fn snow_responder(params: &str, static_key: &[u8], prologue: &[u8]) -> (r: Result<
    HandshakeState,
    snow::Error,
>)
    requires
        params@ == NOISE_PARAMS@,
        static_key@.len() <= 32,
    ensures
        r is Ok,
        r matches Ok(h) ==> handshake_view(h) == fresh_responder(static_key@, prologue@),
{
    Builder::new(params.parse()?).prologue(prologue).local_private_key(static_key).build_responder()
}

/// Writes a handshake message with `snow::HandshakeState::write_message`. It succeeds
/// if it is this side's turn and the message is not too long; what it does then is
/// `wrote`. A refusal changes at most the ephemeral key, which the next call redraws.
/// (The cipher panics on a payload of 256 GiB.)
#[verifier::external_body]
fn snow_write(hs: &mut HandshakeState, payload: &[u8], room: usize) -> (r: Result<
    Vec<u8>,
    snow::Error,
>)
    requires
        payload@.len() + 128 <= room <= isize::MAX,
        payload@.len() < 274877906880,
    ensures
        r is Ok <==> handshake_view(*old(hs)).may_write() && payload@.len() + handshake_view(
            *old(hs),
        ).overhead() <= NOISE_MAX_MESSAGE,
        r matches Ok(msg) ==> wrote(
            handshake_view(*old(hs)),
            handshake_view(*final(hs)),
            payload@,
            msg@,
        ),
        r is Err ==> handshake_view(*final(hs)) == (HandshakeView {
            ephemeral: handshake_view(*final(hs)).ephemeral,
            ..handshake_view(*old(hs))
        }),
{
    let mut buf = vec![0u8; room];
    let n = hs.write_message(payload, &mut buf)?;
    buf.truncate(n);
    Ok(buf)
}

/// Reads a handshake message with `snow::HandshakeState::read_message`. What comes out
/// depends on what this side goes by and on the message. A refusal changes at most the
/// other side's key, which the next call reads anew.
#[verifier::external_body]
fn snow_read(hs: &mut HandshakeState, msg: &[u8]) -> (r: Result<Vec<u8>, snow::Error>)
    ensures
        r is Ok <==> noise_read(handshake_view(*old(hs)), msg@) is Some,
        r matches Ok(payload) ==> did_read(
            handshake_view(*old(hs)),
            handshake_view(*final(hs)),
            msg@,
            payload@,
        ),
        r is Err ==> handshake_view(*final(hs)) == (HandshakeView {
            remote_key: handshake_view(*final(hs)).remote_key,
            ..handshake_view(*old(hs))
        }),
{
    let mut buf = vec![0u8; msg.len()];
    let n = hs.read_message(msg, &mut buf)?;
    buf.truncate(n);
    Ok(buf)
}

/// Leaves a handshake with `snow::HandshakeState::into_transport_mode`: once both
/// messages are through, the records of either side have a key of their own.
#[verifier::external_body]
fn snow_transport(hs: HandshakeState) -> (r: Result<TransportState, snow::Error>)
    ensures
        r is Ok <==> handshake_view(hs).messages.len() == 2,
        r matches Ok(t) ==> transport_view(t) == keyed(
            handshake_view(hs).initiator,
            noise_keys(handshake_view(hs)),
        ),
{
    hs.into_transport_mode()
}

/// Seals a record with `snow::TransportState::write_message`. It refuses a plaintext
/// that is too long, and everything once the record numbers are used up; else the
/// ciphertext is the plaintext sealed under the present key and number, 16 bytes
/// longer, and opening it there gives the plaintext back.
#[verifier::external_body]
fn snow_seal(ts: &mut TransportState, plaintext: &[u8], room: usize) -> (r: Result<
    Vec<u8>,
    snow::Error,
>)
    requires
        plaintext@.len() + TAG_LEN <= room <= isize::MAX,
    ensures
        r is Ok <==> plaintext@.len() <= MAX_PLAINTEXT && transport_view(*old(ts)).sent != u64::MAX,
        r matches Ok(ct) ==> ct@ == aead_seal(
            transport_view(*old(ts)).send_key,
            transport_view(*old(ts)).sent,
            plaintext@,
        ) && ct@.len() == plaintext@.len() + TAG_LEN && aead_open(
            transport_view(*old(ts)).send_key,
            transport_view(*old(ts)).sent,
            ct@,
        ) == Some(plaintext@),
        transport_view(*final(ts)) == (TransportView {
            sent: (transport_view(*old(ts)).sent + if r is Ok {
                1int
            } else {
                0
            }) as nat,
            ..transport_view(*old(ts))
        }),
{
    let mut buf = vec![0u8; room];
    let n = ts.write_message(plaintext, &mut buf)?;
    buf.truncate(n);
    Ok(buf)
}

/// Opens a record with `snow::TransportState::read_message`. It refuses what is too
/// long or shorter than a tag, what does not open under the present key and number,
/// and everything once the record numbers are used up. Only a success counts.
#[verifier::external_body]
fn snow_open(ts: &mut TransportState, ciphertext: &[u8]) -> (r: Result<Vec<u8>, snow::Error>)
    ensures
        r is Ok <==> TAG_LEN <= ciphertext@.len() <= NOISE_MAX_MESSAGE && transport_view(
            *old(ts),
        ).received != u64::MAX && aead_open(
            transport_view(*old(ts)).recv_key,
            transport_view(*old(ts)).received,
            ciphertext@,
        ) is Some,
        r matches Ok(pt) ==> aead_open(
            transport_view(*old(ts)).recv_key,
            transport_view(*old(ts)).received,
            ciphertext@,
        ) == Some(pt@) && pt@.len() == ciphertext@.len() - TAG_LEN,
        transport_view(*final(ts)) == (TransportView {
            received: (transport_view(*old(ts)).received + if r is Ok {
                1int
            } else {
                0
            }) as nat,
            ..transport_view(*old(ts))
        }),
{
    let mut buf = vec![0u8; ciphertext.len()];
    let n = ts.read_message(ciphertext, &mut buf)?;
    buf.truncate(n);
    Ok(buf)
}

/// `snow::TransportState::rekey_outgoing`: the key of this side's records is replaced
/// by the one that follows it, and their numbers go on.
#[verifier::external_body]
fn snow_rekey_outgoing(ts: &mut TransportState)
    ensures
        transport_view(*final(ts)) == (TransportView {
            send_key: next_key(transport_view(*old(ts)).send_key),
            ..transport_view(*old(ts))
        }),
{
    ts.rekey_outgoing();
}

/// `snow::TransportState::rekey_incoming`: the same for the other side's records.
#[verifier::external_body]
fn snow_rekey_incoming(ts: &mut TransportState)
    ensures
        transport_view(*final(ts)) == (TransportView {
            recv_key: next_key(transport_view(*old(ts)).recv_key),
            ..transport_view(*old(ts))
        }),
{
    ts.rekey_incoming();
}

/// Draws a static key pair.
pub fn generate_keypair() -> (r: Result<Keypair, NoiseError>)
    ensures
        r matches Ok(pair) && pair.private@.len() == 32 && pair.public@.len() == 32
            && pair.public@ == x25519_public(pair.private@),
{
    match snow_keypair(NOISE_PARAMS) {
        Ok((private, public)) => Ok(Keypair { private, public }),
        Err(e) => Err(NoiseError::Snow(e)),
    }
}

/// Room enough for a handshake message with such a payload.
fn hs_out_cap(payload_len: usize) -> (n: usize)
    requires
        payload_len + 128 <= usize::MAX,
    ensures
        n == payload_len + 128,
{
    payload_len + 128
}

/// The initiator of a handshake.
pub struct Initiator {
    hs: HandshakeState,
}

impl View for Initiator {
    type V = HandshakeView;

    closed spec fn view(&self) -> HandshakeView {
        handshake_view(self.hs)
    }
}

impl Initiator {
    /// Starts a handshake with the responder whose static public key is `server_pub`.
    pub fn new(server_pub: &[u8], client_priv: &[u8], prologue: &[u8]) -> (r: Result<
        Self,
        NoiseError,
    >)
        requires
            server_pub@.len() <= 56,
            client_priv@.len() <= 32,
        ensures
            r matches Ok(i) && i@ == fresh_initiator(server_pub@, client_priv@, prologue@),
    {
        match snow_initiator(NOISE_PARAMS, server_pub, client_priv, prologue) {
            Ok(hs) => Ok(Initiator { hs }),
            Err(e) => Err(NoiseError::Snow(e)),
        }
    }

    /// Writes the first message with its payload.
    pub fn write_msg1(&mut self, payload: &[u8]) -> (r: Result<Vec<u8>, NoiseError>)
        requires
            payload@.len() + 128 <= isize::MAX,
            payload@.len() < 274877906880,
        ensures
            r is Ok <==> old(self)@.may_write() && payload@.len() + old(self)@.overhead()
                <= NOISE_MAX_MESSAGE,
            r matches Ok(msg) ==> wrote(old(self)@, final(self)@, payload@, msg@),
            r matches Err(e) ==> e is Snow && final(self)@ == (HandshakeView {
                ephemeral: final(self)@.ephemeral,
                ..old(self)@
            }),
    {
        match snow_write(&mut self.hs, payload, hs_out_cap(payload.len())) {
            Ok(msg) => Ok(msg),
            Err(e) => Err(NoiseError::Snow(e)),
        }
    }

    /// Reads the second message: its payload, and the session that begins.
    pub fn read_msg2(self, msg2: &[u8]) -> (r: Result<(Transport, Vec<u8>), NoiseError>)
        ensures
            r is Ok <==> noise_read(self@, msg2@) is Some && self@.messages.len() == 1,
            r matches Ok((t, payload)) ==> noise_read(self@, msg2@)->Some_0.0 == payload@ && t@
                == chains(
                HandshakeView {
                    remote_key: noise_read(self@, msg2@)->Some_0.1,
                    ..self@.with_message(msg2@)
                },
            ),
            r matches Err(e) ==> e is Snow,
    {
        let mut hs = self.hs;
        match snow_read(&mut hs, msg2) {
            Ok(payload) => match snow_transport(hs) {
                Ok(ts) => Ok((Transport { ts }, payload)),
                Err(e) => Err(NoiseError::Snow(e)),
            },
            Err(e) => Err(NoiseError::Snow(e)),
        }
    }
}

/// The responder of a handshake.
pub struct Responder {
    hs: HandshakeState,
}

impl View for Responder {
    type V = HandshakeView;

    closed spec fn view(&self) -> HandshakeView {
        handshake_view(self.hs)
    }
}

impl Responder {
    /// Awaits a handshake.
    pub fn new(server_priv: &[u8], prologue: &[u8]) -> (r: Result<Self, NoiseError>)
        requires
            server_priv@.len() <= 32,
        ensures
            r matches Ok(s) && s@ == fresh_responder(server_priv@, prologue@),
    {
        match snow_responder(NOISE_PARAMS, server_priv, prologue) {
            Ok(hs) => Ok(Responder { hs }),
            Err(e) => Err(NoiseError::Snow(e)),
        }
    }

    /// Reads the first message and returns its payload.
    pub fn read_msg1(&mut self, msg1: &[u8]) -> (r: Result<Vec<u8>, NoiseError>)
        ensures
            r is Ok <==> noise_read(old(self)@, msg1@) is Some,
            r matches Ok(payload) ==> did_read(old(self)@, final(self)@, msg1@, payload@),
            r matches Err(e) ==> e is Snow && final(self)@ == (HandshakeView {
                remote_key: final(self)@.remote_key,
                ..old(self)@
            }),
    {
        match snow_read(&mut self.hs, msg1) {
            Ok(payload) => Ok(payload),
            Err(e) => Err(NoiseError::Snow(e)),
        }
    }

    /// Writes the second message with its payload; the session begins.
    pub fn write_msg2(self, payload: &[u8]) -> (r: Result<(Transport, Vec<u8>), NoiseError>)
        requires
            payload@.len() + 128 <= isize::MAX,
            payload@.len() < 274877906880,
        ensures
            r is Ok <==> self@.may_write() && payload@.len() + self@.overhead()
                <= NOISE_MAX_MESSAGE && self@.messages.len() == 1,
            r matches Ok((t, msg)) ==> wrote_last(self@, t@, payload@, msg@),
            r matches Err(e) ==> e is Snow,
    {
        let mut hs = self.hs;
        match snow_write(&mut hs, payload, hs_out_cap(payload.len())) {
            Ok(msg) => {
                let ghost post = handshake_view(hs);
                match snow_transport(hs) {
                    Ok(ts) => {
                        let t = Transport { ts };
                        assert(wrote_last(self@, t@, payload@, msg@)) by {
                            assert(wrote(self@, post, payload@, msg@) && t@ == chains(post));
                        }
                        Ok((t, msg))
                    },
                    Err(e) => Err(NoiseError::Snow(e)),
                }
            },
            Err(e) => Err(NoiseError::Snow(e)),
        }
    }
}

/// One side of a session: seals its own records and opens the other side's.
pub struct Transport {
    ts: TransportState,
}

impl View for Transport {
    type V = TransportView;

    closed spec fn view(&self) -> TransportView {
        transport_view(self.ts)
    }
}

impl TransportView {
    /// Whether a record can be sealed.
    pub open spec fn can_seal(self, plaintext: Seq<u8>) -> bool {
        plaintext.len() <= MAX_PLAINTEXT && self.sent != u64::MAX
    }

    /// The next record.
    pub open spec fn sealed(self, plaintext: Seq<u8>) -> Seq<u8> {
        aead_seal(self.send_key, self.sent, plaintext)
    }

    /// This side behind one more record of its own.
    pub open spec fn after_seal(self) -> TransportView {
        TransportView { sent: self.sent + 1, ..self }
    }

    /// What a record of the other side holds, nothing if it is refused.
    pub open spec fn opened(self, ciphertext: Seq<u8>) -> Option<Seq<u8>> {
        if TAG_LEN <= ciphertext.len() <= NOISE_MAX_MESSAGE && self.received != u64::MAX {
            aead_open(self.recv_key, self.received, ciphertext)
        } else {
            None
        }
    }

    /// This side behind one more record of the other.
    pub open spec fn after_open(self) -> TransportView {
        TransportView { received: self.received + 1, ..self }
    }

    /// This side with the next key for its own records.
    pub open spec fn rekeyed_outgoing(self) -> TransportView {
        TransportView { send_key: next_key(self.send_key), ..self }
    }

    /// This side with the next key for the other side's records.
    pub open spec fn rekeyed_incoming(self) -> TransportView {
        TransportView { recv_key: next_key(self.recv_key), ..self }
    }
}

/// Whether `receiver` opens what `sender` seals next.
pub open spec fn in_step(sender: TransportView, receiver: TransportView) -> bool {
    sender.send_key == receiver.recv_key && sender.sent == receiver.received
}

/// What sealing promises of the record: its length, and that it opens.
pub open spec fn is_record(sender: TransportView, plaintext: Seq<u8>, ct: Seq<u8>) -> bool {
    &&& ct == sender.sealed(plaintext)
    &&& ct.len() == plaintext.len() + TAG_LEN
    &&& aead_open(sender.send_key, sender.sent, ct) == Some(plaintext)
}

impl Transport {
    /// Seals a record.
    pub fn seal(&mut self, plaintext: &[u8]) -> (r: Result<Vec<u8>, NoiseError>)
        ensures
            match r {
                Ok(ct) => {
                    &&& old(self)@.can_seal(plaintext@)
                    &&& is_record(old(self)@, plaintext@, ct@)
                    &&& final(self)@ == old(self)@.after_seal()
                },
                Err(NoiseError::PlaintextTooLarge(n)) => {
                    &&& n == plaintext@.len()
                    &&& n > MAX_PLAINTEXT
                    &&& final(self)@ == old(self)@
                },
                Err(NoiseError::Snow(_)) => {
                    &&& plaintext@.len() <= MAX_PLAINTEXT
                    &&& old(self)@.sent == u64::MAX
                    &&& final(self)@ == old(self)@
                },
            },
    {
        if plaintext.len() > MAX_PLAINTEXT {
            return Err(NoiseError::PlaintextTooLarge(plaintext.len()));
        }
        match snow_seal(&mut self.ts, plaintext, plaintext.len() + TAG_LEN) {
            Ok(ct) => Ok(ct),
            Err(e) => Err(NoiseError::Snow(e)),
        }
    }

    /// Opens a record.
    pub fn open(&mut self, ciphertext: &[u8]) -> (r: Result<Vec<u8>, NoiseError>)
        ensures
            match r {
                Ok(pt) => {
                    &&& old(self)@.opened(ciphertext@) == Some(pt@)
                    &&& pt@.len() == ciphertext@.len() - TAG_LEN
                    &&& final(self)@ == old(self)@.after_open()
                },
                Err(e) => {
                    &&& e is Snow
                    &&& old(self)@.opened(ciphertext@) is None
                    &&& final(self)@ == old(self)@
                },
            },
    {
        match snow_open(&mut self.ts, ciphertext) {
            Ok(pt) => Ok(pt),
            Err(e) => Err(NoiseError::Snow(e)),
        }
    }

    /// Switches to the next key for this side's records.
    pub fn rekey_outgoing(&mut self)
        ensures
            final(self)@ == old(self)@.rekeyed_outgoing(),
    {
        snow_rekey_outgoing(&mut self.ts);
    }

    /// Switches to the next key for the other side's records.
    pub fn rekey_incoming(&mut self)
        ensures
            final(self)@ == old(self)@.rekeyed_incoming(),
    {
        snow_rekey_incoming(&mut self.ts);
    }
}

/// A record sealed by one side opens at the other, and both stay in step.
pub proof fn law_open_undoes_seal(
    sender: TransportView,
    receiver: TransportView,
    plaintext: Seq<u8>,
    ct: Seq<u8>,
)
    requires
        in_step(sender, receiver),
        sender.can_seal(plaintext),
        is_record(sender, plaintext, ct),
    ensures
        receiver.opened(ct) == Some(plaintext),
        in_step(sender.after_seal(), receiver.after_open()),
{
}

/// When both sides switch keys at the same record they stay in step, and the other
/// direction is untouched.
pub proof fn law_rekey_stays_in_step(sender: TransportView, receiver: TransportView)
    requires
        in_step(sender, receiver),
    ensures
        in_step(sender.rekeyed_outgoing(), receiver.rekeyed_incoming()),
        in_step(receiver, sender) ==> in_step(
            receiver.rekeyed_incoming(),
            sender.rekeyed_outgoing(),
        ),
{
}

/// A handshake between an initiator and the responder whose public key it has, under
/// one prologue: each side gets the other's payload, and the sessions that begin are
/// in step both ways.
pub proof fn law_handshake(
    i0: HandshakeView,
    i1: HandshakeView,
    r0: HandshakeView,
    r1: HandshakeView,
    r2: HandshakeView,
    payload0: Seq<u8>,
    msg1: Seq<u8>,
    payload1: Seq<u8>,
    msg2: Seq<u8>,
)
    requires
        i0.initiator && i0.messages.len() == 0,
        !r0.initiator && r0.messages.len() == 0,
        i0.static_key.len() == 32,
        r0.static_key.len() == 32,
        i0.prologue == r0.prologue,
        i0.remote_key == x25519_public(r0.static_key),
        wrote(i0, i1, payload0, msg1),
        noise_read(r0, msg1) is Some ==> did_read(r0, r1, msg1, noise_read(r0, msg1)->Some_0.0),
        wrote(r1, r2, payload1, msg2),
    ensures
        noise_read(r0, msg1) is Some && noise_read(r0, msg1)->Some_0.0 == payload0,
        noise_read(i1, msg2) is Some && noise_read(i1, msg2)->Some_0.0 == payload1,
        ({
            let i2 = HandshakeView {
                remote_key: noise_read(i1, msg2)->Some_0.1,
                ..i1.with_message(msg2)
            };
            in_step(chains(i2), chains(r2)) && in_step(chains(r2), chains(i2))
        }),
{
    assert(i1.messages.drop_last() =~= r0.messages);
    assert(is_meant_for(i1, r0));
    assert(r2.messages.drop_last() =~= r1.messages);
    assert(r1.messages =~= i1.messages);
    assert(r2.messages[0] =~= msg1);
    assert(is_meant_for(r2, i1));
}

/// A key is cut or filled up with zeros to 32 bytes.
pub proof fn law_keys_are_fitted(key: Seq<u8>, i: int)
    requires
        0 <= i < 32,
    ensures
        fit32(key).len() == 32,
        i < key.len() ==> fit32(key)[i] == key[i],
        i >= key.len() ==> fit32(key)[i] == 0,
        key.len() == 32 ==> fit32(key) == key,
{
    if key.len() == 32 {
        assert(fit32(key) =~= key);
    }
}

/// Sealing and opening count the records of their own direction, and a new key replaces that
/// of its own direction; nothing else changes. A plaintext and its tag fill at most one
/// message.
pub proof fn law_directions_are_separate(t: TransportView, plaintext: Seq<u8>)
    ensures
        t.after_seal() == (TransportView { sent: t.sent + 1, ..t }),
        t.after_open() == (TransportView { received: t.received + 1, ..t }),
        t.rekeyed_outgoing() == (TransportView { send_key: next_key(t.send_key), ..t }),
        t.rekeyed_incoming() == (TransportView { recv_key: next_key(t.recv_key), ..t }),
        t.can_seal(plaintext) <==> plaintext.len() + 16 <= 65535 && t.sent != u64::MAX,
        MAX_PLAINTEXT + TAG_LEN == NOISE_MAX_MESSAGE && NOISE_MAX_MESSAGE == 0xffff,
{
}

/// A side is in step with another exactly if the one seals its next record under the key and
/// the number under which the other opens its next.
pub proof fn law_in_step(a: TransportView, b: TransportView)
    ensures
        in_step(a, b) <==> a.send_key == b.recv_key && a.sent == b.received,
        in_step(a, b) ==> in_step(a.after_seal(), b.after_open()),
        in_step(a, b) && in_step(b, a) ==> in_step(b, a.after_seal()),
{
}

/// A handshake begins with what it is given: the role, the prologue, the own key, and for the
/// one that speaks first the other's; no message was exchanged, and no ephemeral key drawn.
pub proof fn law_handshake_begins(remote_key: Seq<u8>, static_key: Seq<u8>, prologue: Seq<u8>)
    ensures
        ({
            let i = fresh_initiator(remote_key, static_key, prologue);
            let r = fresh_responder(static_key, prologue);
            &&& i.initiator && !r.initiator
            &&& i.prologue == prologue && r.prologue == prologue
            &&& static_key.len() == 32 ==> i.static_key == static_key && r.static_key == static_key
            &&& remote_key.len() == 32 ==> i.remote_key == remote_key
            &&& r.remote_key.len() == 0
            &&& i.ephemeral.len() == 0 && r.ephemeral.len() == 0
            &&& i.messages.len() == 0 && r.messages.len() == 0
            &&& i.may_write() && !r.may_write()
        }),
{
    law_keys_are_fitted(static_key, 0);
    law_keys_are_fitted(remote_key, 0);
}

/// A message has at most 65535 bytes, of which 16 are for the check: so much can be sealed, and
/// nothing shorter or longer is opened. The last number is not used in either direction.
pub proof fn law_message_sizes(t: TransportView, plaintext: Seq<u8>, ciphertext: Seq<u8>)
    requires
        t.sent <= u64::MAX,
        t.received <= u64::MAX,
    ensures
        t.can_seal(plaintext) <==> plaintext.len() + 16 <= 65_535 && t.sent
            < 0xffff_ffff_ffff_ffff,
        t.opened(ciphertext) is Some ==> 16 <= ciphertext.len() <= 65_535 && t.received
            < 0xffff_ffff_ffff_ffff,
{
}

/// A message of a handshake shows the ephemeral key, 32 bytes, and ends with a tag of 16; that
/// of the initiator holds between them its static key, 32 bytes, with a tag of its own. It
/// begins with the ephemeral key, and who wrote it has written one more.
pub proof fn law_handshake_messages(
    pre: HandshakeView,
    post: HandshakeView,
    payload: Seq<u8>,
    msg: Seq<u8>,
)
    requires
        wrote(pre, post, payload, msg),
    ensures
        pre.initiator ==> msg.len() == 32 + (32 + 16) + payload.len() + 16,
        !pre.initiator ==> msg.len() == 32 + payload.len() + 16,
        msg.take(32) == x25519_public(post.ephemeral),
        post.messages == pre.messages + seq![msg],
        post.initiator == pre.initiator && post.static_key == pre.static_key,
        post.remote_key == pre.remote_key && post.prologue == pre.prologue,
        fresh_initiator(pre.remote_key, pre.static_key, pre.prologue).may_write(),
        !fresh_responder(pre.static_key, pre.prologue).may_write(),
        fresh_responder(pre.static_key, pre.prologue).with_message(msg).may_write(),
{
    assert(msg.take(32) =~= msg.subrange(0, 32));
    assert(post.messages =~= pre.messages + seq![msg]);
}

/// A plaintext has one record under a key and a number, which is 16 bytes longer, and another
/// plaintext has another record.
pub proof fn law_record_is_determined(
    sender: TransportView,
    p: Seq<u8>,
    q: Seq<u8>,
    a: Seq<u8>,
    b: Seq<u8>,
)
    requires
        is_record(sender, p, a),
        is_record(sender, q, b),
    ensures
        a == b <==> p == q,
        a.len() == p.len() + 16,
{
}

} // verus!
