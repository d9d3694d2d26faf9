//! Sessions: a Noise handshake, then sealed frames.
//!
//! Frames are padded to a length that the sampler draws, sealed, and sent as records.
//! After so many frames or so many bytes, whichever comes first, the sender announces a
//! new key with a last frame under the old one. The bytes themselves are sent and received
//! elsewhere: here is what they are.

use super::mux::MuxEvent;
use super::record;
use crate::random;
use crate::shaping::sampler;
use crate::shaping::sampler::LenSampler;
use crate::wire::frame;
use crate::wire::frame::{Frame, FrameError, FrameType, FrameView, HEADER_LEN};
use crate::wire::noise;
use crate::wire::noise::{
    HandshakeView, Initiator, NoiseError, Responder, Transport, TransportView, MAX_PLAINTEXT,
};
use crate::wire::octets;
use rand::rngs::StdRng;
use vstd::prelude::*;

verus! {

/// After how many frames a sender changes its key, unless told otherwise.
pub const DEFAULT_REKEY_FRAMES: u64 = 1048576;

/// After how many bytes of records a sender changes its key, however few frames they are.
pub const REKEY_BYTES: u64 = 17179869184;

/// The most data in one frame.
pub const MAX_STREAM_CHUNK: usize = 16384;

/// Why a session failed.
#[derive(Debug)]
pub enum SessionError {
    /// In the Noise layer.
    Noise(NoiseError),
    /// In a frame.
    Frame(FrameError),
    /// A record would be too long.
    Record(usize),
}

/// The sending half of a session, apart from its keys.
pub struct SendState {
    sampler: Option<LenSampler>,
    rng: StdRng,
    rekey_interval: u64,
    sent_frames: u64,
    sealed_bytes: u64,
    announced: bool,
}

/// What a sending half holds: after how many frames it changes its key, how many frames
/// it has sent and how many bytes of records it has sealed under the present one, and
/// whether the record that it sealed last announces a new one.
pub struct SendView {
    pub sampler: Option<LenSampler>,
    pub rng: StdRng,
    pub interval: u64,
    pub sent: u64,
    pub bytes: u64,
    pub announced: bool,
}

impl View for SendState {
    type V = SendView;

    closed spec fn view(&self) -> SendView {
        SendView {
            sampler: self.sampler,
            rng: self.rng,
            interval: self.rekey_interval,
            sent: self.sent_frames,
            bytes: self.sealed_bytes,
            announced: self.announced,
        }
    }
}

impl SendView {
    /// With one more frame sent.
    pub open spec fn counted(self) -> SendView {
        SendView {
            sent: if self.sent == u64::MAX {
                u64::MAX
            } else {
                (self.sent + 1) as u64
            },
            ..self
        }
    }

    /// With one more record sealed, which announces a new key or does not.
    pub open spec fn with_record(self, len: nat, announces: bool) -> SendView {
        SendView {
            bytes: if self.bytes + len > u64::MAX {
                u64::MAX
            } else {
                (self.bytes + len) as u64
            },
            announced: announces,
            ..self
        }
    }

    /// With another interval, at least one.
    pub open spec fn with_interval(self, frames: u64) -> SendView {
        SendView {
            interval: if frames == 0 {
                1
            } else {
                frames
            },
            ..self
        }
    }

    /// With a new key, under which nothing was sent yet.
    pub open spec fn rekeyed(self) -> SendView {
        SendView { sent: 0, bytes: 0, announced: false, ..self }
    }

    /// Whether a new key is due: by the frames or by the bytes.
    pub open spec fn rekey_due(self) -> bool {
        self.sent >= self.interval || self.bytes >= REKEY_BYTES
    }
}

/// A sending half that has sent nothing.
pub open spec fn fresh_half(sampler: Option<LenSampler>, rng: StdRng) -> SendView {
    SendView {
        sampler,
        rng,
        interval: DEFAULT_REKEY_FRAMES,
        sent: 0,
        bytes: 0,
        announced: false,
    }
}

/// The padding for a payload and a target: what reaches the target, as far as the
/// record does not become too long.
pub open spec fn fitting_pad(payload_len: int, target: int) -> int {
    let wanted = sampler::padding(payload_len, HEADER_LEN as int, target);
    let room = MAX_PLAINTEXT - HEADER_LEN - payload_len;
    if room < 0 {
        0
    } else if room < wanted {
        room
    } else {
        wanted
    }
}

/// What choosing the padding does: without a sampler there is none; a sampler draws
/// the target.
pub open spec fn chose_pad(pre: SendView, post: SendView, payload_len: int, pad: u16) -> bool {
    match pre.sampler {
        None => pad == 0 && post == pre,
        Some(s) => exists|target: usize|
            {
                &&& post.sampler is Some
                &&& post == (SendView { sampler: post.sampler, rng: post.rng, ..pre })
                &&& #[trigger] sampler::sampled(s, post.sampler->Some_0, pre.rng, post.rng, target)
                &&& pad == fitting_pad(payload_len, target as int)
            },
    }
}

/// What sealing a frame with this much padding does: a record with the sealed frame,
/// or the first reason why there is none.
pub open spec fn sealed_frame(
    pre: TransportView,
    post: TransportView,
    f: FrameView,
    pad: u16,
    r: Result<Vec<u8>, SessionError>,
) -> bool {
    let plaintext = frame::frame_bytes(f, pad as nat);
    if f.payload.len() > frame::MAX_FIELD {
        &&& r matches Err(SessionError::Frame(FrameError::PayloadTooLarge(n))) && n
            == f.payload.len()
        &&& post == pre
    } else if plaintext.len() > MAX_PLAINTEXT {
        &&& r matches Err(SessionError::Noise(NoiseError::PlaintextTooLarge(n))) && n
            == plaintext.len()
        &&& post == pre
    } else if pre.sent == u64::MAX {
        &&& r matches Err(SessionError::Noise(NoiseError::Snow(_)))
        &&& post == pre
    } else {
        &&& r matches Ok(rec) && is_sealed_record(pre, plaintext, rec@)
        &&& post == pre.after_seal()
    }
}

/// Whether `rec` is the record in which this plaintext goes out.
pub open spec fn is_sealed_record(sender: TransportView, plaintext: Seq<u8>, rec: Seq<u8>) -> bool {
    exists|ct: Seq<u8>| #[trigger]
        noise::is_record(sender, plaintext, ct) && rec == record::record_bytes(ct)
}

/// What a sender does to seal a frame, which announces a new key or does not: it chooses
/// the padding and seals; a record counts with its length.
pub open spec fn sealed_by(
    pre: SendView,
    post: SendView,
    before: TransportView,
    after: TransportView,
    f: FrameView,
    announces: bool,
    r: Result<Vec<u8>, SessionError>,
) -> bool {
    exists|chosen: SendView, pad: u16|
        {
            &&& #[trigger] chose_pad(pre, chosen, f.payload.len() as int, pad)
            &&& sealed_frame(before, after, f, pad, r)
            &&& post == (match r {
                Ok(rec) => chosen.with_record(rec@.len(), announces),
                Err(_) => chosen,
            })
        }
}

/// What a sender does once the record that it sealed last was sent, and which record
/// comes next. After an announcement it switches to the new key. After a frame it counts
/// the frame; if a new key is then due, its announcement comes next, sealed under the old
/// key. Otherwise nothing does.
pub open spec fn went_on(
    pre: SendView,
    post: SendView,
    before: TransportView,
    after: TransportView,
    r: Result<Option<Vec<u8>>, SessionError>,
) -> bool {
    if pre.announced {
        &&& r matches Ok(None)
        &&& post == pre.rekeyed()
        &&& after == before.rekeyed_outgoing()
    } else if !pre.counted().rekey_due() {
        &&& r matches Ok(None)
        &&& post == pre.counted()
        &&& after == before
    } else {
        let announcement: Result<Vec<u8>, SessionError> = match r {
            Ok(rec) => Ok(rec->Some_0),
            Err(e) => Err(e),
        };
        &&& r matches Ok(rec) ==> rec is Some
        &&& sealed_by(pre.counted(), post, before, after, rekey_frame(), true, announcement)
    }
}

/// The frame in a ciphertext and the receiver behind it. A frame that announces a new
/// key is not handed on: the receiver has switched.
pub open spec fn received(t: TransportView, ct: Seq<u8>) -> (
    Result<Option<FrameView>, FrameError>,
    TransportView,
) {
    match frame::parse_frame(t.opened(ct)->Some_0) {
        Err(e) => (Err(e), t.after_open()),
        Ok(f) => if f.ftype == FrameType::Rekey {
            (Ok(None), t.after_open().rekeyed_incoming())
        } else {
            (Ok(Some(f)), t.after_open())
        },
    }
}

impl SendState {
    /// A sending half that has sent nothing, with a generator seeded by the system.
    pub fn new(sampler: Option<LenSampler>) -> (s: Self)
        ensures
            s@ == fresh_half(sampler, s@.rng),
    {
        Self::with_rng(sampler, random::seeded_by_system())
    }

    /// A sending half with this generator.
    pub fn with_rng(sampler: Option<LenSampler>, rng: StdRng) -> (s: Self)
        ensures
            s@ == fresh_half(sampler, rng),
    {
        SendState {
            sampler,
            rng,
            rekey_interval: DEFAULT_REKEY_FRAMES,
            sent_frames: 0,
            sealed_bytes: 0,
            announced: false,
        }
    }

    /// Sets after how many frames the key changes, at least one.
    pub fn set_rekey_interval(&mut self, frames: u64)
        ensures
            final(self)@ == old(self)@.with_interval(frames),
    {
        self.rekey_interval = if frames == 0 {
            1
        } else {
            frames
        };
    }

    /// The sending half of a session that is split in two. The key stays the same, so
    /// what was sent under it goes on counting.
    pub fn split_off(self) -> (s: Self)
        ensures
            s@ == self@,
    {
        self
    }

    /// Chooses the padding for a payload.
    pub fn choose_pad(&mut self, payload_len: usize) -> (pad: u16)
        requires
            payload_len + HEADER_LEN <= usize::MAX,
        ensures
            chose_pad(old(self)@, final(self)@, payload_len as int, pad),
    {
        let target: usize = match &mut self.sampler {
            None => return 0,
            Some(sampler) => sampler.sample(&mut self.rng),
        };
        assert(sampler::sampled(
            old(self)@.sampler->Some_0,
            self@.sampler->Some_0,
            old(self)@.rng,
            self@.rng,
            target,
        ));
        pad_for_target(payload_len, target)
    }

    /// Pads and seals a frame: the record to send.
    pub fn seal_frame(&mut self, transport: &mut Transport, f: &Frame) -> (r: Result<
        Vec<u8>,
        SessionError,
    >)
        requires
            f.payload@.len() + HEADER_LEN <= usize::MAX,
        ensures
            sealed_by(
                old(self)@,
                final(self)@,
                old(transport)@,
                final(transport)@,
                f@,
                false,
                r,
            ),
    {
        self.seal_counted(transport, f, false)
    }

    /// Pads and seals a frame, and counts the bytes of the record.
    fn seal_counted(&mut self, transport: &mut Transport, f: &Frame, announces: bool) -> (r: Result<
        Vec<u8>,
        SessionError,
    >)
        requires
            f.payload@.len() + HEADER_LEN <= usize::MAX,
        ensures
            sealed_by(
                old(self)@,
                final(self)@,
                old(transport)@,
                final(transport)@,
                f@,
                announces,
                r,
            ),
    {
        let pad: u16 = self.choose_pad(f.payload.len());
        let ghost chosen = self@;
        assert(chose_pad(old(self)@, chosen, f@.payload.len() as int, pad));
        let rec = match seal_with_pad(transport, f, pad) {
            Ok(rec) => rec,
            Err(e) => return Err(e),
        };
        self.sealed_bytes = self.sealed_bytes.saturating_add(rec.len() as u64);
        self.announced = announces;
        Ok(rec)
    }

    /// Counts a frame that was sent, and tells whether a new key is due: by the frames or
    /// by the bytes, whichever comes first.
    pub fn frame_sent(&mut self) -> (due: bool)
        ensures
            final(self)@ == old(self)@.counted(),
            due == final(self)@.rekey_due(),
    {
        self.sent_frames = self.sent_frames.saturating_add(1);
        rekey_due(self.sent_frames, self.rekey_interval, self.sealed_bytes)
    }

    /// The frame that announces a new key, sealed under the old one.
    pub fn seal_rekey(&mut self, transport: &mut Transport) -> (r: Result<Vec<u8>, SessionError>)
        ensures
            sealed_by(
                old(self)@,
                final(self)@,
                old(transport)@,
                final(transport)@,
                rekey_frame(),
                true,
                r,
            ),
    {
        let f = Frame::new(FrameType::Rekey, Vec::new());
        assert(f@ =~= rekey_frame());
        self.seal_counted(transport, &f, true)
    }

    /// Switches to the new key once its announcement was sent, and counts from zero.
    pub fn rekeyed(&mut self, transport: &mut Transport)
        ensures
            final(self)@ == old(self)@.rekeyed(),
            final(transport)@ == old(transport)@.rekeyed_outgoing(),
    {
        transport.rekey_outgoing();
        self.sent_frames = 0;
        self.sealed_bytes = 0;
        self.announced = false;
    }

    /// Goes on once the record that was sealed last was sent: the record to send next, if
    /// there is one. Until there is none, no frame is to be sealed.
    pub fn record_sent(&mut self, transport: &mut Transport) -> (r: Result<
        Option<Vec<u8>>,
        SessionError,
    >)
        ensures
            went_on(old(self)@, final(self)@, old(transport)@, final(transport)@, r),
    {
        if self.announced {
            self.rekeyed(transport);
            return Ok(None);
        }
        if !self.frame_sent() {
            return Ok(None);
        }
        match self.seal_rekey(transport) {
            Ok(rec) => Ok(Some(rec)),
            Err(e) => Err(e),
        }
    }
}

/// Whether a key under which so many frames and bytes were sent is due to be changed.
pub fn rekey_due(sent: u64, interval: u64, bytes: u64) -> (due: bool)
    ensures
        due == (sent >= interval || bytes >= REKEY_BYTES),
{
    sent >= interval || bytes >= REKEY_BYTES
}

/// The frame that announces a new key.
pub open spec fn rekey_frame() -> FrameView {
    FrameView { ftype: FrameType::Rekey, payload: Seq::<u8>::empty() }
}

/// The padding for a payload and a target.
pub fn pad_for_target(payload_len: usize, target: usize) -> (pad: u16)
    requires
        payload_len + HEADER_LEN <= usize::MAX,
    ensures
        pad == fitting_pad(payload_len as int, target as int),
{
    let wanted: u16 = sampler::pad_to_target(payload_len, HEADER_LEN, target);
    let room: usize = MAX_PLAINTEXT.saturating_sub(HEADER_LEN + payload_len);
    if room < wanted as usize {
        room as u16
    } else {
        wanted
    }
}

/// Seals a frame with this much padding: the record to send.
pub fn seal_with_pad(transport: &mut Transport, f: &Frame, pad: u16) -> (r: Result<
    Vec<u8>,
    SessionError,
>)
    ensures
        sealed_frame(old(transport)@, final(transport)@, f@, pad, r),
{
    assert(f.payload@.len() == f.payload.len());
    let plaintext = match f.encode(pad) {
        Ok(p) => p,
        Err(e) => return Err(SessionError::Frame(e)),
    };
    let ct = match transport.seal(plaintext.as_slice()) {
        Ok(ct) => ct,
        Err(e) => return Err(SessionError::Noise(e)),
    };
    match record::encode_record(ct.as_slice()) {
        Ok(rec) => {
            assert(noise::is_record(old(transport)@, plaintext@, ct@));
            Ok(rec)
        },
        Err(e) => Err(SessionError::Record(e.0)),
    }
}

/// Opens the body of a record: a frame, or nothing if it announced a new key.
pub fn open_record(transport: &mut Transport, ciphertext: &[u8]) -> (r: Result<
    Option<Frame>,
    SessionError,
>)
    ensures
        old(transport)@.opened(ciphertext@) is None ==> final(transport)@ == old(transport)@ && (
        r matches Err(SessionError::Noise(NoiseError::Snow(_)))),
        old(transport)@.opened(ciphertext@) is Some ==> {
            let (frame, after) = received(old(transport)@, ciphertext@);
            &&& final(transport)@ == after
            &&& match frame {
                Ok(None) => r matches Ok(None),
                Ok(Some(f)) => r matches Ok(Some(g)) && g@ == f,
                Err(e) => r matches Err(SessionError::Frame(e2)) && e2 == e,
            }
        },
{
    let plaintext = match transport.open(ciphertext) {
        Ok(p) => p,
        Err(e) => return Err(SessionError::Noise(e)),
    };
    match Frame::decode(plaintext.as_slice()) {
        Err(e) => Err(SessionError::Frame(e)),
        Ok(f) => {
            if f.ftype == FrameType::Rekey {
                transport.rekey_incoming();
                Ok(None)
            } else {
                Ok(Some(f))
            }
        },
    }
}

/// Begins a session as the client: the state of the handshake and the record with its
/// first message, which carries no payload.
pub fn client_hello(server_pub: &[u8], client_priv: &[u8], auth: &[u8]) -> (r: Result<
    (Initiator, Vec<u8>),
    SessionError,
>)
    requires
        server_pub@.len() <= 56,
        client_priv@.len() <= 32,
    ensures
        r matches Ok((ini, rec)) && client_greeted(
            server_pub@,
            client_priv@,
            auth@,
            ini@,
            rec@,
        ),
{
    let mut ini = match Initiator::new(server_pub, client_priv, auth) {
        Ok(ini) => ini,
        Err(e) => return Err(SessionError::Noise(e)),
    };
    let empty: Vec<u8> = Vec::new();
    let msg1 = match ini.write_msg1(empty.as_slice()) {
        Ok(msg) => msg,
        Err(e) => return Err(SessionError::Noise(e)),
    };
    match record::encode_record(msg1.as_slice()) {
        Ok(rec) => {
            assert(empty@ =~= Seq::<u8>::empty());
            assert(noise::wrote(
                noise::fresh_initiator(server_pub@, client_priv@, auth@),
                ini@,
                Seq::<u8>::empty(),
                msg1@,
            ));
            Ok((ini, rec))
        },
        Err(e) => Err(SessionError::Record(e.0)),
    }
}

/// What beginning a session as the client does.
pub open spec fn client_greeted(
    server_pub: Seq<u8>,
    client_priv: Seq<u8>,
    auth: Seq<u8>,
    ini: HandshakeView,
    rec: Seq<u8>,
) -> bool {
    exists|msg: Seq<u8>|
        {
            &&& #[trigger] noise::wrote(
                noise::fresh_initiator(server_pub, client_priv, auth),
                ini,
                Seq::<u8>::empty(),
                msg,
            )
            &&& rec == record::record_bytes(msg)
        }
}

/// Ends the handshake of the client with the server's message.
pub fn client_finish(ini: Initiator, msg2: &[u8]) -> (r: Result<Transport, SessionError>)
    ensures
        r is Ok <==> noise::noise_read(ini@, msg2@) is Some && ini@.messages.len() == 1,
        r matches Ok(t) ==> t@ == noise::chains(
            HandshakeView {
                remote_key: noise::noise_read(ini@, msg2@)->Some_0.1,
                ..ini@.with_message(msg2@)
            },
        ),
        r matches Err(e) ==> e is Noise,
{
    match ini.read_msg2(msg2) {
        Ok((t, _)) => Ok(t),
        Err(e) => Err(SessionError::Noise(e)),
    }
}

/// Answers a client's first message: the session and the record with the answer, which
/// carries no payload. It succeeds exactly if the message can be read.
pub fn server_answer(server_priv: &[u8], auth: &[u8], msg1: &[u8]) -> (r: Result<
    (Transport, Vec<u8>),
    SessionError,
>)
    requires
        server_priv@.len() <= 32,
    ensures
        r is Ok <==> noise::noise_read(noise::fresh_responder(server_priv@, auth@), msg1@) is Some,
        r matches Ok((t, rec)) ==> server_answered(server_priv@, auth@, msg1@, t@, rec@),
        r matches Err(e) ==> e is Noise,
{
    let mut resp = match Responder::new(server_priv, auth) {
        Ok(resp) => resp,
        Err(e) => return Err(SessionError::Noise(e)),
    };
    let ghost start = resp@;
    if let Err(e) = resp.read_msg1(msg1) {
        return Err(SessionError::Noise(e));
    }
    let ghost mid = resp@;
    let empty: Vec<u8> = Vec::new();
    assert(empty@ =~= Seq::<u8>::empty());
    let (t, msg2) = match resp.write_msg2(empty.as_slice()) {
        Ok((t, msg2)) => (t, msg2),
        Err(e) => return Err(SessionError::Noise(e)),
    };
    match record::encode_record(msg2.as_slice()) {
        Ok(rec) => {
            assert(noise::did_read(start, mid, msg1@, noise::noise_read(start, msg1@)->Some_0.0));
            assert(noise::wrote_last(mid, t@, Seq::<u8>::empty(), msg2@));
            assert(server_answered(server_priv@, auth@, msg1@, t@, rec@));
            Ok((t, rec))
        },
        Err(e) => Err(SessionError::Record(e.0)),
    }
}

/// What answering a client does where it succeeds.
pub open spec fn server_answered(
    server_priv: Seq<u8>,
    auth: Seq<u8>,
    msg1: Seq<u8>,
    t: TransportView,
    rec: Seq<u8>,
) -> bool {
    let start = noise::fresh_responder(server_priv, auth);
    &&& noise::noise_read(start, msg1) is Some
    &&& exists|mid: HandshakeView, msg2: Seq<u8>|
        {
            &&& #[trigger] noise::did_read(start, mid, msg1, noise::noise_read(start, msg1)->Some_0.0)
            &&& #[trigger] noise::wrote_last(mid, t, Seq::<u8>::empty(), msg2)
            &&& rec == record::record_bytes(msg2)
        }
}

/// Cuts data into pieces of at most `MAX_STREAM_CHUNK` bytes; no data is one empty
/// piece.
pub open spec fn chunks(data: Seq<u8>) -> Seq<Seq<u8>>
    decreases data.len(),
{
    if data.len() <= MAX_STREAM_CHUNK {
        seq![data]
    } else {
        seq![data.take(MAX_STREAM_CHUNK as int)] + chunks(data.skip(MAX_STREAM_CHUNK as int))
    }
}

/// All pieces in a row.
pub open spec fn joined(pieces: Seq<Seq<u8>>) -> Seq<u8>
    decreases pieces.len(),
{
    if pieces.len() == 0 {
        Seq::<u8>::empty()
    } else {
        pieces[0] + joined(pieces.drop_first())
    }
}

/// The events that carry the data of a stream, however much it is.
pub fn stream_events(stream_id: u16, data: &[u8]) -> (events: Vec<MuxEvent>)
    ensures
        event_views(events@) == data_events(stream_id, data@),
{
    let mut events: Vec<MuxEvent> = Vec::new();
    let mut at: usize = 0;
    let ghost mut done = Seq::<Seq<u8>>::empty();
    assert(data@.skip(0) =~= data@);
    assert(done + chunks(data@) =~= chunks(data@));
    while data.len() - at > MAX_STREAM_CHUNK
        invariant
            at <= data@.len(),
            done + chunks(data@.skip(at as int)) == chunks(data@),
            events@.len() == done.len(),
            forall|i: int|
                0 <= i < events@.len() ==> (#[trigger] events@[i])@ == (super::mux::EventView::Data {
                    stream_id,
                    data: done[i],
                }),
        decreases data@.len() - at,
    {
        let ghost rest = data@.skip(at as int);
        let piece = octets::copy_range(data, at, at + MAX_STREAM_CHUNK);
        assert(piece@ =~= rest.take(MAX_STREAM_CHUNK as int));
        events.push(MuxEvent::Data { stream_id, data: piece });
        at = at + MAX_STREAM_CHUNK;
        proof {
            assert(rest.skip(MAX_STREAM_CHUNK as int) =~= data@.skip(at as int));
            assert(done + (seq![piece@] + chunks(data@.skip(at as int))) =~= done.push(piece@)
                + chunks(data@.skip(at as int)));
            done = done.push(piece@);
        }
    }
    let piece = octets::copy_range(data, at, data.len());
    assert(piece@ =~= data@.skip(at as int));
    events.push(MuxEvent::Data { stream_id, data: piece });
    assert(chunks(data@) =~= done.push(piece@));
    assert(event_views(events@) =~= data_events(stream_id, data@));
    events
}

/// What events say.
pub open spec fn event_views(events: Seq<MuxEvent>) -> Seq<super::mux::EventView> {
    events.map_values(|ev: MuxEvent| ev@)
}

/// The events that carry data of a stream.
pub open spec fn data_events(stream_id: u16, data: Seq<u8>) -> Seq<super::mux::EventView> {
    chunks(data).map_values(
        |piece: Seq<u8>| super::mux::EventView::Data { stream_id, data: piece },
    )
}

/// Joining the pieces gives the data back; none is too long, and none is empty unless
/// there is no data at all.
pub proof fn law_chunks_reassemble(data: Seq<u8>)
    ensures
        joined(chunks(data)) == data,
        forall|i: int|
            0 <= i < chunks(data).len() ==> (#[trigger] chunks(data)[i]).len() <= MAX_STREAM_CHUNK && (
            data.len() > 0 ==> chunks(data)[i].len() > 0),
    decreases data.len(),
{
    reveal_with_fuel(joined, 2);
    if data.len() > MAX_STREAM_CHUNK {
        let first = data.take(MAX_STREAM_CHUNK as int);
        let rest = data.skip(MAX_STREAM_CHUNK as int);
        law_chunks_reassemble(rest);
        assert(chunks(data).drop_first() =~= chunks(rest));
        assert(first + rest =~= data);
        assert forall|i: int| 0 <= i < chunks(data).len() implies (#[trigger] chunks(data)[i]).len()
            <= MAX_STREAM_CHUNK && chunks(data)[i].len() > 0 by {
            if i > 0 {
                assert(chunks(data)[i] == chunks(rest)[i - 1]);
            }
        }
    } else {
        assert(chunks(data).drop_first() =~= Seq::<Seq<u8>>::empty());
        assert(data + Seq::<u8>::empty() =~= data);
    }
}

/// Padding never makes a record too long: what fits without padding fits with it.
pub proof fn law_padding_fits(payload_len: int, target: int)
    requires
        0 <= payload_len,
        HEADER_LEN + payload_len <= MAX_PLAINTEXT,
    ensures
        HEADER_LEN + payload_len + fitting_pad(payload_len, target) <= MAX_PLAINTEXT,
        0 <= fitting_pad(payload_len, target) <= u16::MAX,
{
}

/// No key lasts longer than the interval: with one more frame, either fewer than the
/// interval were sent under this key and the limit of bytes was not reached, or a new one
/// is due, and then at most as many frames as the interval and no whole record beyond the
/// limit were sealed. Under the new key none is due.
pub proof fn law_key_lasts_an_interval(v: SendView, record_len: nat)
    requires
        !v.rekey_due(),
    ensures
        ({
            let w = v.with_record(record_len, false).counted();
            &&& w.sent == v.sent + 1 <= v.interval == w.interval
            &&& v.bytes < REKEY_BYTES
            &&& w.rekey_due() <==> v.sent + 1 == v.interval || v.bytes + record_len >= REKEY_BYTES
            &&& !w.rekeyed().rekey_due()
        }),
{
}

/// A frame goes out in one record. If that makes as many frames as the interval, or as
/// many bytes as the limit, one announcement follows, under the old key; once it was
/// sent, the sender has switched to the new key, under which nothing was sent yet, before
/// any further frame. Otherwise nothing follows and the key stays.
pub proof fn law_key_changes_in_time(
    v0: SendView,
    v1: SendView,
    v2: SendView,
    v3: SendView,
    t0: TransportView,
    t1: TransportView,
    t2: TransportView,
    t3: TransportView,
    f: FrameView,
    rec: Vec<u8>,
    next: Result<Option<Vec<u8>>, SessionError>,
    last: Result<Option<Vec<u8>>, SessionError>,
)
    requires
        !v0.rekey_due(),
        sealed_by(v0, v1, t0, t1, f, false, Ok(rec)),
        went_on(v1, v2, t1, t2, next),
        next matches Ok(Some(_)) ==> went_on(v2, v3, t2, t3, last),
    ensures
        t1 == t0.after_seal(),
        v0.sent + 1 < v0.interval && v0.bytes + rec@.len() < REKEY_BYTES ==> {
            &&& next matches Ok(None)
            &&& t2 == t1
            &&& v2.sent == v0.sent + 1
            &&& v2.bytes == v0.bytes + rec@.len()
            &&& !v2.rekey_due() && !v2.announced
        },
        v0.sent + 1 == v0.interval || v0.bytes + rec@.len() >= REKEY_BYTES ==> {
            &&& !(next matches Ok(None))
            &&& next matches Ok(Some(announcement)) ==> {
                &&& exists|pad: u16|
                    is_sealed_record(
                        t1,
                        #[trigger] frame::frame_bytes(rekey_frame(), pad as nat),
                        announcement@,
                    )
                &&& last matches Ok(None)
                &&& t3 == t1.after_seal().rekeyed_outgoing()
                &&& v3.sent == 0 && v3.bytes == 0
                &&& !v3.rekey_due() && !v3.announced
            }
        },
{
    let (_, pad) = choose|chosen: SendView, pad: u16|
        {
            &&& #[trigger] chose_pad(v0, chosen, f.payload.len() as int, pad)
            &&& sealed_frame(t0, t1, f, pad, Ok(rec))
            &&& v1 == chosen.with_record(rec@.len(), false)
        };
    assert(sealed_frame(t0, t1, f, pad, Ok(rec)));
    if next is Ok && next->Ok_0 is Some {
        let announcement = next->Ok_0->Some_0;
        let (_, pad) = choose|chosen: SendView, pad: u16|
            {
                &&& #[trigger] chose_pad(v1.counted(), chosen, 0, pad)
                &&& sealed_frame(t1, t2, rekey_frame(), pad, Ok(announcement))
                &&& v2 == chosen.with_record(announcement@.len(), true)
            };
        assert(sealed_frame(t1, t2, rekey_frame(), pad, Ok(announcement)));
        assert(is_sealed_record(
            t1,
            frame::frame_bytes(rekey_frame(), pad as nat),
            announcement@,
        ));
    }
}

/// A session begins: a server whose public key the client has can read its greeting
/// under the same token, the client can read the answer, and then each side receives
/// what the other sends.
pub proof fn law_session_begins(
    server_pub: Seq<u8>,
    server_priv: Seq<u8>,
    client_priv: Seq<u8>,
    auth: Seq<u8>,
    ini: HandshakeView,
    hello: Seq<u8>,
    server: TransportView,
    answer: Seq<u8>,
)
    requires
        server_priv.len() == 32,
        server_pub.len() == 32,
        server_pub == noise::x25519_public(server_priv),
        client_greeted(server_pub, client_priv, auth, ini, hello),
    ensures
        ({
            let msg1 = record::first_record(hello)->Some_0.0;
            let msg2 = record::first_record(answer)->Some_0.0;
            let client = noise::chains(
                HandshakeView {
                    remote_key: noise::noise_read(ini, msg2)->Some_0.1,
                    ..ini.with_message(msg2)
                },
            );
            &&& record::first_record(hello) == Some((msg1, hello.len()))
            &&& ini.messages.len() == 1
            &&& noise::noise_read(noise::fresh_responder(server_priv, auth), msg1) is Some
            &&& server_answered(server_priv, auth, msg1, server, answer) ==> {
                &&& record::first_record(answer) == Some((msg2, answer.len()))
                &&& noise::noise_read(ini, msg2) is Some
                &&& noise::in_step(client, server)
                &&& noise::in_step(server, client)
            }
        }),
{
    let none = Seq::<u8>::empty();
    assert(noise::fit32(server_pub) =~= server_pub);
    assert(noise::fit32(server_priv) =~= server_priv);
    let i0 = noise::fresh_initiator(server_pub, client_priv, auth);
    let r0 = noise::fresh_responder(server_priv, auth);
    let msg1 = choose|msg: Seq<u8>| #[trigger]
        noise::wrote(i0, ini, none, msg) && hello == record::record_bytes(msg);
    record::law_record_roundtrip(msg1, none, 0);
    assert(hello + none =~= hello);
    assert(ini.messages.drop_last() =~= r0.messages);
    assert(noise::is_meant_for(ini, r0));
    if server_answered(server_priv, auth, msg1, server, answer) {
        let (r1, msg2) = choose|mid: HandshakeView, msg2: Seq<u8>|
            {
                &&& #[trigger] noise::did_read(r0, mid, msg1, noise::noise_read(r0, msg1)->Some_0.0)
                &&& #[trigger] noise::wrote_last(mid, server, none, msg2)
                &&& answer == record::record_bytes(msg2)
            };
        let r2 = choose|post: HandshakeView| #[trigger]
            noise::wrote(r1, post, none, msg2) && server == noise::chains(post);
        noise::law_handshake(i0, ini, r0, r1, r2, none, msg1, none, msg2);
        record::law_record_roundtrip(msg2, none, 0);
        assert(answer + none =~= answer);
    }
}

/// A frame that was sent arrives: a receiver that is in step gets the frame, without
/// its padding, and both stay in step.
pub proof fn law_frame_arrives(
    sender: TransportView,
    receiver: TransportView,
    f: FrameView,
    pad: u16,
    rec: Seq<u8>,
)
    requires
        noise::in_step(sender, receiver),
        f.payload.len() <= frame::MAX_FIELD,
        sender.can_seal(frame::frame_bytes(f, pad as nat)),
        f.ftype != FrameType::Rekey,
        is_sealed_record(sender, frame::frame_bytes(f, pad as nat), rec),
    ensures
        ({
            let body = record::first_record(rec)->Some_0.0;
            let (frame, after) = received(receiver, body);
            &&& record::first_record(rec) is Some && record::first_record(rec)->Some_0.1 == rec.len()
            &&& receiver.opened(body) is Some
            &&& frame == Ok::<Option<FrameView>, FrameError>(Some(f))
            &&& noise::in_step(sender.after_seal(), after)
        }),
{
    let plaintext = frame::frame_bytes(f, pad as nat);
    let ct = choose|ct: Seq<u8>| #[trigger]
        noise::is_record(sender, plaintext, ct) && rec == record::record_bytes(ct);
    record::law_record_roundtrip(ct, Seq::<u8>::empty(), 0);
    assert(rec + Seq::<u8>::empty() =~= rec);
    noise::law_open_undoes_seal(sender, receiver, plaintext, ct);
    frame::law_frame_roundtrip(f, pad as nat);
}

/// A change of keys arrives: the receiver hands nothing on, and once the sender has
/// switched, both are in step under the new key.
pub proof fn law_rekey_arrives(
    sender: TransportView,
    receiver: TransportView,
    pad: u16,
    rec: Seq<u8>,
)
    requires
        noise::in_step(sender, receiver),
        sender.can_seal(frame::frame_bytes(rekey_frame(), pad as nat)),
        is_sealed_record(sender, frame::frame_bytes(rekey_frame(), pad as nat), rec),
    ensures
        ({
            let body = record::first_record(rec)->Some_0.0;
            let (frame, after) = received(receiver, body);
            &&& record::first_record(rec) is Some && record::first_record(rec)->Some_0.1 == rec.len()
            &&& receiver.opened(body) is Some
            &&& frame == Ok::<Option<FrameView>, FrameError>(None)
            &&& noise::in_step(sender.after_seal().rekeyed_outgoing(), after)
        }),
{
    let plaintext = frame::frame_bytes(rekey_frame(), pad as nat);
    let ct = choose|ct: Seq<u8>| #[trigger]
        noise::is_record(sender, plaintext, ct) && rec == record::record_bytes(ct);
    record::law_record_roundtrip(ct, Seq::<u8>::empty(), 0);
    assert(rec + Seq::<u8>::empty() =~= rec);
    noise::law_open_undoes_seal(sender, receiver, plaintext, ct);
    frame::law_frame_roundtrip(rekey_frame(), pad as nat);
}

/// What a sender sends: a frame, or the announcement of a new key and the switch to it.
pub enum Outgoing {
    Frame { frame: FrameView, pad: u16 },
    Rekey { pad: u16 },
}

impl Outgoing {
    /// The plaintext of the record.
    pub open spec fn plaintext(self) -> Seq<u8> {
        match self {
            Outgoing::Frame { frame, pad } => frame::frame_bytes(frame, pad as nat),
            Outgoing::Rekey { pad } => frame::frame_bytes(rekey_frame(), pad as nat),
        }
    }

    /// The sender behind it.
    pub open spec fn sender_after(self, sender: TransportView) -> TransportView {
        match self {
            Outgoing::Frame { frame, pad } => sender.after_seal(),
            Outgoing::Rekey { pad } => sender.after_seal().rekeyed_outgoing(),
        }
    }

    /// Whether it can be sent: a frame that announces a new key comes with the switch.
    pub open spec fn sendable(self, sender: TransportView) -> bool {
        &&& sender.can_seal(self.plaintext())
        &&& self matches Outgoing::Frame { frame, pad } ==> frame.ftype != FrameType::Rekey
            && frame.payload.len() <= frame::MAX_FIELD
    }
}

/// Whether a sender sent all this in these records.
pub open spec fn went_out(
    sender: TransportView,
    items: Seq<Outgoing>,
    records: Seq<Seq<u8>>,
) -> bool
    decreases items.len(),
{
    &&& records.len() == items.len()
    &&& items.len() > 0 ==> {
        &&& items[0].sendable(sender)
        &&& is_sealed_record(sender, items[0].plaintext(), records[0])
        &&& went_out(items[0].sender_after(sender), items.drop_first(), records.drop_first())
    }
}

/// The frames among them.
pub open spec fn frames_of(items: Seq<Outgoing>) -> Seq<FrameView>
    decreases items.len(),
{
    if items.len() == 0 {
        Seq::<FrameView>::empty()
    } else {
        match items[0] {
            Outgoing::Frame { frame, pad } => seq![frame] + frames_of(items.drop_first()),
            Outgoing::Rekey { pad } => frames_of(items.drop_first()),
        }
    }
}

/// The frames that a receiver hands on out of these records, nothing if one of them is
/// refused.
pub open spec fn came_in(receiver: TransportView, records: Seq<Seq<u8>>) -> Option<Seq<FrameView>>
    decreases records.len(),
{
    if records.len() == 0 {
        Some(Seq::<FrameView>::empty())
    } else {
        let body = record::first_record(records[0])->Some_0.0;
        let (frame, after) = received(receiver, body);
        let rest = came_in(after, records.drop_first());
        if record::first_record(records[0]) is None || receiver.opened(body) is None || rest is None {
            None
        } else {
            match frame {
                Err(_) => None,
                Ok(None) => rest,
                Ok(Some(f)) => Some(seq![f] + rest->Some_0),
            }
        }
    }
}

/// A session delivers: however many frames are sent, and however often the key changes
/// in between, a receiver that was in step hands on exactly these frames in order.
pub proof fn law_session_delivers(
    sender: TransportView,
    receiver: TransportView,
    items: Seq<Outgoing>,
    records: Seq<Seq<u8>>,
)
    requires
        noise::in_step(sender, receiver),
        went_out(sender, items, records),
    ensures
        came_in(receiver, records) == Some(frames_of(items)),
    decreases items.len(),
{
    if items.len() > 0 {
        let body = record::first_record(records[0])->Some_0.0;
        let (_, after) = received(receiver, body);
        match items[0] {
            Outgoing::Frame { frame, pad } => {
                law_frame_arrives(sender, receiver, frame, pad, records[0]);
            },
            Outgoing::Rekey { pad } => {
                law_rekey_arrives(sender, receiver, pad, records[0]);
            },
        }
        law_session_delivers(
            items[0].sender_after(sender),
            after,
            items.drop_first(),
            records.drop_first(),
        );
    }
}

/// The data of a stream that frames carry, in a row; other frames count as nothing.
pub open spec fn stream_data(stream_id: u16, frames: Seq<FrameView>) -> Seq<u8>
    decreases frames.len(),
{
    if frames.len() == 0 {
        Seq::<u8>::empty()
    } else {
        let rest = stream_data(stream_id, frames.drop_first());
        match super::mux::parse_event(frames[0]) {
            Ok(super::mux::EventView::Data { stream_id: id, data }) => if id == stream_id {
                data + rest
            } else {
                rest
            },
            _ => rest,
        }
    }
}

/// The frames in which the pieces of a stream's data are sent.
pub open spec fn piece_frames(stream_id: u16, pieces: Seq<Seq<u8>>) -> Seq<FrameView> {
    pieces.map_values(
        |p: Seq<u8>|
            super::mux::event_frame(super::mux::EventView::Data { stream_id, data: p }),
    )
}

/// A stream arrives whole: cut into pieces, sent frame by frame with any changes of the
/// key in between, and put together again, data is what it was.
pub proof fn law_stream_arrives(
    sender: TransportView,
    receiver: TransportView,
    stream_id: u16,
    data: Seq<u8>,
    items: Seq<Outgoing>,
    records: Seq<Seq<u8>>,
)
    requires
        noise::in_step(sender, receiver),
        went_out(sender, items, records),
        frames_of(items) == piece_frames(stream_id, chunks(data)),
    ensures
        came_in(receiver, records) matches Some(frames) && stream_data(stream_id, frames) == data,
{
    law_session_delivers(sender, receiver, items, records);
    lemma_pieces_carry(stream_id, chunks(data));
    law_chunks_reassemble(data);
}

proof fn lemma_pieces_carry(stream_id: u16, pieces: Seq<Seq<u8>>)
    ensures
        stream_data(stream_id, piece_frames(stream_id, pieces)) == joined(pieces),
    decreases pieces.len(),
{
    if pieces.len() > 0 {
        let frames = piece_frames(stream_id, pieces);
        super::mux::law_event_roundtrip(
            super::mux::EventView::Data { stream_id, data: pieces[0] },
        );
        assert(frames.drop_first() =~= piece_frames(stream_id, pieces.drop_first()));
        lemma_pieces_carry(stream_id, pieces.drop_first());
    }
}

/// Padding brings a frame to its target: header, payload and padding are together as long as
/// the target wherever that is neither less than header and payload nor more than a record
/// can hold. Beyond what a record can hold they fill it, and where header and payload are
/// longer than either there is no padding.
pub proof fn law_padding_reaches_target(payload_len: int, target: int)
    requires
        0 <= payload_len,
    ensures
        5 + payload_len <= target <= 65519 ==> 5 + payload_len + fitting_pad(payload_len, target)
            == target,
        5 + payload_len <= 65519 <= target ==> 5 + payload_len + fitting_pad(payload_len, target)
            == 65519,
        5 + payload_len >= target || 5 + payload_len >= 65519 ==> fitting_pad(payload_len, target)
            == 0,
{
}

/// A frame goes out as long as the sampler says: with a sampler, header, payload and padding
/// are together as long as a length that it drew, from the class that it is then in, unless
/// they were longer without padding or the length is more than a record can hold. Without a
/// sampler there is no padding. Nothing but the sampler and its generator changes.
pub proof fn law_frame_has_drawn_length(
    pre: SendView,
    post: SendView,
    payload_len: int,
    pad: u16,
)
    requires
        0 <= payload_len,
        chose_pad(pre, post, payload_len, pad),
    ensures
        pre.sampler is None ==> pad == 0 && post == pre,
        pre.sampler matches Some(s) ==> {
            &&& post.sampler is Some
            &&& exists|target: usize| #[trigger]
                sampler::sampled(s, post.sampler->Some_0, pre.rng, post.rng, target) && (5
                    + payload_len <= target <= 65519 ==> 5 + payload_len + pad == target) && (
                target < 5 + payload_len ==> pad == 0)
        },
        post.interval == pre.interval && post.sent == pre.sent && post.bytes == pre.bytes
            && post.announced == pre.announced,
{
    if pre.sampler is Some {
        let s = pre.sampler->Some_0;
        let target = choose|target: usize|
            {
                &&& post.sampler is Some
                &&& post == (SendView { sampler: post.sampler, rng: post.rng, ..pre })
                &&& #[trigger] sampler::sampled(s, post.sampler->Some_0, pre.rng, post.rng, target)
                &&& pad == fitting_pad(payload_len, target as int)
            };
        law_padding_reaches_target(payload_len, target as int);
        assert(sampler::sampled(s, post.sampler->Some_0, pre.rng, post.rng, target));
    }
}

/// Which frames can be sealed, and how long their records are: the payload must have a 16-bit
/// length, the plaintext must fit a record, and record numbers must be left. A record is two
/// bytes for its length, five for the header, the payload, the padding and sixteen for the
/// tag.
pub proof fn law_sealing(
    pre: TransportView,
    post: TransportView,
    f: FrameView,
    pad: u16,
    r: Result<Vec<u8>, SessionError>,
)
    requires
        sealed_frame(pre, post, f, pad, r),
    ensures
        r is Ok <==> 5 + f.payload.len() + pad <= 65519 && pre.sent != u64::MAX,
        r matches Ok(rec) ==> rec@.len() == 2 + 5 + f.payload.len() + pad + 16,
        r is Ok ==> post == (TransportView { sent: pre.sent + 1, ..pre }),
        r is Err ==> post == pre,
        f.payload.len() > 65535 ==> (r matches Err(
            SessionError::Frame(FrameError::PayloadTooLarge(n)),
        ) && n == f.payload.len()),
        f.payload.len() <= 65535 && 5 + f.payload.len() + pad > 65519 ==> (r matches Err(
            SessionError::Noise(NoiseError::PlaintextTooLarge(n)),
        ) && n == 5 + f.payload.len() + pad),
{
    if f.payload.len() <= frame::MAX_FIELD {
        frame::law_frame_roundtrip(f, pad as nat);
    }
    if r is Ok {
        let rec = r->Ok_0;
        let plaintext = frame::frame_bytes(f, pad as nat);
        let ct = choose|ct: Seq<u8>| #[trigger]
            noise::is_record(pre, plaintext, ct) && rec@ == record::record_bytes(ct);
        record::law_record_layout(ct);
    }
}

/// What a sending half counts: frames by one, records by their length, both as far as the
/// counts go; a new key starts both over. Nothing else changes by it.
pub proof fn law_sending_half_counts(v: SendView, len: nat, announces: bool, frames: u64)
    ensures
        v.sent < u64::MAX ==> v.counted() == (SendView { sent: (v.sent + 1) as u64, ..v }),
        v.sent == u64::MAX ==> v.counted() == v,
        v.bytes + len <= u64::MAX ==> v.with_record(len, announces) == (SendView {
            bytes: (v.bytes + len) as u64,
            announced: announces,
            ..v
        }),
        v.bytes + len > u64::MAX ==> v.with_record(len, announces).bytes == u64::MAX,
        v.rekeyed() == (SendView { sent: 0, bytes: 0, announced: false, ..v }),
        v.rekey_due() <==> v.sent >= v.interval || v.bytes >= 0x4_0000_0000,
        frames >= 1 ==> v.with_interval(frames) == (SendView { interval: frames, ..v }),
        v.with_interval(0) == (SendView { interval: 1, ..v }),
        DEFAULT_REKEY_FRAMES == 0x10_0000,
        REKEY_BYTES == 0x4_0000_0000,
{
}

/// Pieces are as few as they can be: all but the last are full, of 16384 bytes.
pub proof fn law_chunks_are_full(data: Seq<u8>)
    ensures
        chunks(data).len() > 0,
        forall|i: int| 0 <= i < chunks(data).len() - 1 ==> (#[trigger] chunks(data)[i]).len() == 16384,
        data.len() > 0 ==> 16384 * (chunks(data).len() - 1) < data.len() <= 16384 * chunks(data).len(),
        data.len() == 0 ==> chunks(data).len() == 1,
        MAX_STREAM_CHUNK == 16384,
    decreases data.len(),
{
    if data.len() > MAX_STREAM_CHUNK {
        let rest = data.skip(MAX_STREAM_CHUNK as int);
        law_chunks_are_full(rest);
        assert forall|i: int| 0 <= i < chunks(data).len() - 1 implies (#[trigger] chunks(
            data,
        )[i]).len() == 16384 by {
            if i > 0 {
                assert(chunks(data)[i] == chunks(rest)[i - 1]);
            }
        }
    }
}

/// The announcement of a new key is a frame of its own type without a payload. A receiver that
/// opens it hands nothing on and switches; any other frame is handed on as it is.
pub proof fn law_receiving(t: TransportView, ct: Seq<u8>)
    requires
        t.opened(ct) is Some,
    ensures
        rekey_frame().ftype == FrameType::Rekey && rekey_frame().payload.len() == 0,
        match frame::parse_frame(t.opened(ct)->Some_0) {
            Err(e) => received(t, ct) == (
                Err::<Option<FrameView>, FrameError>(e),
                TransportView { received: t.received + 1, ..t },
            ),
            Ok(f) => if f.ftype == FrameType::Rekey {
                &&& received(t, ct).0 == Ok::<Option<FrameView>, FrameError>(None)
                &&& received(t, ct).1.recv_key == noise::next_key(t.recv_key)
                &&& received(t, ct).1.received == t.received + 1
                &&& received(t, ct).1.send_key == t.send_key && received(t, ct).1.sent == t.sent
            } else {
                received(t, ct) == (
                    Ok::<Option<FrameView>, FrameError>(Some(f)),
                    TransportView { received: t.received + 1, ..t },
                )
            },
        },
{
}

/// A sending half begins with nothing sent under its key, an interval of 2 to the 20th frames,
/// and the sampler and the generator that it was given.
pub proof fn law_sending_half_begins(sampler: Option<LenSampler>, rng: StdRng)
    ensures
        ({
            let v = fresh_half(sampler, rng);
            &&& v.sampler == sampler && v.rng == rng
            &&& v.interval == 0x10_0000 && v.sent == 0 && v.bytes == 0
            &&& !v.announced && !v.rekey_due()
        }),
{
}

/// The events of a stream's data carry it under the stream's number, piece by piece, and their
/// frames put together are the data.
pub proof fn law_events_carry_data(stream_id: u16, data: Seq<u8>)
    ensures
        ({
            let frames = data_events(stream_id, data).map_values(
                |ev: super::mux::EventView| super::mux::event_frame(ev),
            );
            &&& stream_data(stream_id, frames) == data
            &&& forall|i: int|
                0 <= i < data_events(stream_id, data).len() ==> (#[trigger] data_events(
                    stream_id,
                    data,
                )[i] matches super::mux::EventView::Data { stream_id: id, data: piece } && id
                    == stream_id && piece.len() <= 16384)
        }),
{
    let frames = data_events(stream_id, data).map_values(
        |ev: super::mux::EventView| super::mux::event_frame(ev),
    );
    assert(frames =~= piece_frames(stream_id, chunks(data)));
    lemma_pieces_carry(stream_id, chunks(data));
    law_chunks_reassemble(data);
    assert forall|i: int| 0 <= i < data_events(stream_id, data).len() implies (
    #[trigger] data_events(stream_id, data)[i] matches super::mux::EventView::Data {
        stream_id: id,
        data: piece,
    } && id == stream_id && piece.len() <= 16384) by {
        assert(chunks(data)[i].len() <= MAX_STREAM_CHUNK);
    }
}

} // verus!
