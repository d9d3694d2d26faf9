//! Frames of the end-to-end layer, in plaintext.
//!
//! ```text
//! +--------+------------+----------+---------------+-------------+
//! |  1 B   |    2 B     |   2 B    |  payloadLen B |   padLen B  |
//! +--------+------------+----------+---------------+-------------+
//! |  type  | payloadLen |  padLen  |    payload    |   padding   |
//! +--------+------------+----------+---------------+-------------+
//! ```
//!
//! Both lengths end up inside the ciphertext: an observer sees only how long the
//! sealed record is. The padding is zero bytes and carries nothing.

use super::octets;
use vstd::prelude::*;

verus! {

/// Length of the fixed header: type, payload length, padding length.
pub const HEADER_LEN: usize = 5;

/// What sealing adds to a plaintext (the AEAD tag).
pub const AEAD_TAG_LEN: usize = 16;

/// The length prefix of a record on the stream.
pub const RECORD_LEN_PREFIX: usize = 2;

/// The largest payload and the largest padding, each a 16-bit length.
pub const MAX_FIELD: usize = 65535;

/// What a frame is for: the first byte of its header.
#[derive(Debug, Clone, Copy, PartialEq, Eq, Structural)]
pub enum FrameType {
    /// Data of a logical stream.
    StreamData,
    /// Opens a logical stream.
    StreamOpen,
    /// Closes a logical stream.
    StreamClose,
    /// Keeps an idle session alive; carries padding only.
    KeepAlive,
    /// The sender switches to its next key after this frame.
    Rekey,
    /// The address of a stream (see `address`).
    Address,
}

/// Why a frame could not be written or read.
#[derive(Debug, Clone, Copy, PartialEq, Eq)]
pub enum FrameError {
    /// The buffer is shorter than a header.
    TooShort(usize),
    /// The type byte stands for no frame type.
    BadType(u8),
    /// The header declares another length than the buffer has.
    LengthMismatch { declared: usize, actual: usize },
    /// The payload is longer than `MAX_FIELD`.
    PayloadTooLarge(usize),
    /// The padding is longer than `MAX_FIELD`.
    PadTooLarge(usize),
}

/// A frame; `payload` is without padding.
#[derive(Debug, Clone, PartialEq, Eq)]
pub struct Frame {
    pub ftype: FrameType,
    pub payload: Vec<u8>,
}

/// What a frame says.
pub struct FrameView {
    pub ftype: FrameType,
    pub payload: Seq<u8>,
}

impl View for Frame {
    type V = FrameView;

    open spec fn view(&self) -> FrameView {
        FrameView { ftype: self.ftype, payload: self.payload@ }
    }
}

/// The byte that stands for a frame type.
pub open spec fn type_code(t: FrameType) -> u8 {
    match t {
        FrameType::StreamData => 1,
        FrameType::StreamOpen => 2,
        FrameType::StreamClose => 3,
        FrameType::KeepAlive => 4,
        FrameType::Rekey => 5,
        FrameType::Address => 6,
    }
}

/// The frame type that a byte stands for.
pub open spec fn type_of_code(v: u8) -> Option<FrameType> {
    if v == 1 {
        Some(FrameType::StreamData)
    } else if v == 2 {
        Some(FrameType::StreamOpen)
    } else if v == 3 {
        Some(FrameType::StreamClose)
    } else if v == 4 {
        Some(FrameType::KeepAlive)
    } else if v == 5 {
        Some(FrameType::Rekey)
    } else if v == 6 {
        Some(FrameType::Address)
    } else {
        None
    }
}

/// The plaintext of a frame with `pad` bytes of padding.
pub open spec fn frame_bytes(f: FrameView, pad: nat) -> Seq<u8> {
    seq![type_code(f.ftype)] + octets::be16(f.payload.len() as int) + octets::be16(pad as int)
        + f.payload + octets::zeros(pad)
}

/// What the plaintext `buf` holds: a frame, or the reason why it is none.
pub open spec fn parse_frame(buf: Seq<u8>) -> Result<FrameView, FrameError> {
    if buf.len() < HEADER_LEN {
        Err(FrameError::TooShort(buf.len() as usize))
    } else {
        match type_of_code(buf[0]) {
            None => Err(FrameError::BadType(buf[0])),
            Some(ftype) => {
                let payload_len = octets::be16_value(buf[1], buf[2]);
                let pad_len = octets::be16_value(buf[3], buf[4]);
                let declared = HEADER_LEN + payload_len + pad_len;
                if declared != buf.len() {
                    Err(
                        FrameError::LengthMismatch {
                            declared: declared as usize,
                            actual: buf.len() as usize,
                        },
                    )
                } else {
                    Ok(
                        FrameView {
                            ftype,
                            payload: buf.subrange(HEADER_LEN as int, HEADER_LEN + payload_len),
                        },
                    )
                }
            },
        }
    }
}

/// The outcome of reading a frame, as `parse_frame` states it.
pub open spec fn read_view(r: Result<Frame, FrameError>) -> Result<FrameView, FrameError> {
    match r {
        Ok(f) => Ok(f@),
        Err(e) => Err(e),
    }
}

impl FrameType {
    /// The type byte.
    pub fn to_u8(self) -> (v: u8)
        ensures
            v == type_code(self),
    {
        match self {
            FrameType::StreamData => 1,
            FrameType::StreamOpen => 2,
            FrameType::StreamClose => 3,
            FrameType::KeepAlive => 4,
            FrameType::Rekey => 5,
            FrameType::Address => 6,
        }
    }

    /// Reads a type byte.
    pub fn from_u8(v: u8) -> (t: Option<Self>)
        ensures
            t == type_of_code(v),
    {
        match v {
            1 => Some(FrameType::StreamData),
            2 => Some(FrameType::StreamOpen),
            3 => Some(FrameType::StreamClose),
            4 => Some(FrameType::KeepAlive),
            5 => Some(FrameType::Rekey),
            6 => Some(FrameType::Address),
            _ => None,
        }
    }
}

impl Frame {
    /// A frame that carries `payload`.
    pub fn new(ftype: FrameType, payload: Vec<u8>) -> (f: Self)
        ensures
            f == (Frame { ftype, payload }),
    {
        Frame { ftype, payload }
    }

    /// A frame that carries nothing, for padding alone.
    pub fn keepalive() -> (f: Self)
        ensures
            f@ == (FrameView { ftype: FrameType::KeepAlive, payload: Seq::<u8>::empty() }),
    {
        Frame { ftype: FrameType::KeepAlive, payload: Vec::new() }
    }

    /// Writes the frame with `pad_len` bytes of padding.
    pub fn encode(&self, pad_len: u16) -> (r: Result<Vec<u8>, FrameError>)
        ensures
            self.payload@.len() <= MAX_FIELD ==> r is Ok && r->Ok_0@ == frame_bytes(
                self@,
                pad_len as nat,
            ),
            self.payload@.len() > MAX_FIELD ==> r == Err::<Vec<u8>, FrameError>(
                FrameError::PayloadTooLarge(self.payload@.len() as usize),
            ),
    {
        if self.payload.len() > MAX_FIELD {
            return Err(FrameError::PayloadTooLarge(self.payload.len()));
        }
        let mut buf: Vec<u8> = Vec::new();
        buf.push(self.ftype.to_u8());
        octets::put_u16(&mut buf, self.payload.len() as u16);
        octets::put_u16(&mut buf, pad_len);
        octets::put_bytes(&mut buf, self.payload.as_slice());
        octets::put_zeros(&mut buf, pad_len as usize);
        assert(buf@ =~= frame_bytes(self@, pad_len as nat));
        Ok(buf)
    }

    /// Reads a frame. The buffer holds exactly one: its length must be the one that
    /// the header declares.
    pub fn decode(buf: &[u8]) -> (r: Result<Frame, FrameError>)
        ensures
            read_view(r) == parse_frame(buf@),
    {
        if buf.len() < HEADER_LEN {
            return Err(FrameError::TooShort(buf.len()));
        }
        let ftype = match FrameType::from_u8(buf[0]) {
            Some(t) => t,
            None => return Err(FrameError::BadType(buf[0])),
        };
        let payload_len: usize = octets::get_u16(buf[1], buf[2]) as usize;
        let pad_len: usize = octets::get_u16(buf[3], buf[4]) as usize;
        let declared: usize = HEADER_LEN + payload_len + pad_len;
        if declared != buf.len() {
            return Err(FrameError::LengthMismatch { declared, actual: buf.len() });
        }
        let payload = octets::copy_range(buf, HEADER_LEN, HEADER_LEN + payload_len);
        Ok(Frame { ftype, payload })
    }

    /// How long the plaintext is.
    pub fn plaintext_len(payload_len: usize, pad_len: usize) -> (n: usize)
        requires
            HEADER_LEN + payload_len + pad_len <= usize::MAX,
        ensures
            n == HEADER_LEN + payload_len + pad_len,
    {
        HEADER_LEN + payload_len + pad_len
    }

    /// How long the sealed record is on the wire: length prefix, ciphertext, tag.
    pub fn wire_len(payload_len: usize, pad_len: usize) -> (n: usize)
        requires
            RECORD_LEN_PREFIX + HEADER_LEN + payload_len + pad_len + AEAD_TAG_LEN <= usize::MAX,
        ensures
            n == RECORD_LEN_PREFIX + HEADER_LEN + payload_len + pad_len + AEAD_TAG_LEN,
    {
        RECORD_LEN_PREFIX + Self::plaintext_len(payload_len, pad_len) + AEAD_TAG_LEN
    }
}

/// Reading gives back what was written, whatever the padding.
pub proof fn law_frame_roundtrip(f: FrameView, pad: nat)
    requires
        f.payload.len() <= MAX_FIELD,
        pad <= MAX_FIELD,
    ensures
        parse_frame(frame_bytes(f, pad)) == Ok::<FrameView, FrameError>(f),
        frame_bytes(f, pad).len() == HEADER_LEN + f.payload.len() + pad,
{
    let buf = frame_bytes(f, pad);
    let n = f.payload.len() as int;
    octets::lemma_be16_value(n);
    octets::lemma_be16_value(pad as int);
    assert(buf[0] == type_code(f.ftype));
    assert(buf[1] == octets::be16(n)[0] && buf[2] == octets::be16(n)[1]);
    assert(buf[3] == octets::be16(pad as int)[0] && buf[4] == octets::be16(pad as int)[1]);
    assert(buf.subrange(5, 5 + n) =~= f.payload);
}

/// A buffer that reads as a frame is that frame's header, its payload and as many
/// bytes of padding as the header declares.
pub proof fn law_frame_read_is_written(buf: Seq<u8>)
    requires
        parse_frame(buf) is Ok,
    ensures
        ({
            let f = parse_frame(buf)->Ok_0;
            let pad = octets::be16_value(buf[3], buf[4]);
            &&& 0 <= pad <= MAX_FIELD
            &&& f.payload.len() <= MAX_FIELD
            &&& buf.len() == frame_bytes(f, pad as nat).len()
            &&& buf.subrange(0, buf.len() - pad) == frame_bytes(f, pad as nat).subrange(
                0,
                buf.len() - pad,
            )
        }),
{
    let f = parse_frame(buf)->Ok_0;
    let n = octets::be16_value(buf[1], buf[2]);
    let pad = octets::be16_value(buf[3], buf[4]);
    octets::lemma_be16_bytes(buf[1], buf[2]);
    octets::lemma_be16_bytes(buf[3], buf[4]);
    let w = frame_bytes(f, pad as nat);
    assert(f.payload.len() == n);
    assert(octets::be16(n)[0] == buf[1] && octets::be16(n)[1] == buf[2]);
    assert(octets::be16(pad)[0] == buf[3] && octets::be16(pad)[1] == buf[4]);
    assert(buf.subrange(0, buf.len() - pad) =~= w.subrange(0, buf.len() - pad));
}

/// A type is written as its number: data 1, open 2, close 3, sign of life 4, new key 5,
/// address 6. Reading a number gives the type back, and no other number stands for one.
pub proof fn law_type_numbers(t: FrameType, v: u8)
    ensures
        t == FrameType::StreamData <==> type_code(t) == 1,
        t == FrameType::StreamOpen <==> type_code(t) == 2,
        t == FrameType::StreamClose <==> type_code(t) == 3,
        t == FrameType::KeepAlive <==> type_code(t) == 4,
        t == FrameType::Rekey <==> type_code(t) == 5,
        t == FrameType::Address <==> type_code(t) == 6,
        type_of_code(v) == Some(t) <==> v == type_code(t),
        type_of_code(v) is Some <==> 1 <= v <= 6,
{
}

/// Where each field of a frame stands: the type, two lengths with the high byte first, the
/// payload, and zeros up to the end.
pub proof fn law_frame_layout(f: FrameView, pad: nat)
    requires
        f.payload.len() <= 65535,
        pad <= 65535,
    ensures
        ({
            let b = frame_bytes(f, pad);
            let n = f.payload.len();
            &&& b.len() == 5 + n + pad
            &&& b[0] == type_code(f.ftype)
            &&& 256 * b[1] + b[2] == n
            &&& 256 * b[3] + b[4] == pad
            &&& forall|i: int| 0 <= i < n ==> #[trigger] b[5 + i] == f.payload[i]
            &&& forall|i: int| 5 + n <= i < b.len() ==> #[trigger] b[i] == 0
        }),
{
    octets::law_big_endian(f.payload.len() as int, 0, 0);
    octets::law_big_endian(pad as int, 0, 0);
}

/// What is read as a frame, and what each other buffer is refused for: one shorter than
/// five bytes, one with an unknown type, and one that is not as long as its two lengths say
/// are refused for that, the first reason first.
pub proof fn law_frame_verdict(buf: Seq<u8>)
    requires
        buf.len() <= usize::MAX,
    ensures
        buf.len() < 5 <==> (parse_frame(buf) matches Err(FrameError::TooShort(n)) && n
            == buf.len()),
        buf.len() >= 5 && !(1 <= buf[0] <= 6) <==> (parse_frame(buf) matches Err(
            FrameError::BadType(v),
        ) && v == buf[0]),
        buf.len() >= 5 && 1 <= buf[0] <= 6 ==> {
            let n = 256 * buf[1] + buf[2];
            let m = 256 * buf[3] + buf[4];
            if buf.len() == 5 + n + m {
                parse_frame(buf) matches Ok(f) && type_code(f.ftype) == buf[0] && f.payload
                    == buf.subrange(5, 5 + n)
            } else {
                parse_frame(buf) matches Err(FrameError::LengthMismatch { declared, actual })
                    && declared == 5 + n + m && actual == buf.len()
            }
        },
{
}

/// The lengths that frames and records go by.
pub proof fn law_frame_lengths()
    ensures
        HEADER_LEN == 1 + 2 + 2,
        RECORD_LEN_PREFIX == 2,
        AEAD_TAG_LEN == 16,
        MAX_FIELD == 0xffff,
{
}

} // verus!
