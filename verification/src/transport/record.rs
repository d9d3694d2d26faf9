//! Records on a byte stream: a 16-bit length and the body.

use crate::wire::octets;
use vstd::prelude::*;

verus! {

/// The longest body of a record.
pub const MAX_RECORD: usize = 65535;

/// The body is too long for a record: its length.
#[derive(Debug, Clone, Copy, PartialEq, Eq, Structural)]
pub struct RecordTooLong(pub usize);

/// The bytes of a record.
pub open spec fn record_bytes(body: Seq<u8>) -> Seq<u8> {
    octets::be16(body.len() as int) + body
}

/// Writes a record.
pub fn encode_record(body: &[u8]) -> (r: Result<Vec<u8>, RecordTooLong>)
    ensures
        match r {
            Ok(bytes) => body@.len() <= MAX_RECORD && bytes@ == record_bytes(body@),
            Err(e) => body@.len() > MAX_RECORD && e == RecordTooLong(body@.len() as usize),
        },
{
    if body.len() > MAX_RECORD {
        return Err(RecordTooLong(body.len()));
    }
    let mut bytes: Vec<u8> = Vec::new();
    octets::put_u16(&mut bytes, body.len() as u16);
    octets::put_bytes(&mut bytes, body);
    assert(bytes@ =~= record_bytes(body@));
    Ok(bytes)
}

/// How long the body is that follows this prefix.
pub fn body_len(prefix: [u8; 2]) -> (n: usize)
    ensures
        n == octets::be16_value(prefix@[0], prefix@[1]),
        n <= MAX_RECORD,
{
    octets::get_u16(prefix[0], prefix[1]) as usize
}

/// The first record of a buffer and how many bytes it takes; nothing while the buffer
/// holds only a part of it.
pub open spec fn first_record(buf: Seq<u8>) -> Option<(Seq<u8>, nat)> {
    if buf.len() < 2 {
        None
    } else {
        let n = octets::be16_value(buf[0], buf[1]);
        if buf.len() < 2 + n {
            None
        } else {
            Some((buf.subrange(2, 2 + n), (2 + n) as nat))
        }
    }
}

/// Takes the first record out of a buffer.
pub fn decode_record(buf: &[u8]) -> (r: Option<(Vec<u8>, usize)>)
    ensures
        match r {
            Some((body, used)) => first_record(buf@) == Some((body@, used as nat)),
            None => first_record(buf@) is None,
        },
{
    if buf.len() < 2 {
        return None;
    }
    let n: usize = body_len([buf[0], buf[1]]);
    if buf.len() - 2 < n {
        return None;
    }
    Some((octets::copy_range(buf, 2, 2 + n), 2 + n))
}

/// Whatever follows it, a record that was written is read back whole, and no part of
/// it is read as a record.
pub proof fn law_record_roundtrip(body: Seq<u8>, rest: Seq<u8>, cut: int)
    requires
        body.len() <= MAX_RECORD,
    ensures
        first_record(record_bytes(body) + rest) == Some((body, record_bytes(body).len())),
        0 <= cut < record_bytes(body).len() ==> first_record(record_bytes(body).take(cut)) is None,
{
    let buf = record_bytes(body) + rest;
    octets::lemma_be16_value(body.len() as int);
    assert(buf[0] == octets::be16(body.len() as int)[0]);
    assert(buf[1] == octets::be16(body.len() as int)[1]);
    assert(buf.subrange(2, 2 + body.len() as int) =~= body);
    if 2 <= cut < record_bytes(body).len() {
        let part = record_bytes(body).take(cut);
        assert(part[0] == octets::be16(body.len() as int)[0]);
        assert(part[1] == octets::be16(body.len() as int)[1]);
    }
}

/// Where the parts of a record stand: its length with the high byte first, and the body.
pub proof fn law_record_layout(body: Seq<u8>)
    requires
        body.len() <= 65535,
    ensures
        record_bytes(body).len() == 2 + body.len(),
        256 * record_bytes(body)[0] + record_bytes(body)[1] == body.len(),
        record_bytes(body).skip(2) == body,
        MAX_RECORD == 0xffff,
{
    octets::law_big_endian(body.len() as int, 0, 0);
    assert(record_bytes(body).skip(2) =~= body);
}

/// A buffer yields a record as soon as it holds the two bytes of the length and as many more
/// as they say, and then exactly those; before that it yields nothing.
pub proof fn law_record_verdict(buf: Seq<u8>)
    ensures
        first_record(buf) is Some <==> buf.len() >= 2 && buf.len() >= 2 + 256 * buf[0] + buf[1],
        first_record(buf) matches Some((body, used)) ==> used == 2 + 256 * buf[0] + buf[1] && body
            == buf.subrange(2, used as int),
{
}

} // verus!
