//! Byte sequences: big-endian integers and copies whose contents are known.

use vstd::prelude::*;

verus! {

/// The two bytes of `x`, most significant first.
pub open spec fn be16(x: int) -> Seq<u8> {
    seq![(x / 256) as u8, (x % 256) as u8]
}

/// The number that two big-endian bytes stand for.
pub open spec fn be16_value(hi: u8, lo: u8) -> int {
    hi * 256 + lo
}

/// The eight bytes of `x`, least significant first.
pub open spec fn le64(x: int) -> Seq<u8> {
    seq![
        (x % 0x100) as u8,
        (x / 0x100 % 0x100) as u8,
        (x / 0x1_0000 % 0x100) as u8,
        (x / 0x100_0000 % 0x100) as u8,
        (x / 0x1_0000_0000 % 0x100) as u8,
        (x / 0x100_0000_0000 % 0x100) as u8,
        (x / 0x1_0000_0000_0000 % 0x100) as u8,
        (x / 0x100_0000_0000_0000 % 0x100) as u8,
    ]
}

/// `count` zero bytes.
pub open spec fn zeros(count: nat) -> Seq<u8> {
    Seq::new(count, |i: int| 0u8)
}

/// Every byte that `be16` yields is the byte that `be16_value` reads back.
pub proof fn lemma_be16_value(x: int)
    requires
        0 <= x <= 0xffff,
    ensures
        be16(x).len() == 2,
        be16_value(be16(x)[0], be16(x)[1]) == x,
{
}

/// Two bytes are the big-endian form of the number that they stand for.
pub proof fn lemma_be16_bytes(hi: u8, lo: u8)
    ensures
        be16(be16_value(hi, lo)) == seq![hi, lo],
{
    let x = be16_value(hi, lo);
    assert(x / 256 == hi && x % 256 == lo);
}

/// Appends the big-endian form of `x`.
pub fn put_u16(buf: &mut Vec<u8>, x: u16)
    ensures
        final(buf)@ == old(buf)@ + be16(x as int),
{
    buf.push((x / 256) as u8);
    buf.push((x % 256) as u8);
    assert(buf@ =~= old(buf)@ + be16(x as int));
}

/// Appends the little-endian form of `x`.
pub fn put_u64_le(buf: &mut Vec<u8>, x: u64)
    ensures
        final(buf)@ == old(buf)@ + le64(x as int),
{
    buf.push((x % 0x100) as u8);
    buf.push((x / 0x100 % 0x100) as u8);
    buf.push((x / 0x1_0000 % 0x100) as u8);
    buf.push((x / 0x100_0000 % 0x100) as u8);
    buf.push((x / 0x1_0000_0000 % 0x100) as u8);
    buf.push((x / 0x100_0000_0000 % 0x100) as u8);
    buf.push((x / 0x1_0000_0000_0000 % 0x100) as u8);
    buf.push((x / 0x100_0000_0000_0000 % 0x100) as u8);
    assert(buf@ =~= old(buf)@ + le64(x as int));
}

/// Reads a big-endian number.
pub fn get_u16(hi: u8, lo: u8) -> (x: u16)
    ensures
        x == be16_value(hi, lo),
{
    (hi as u16) * 256 + lo as u16
}

/// Appends a copy of `bytes`.
pub fn put_bytes(buf: &mut Vec<u8>, bytes: &[u8])
    ensures
        final(buf)@ == old(buf)@ + bytes@,
{
    buf.extend_from_slice(bytes);
    assert(buf@ =~= old(buf)@ + bytes@);
}

/// Appends `count` zero bytes.
pub fn put_zeros(buf: &mut Vec<u8>, count: usize)
    ensures
        final(buf)@ == old(buf)@ + zeros(count as nat),
{
    let mut i: usize = 0;
    while i < count
        invariant
            i <= count,
            buf@ == old(buf)@ + zeros(i as nat),
        decreases count - i,
    {
        buf.push(0);
        i += 1;
        assert(buf@ =~= old(buf)@ + zeros(i as nat));
    }
}

/// Copies a slice into a vector.
pub fn copy_bytes(bytes: &[u8]) -> (v: Vec<u8>)
    ensures
        v@ == bytes@,
{
    let mut v: Vec<u8> = Vec::new();
    put_bytes(&mut v, bytes);
    assert(v@ =~= bytes@);
    v
}

/// The twelve bytes from `from` on.
pub fn array12(bytes: &[u8], from: usize) -> (a: [u8; 12])
    requires
        from + 12 <= bytes@.len(),
    ensures
        a@ == bytes@.subrange(from as int, from + 12),
{
    let a: [u8; 12] = [
        bytes[from],
        bytes[from + 1],
        bytes[from + 2],
        bytes[from + 3],
        bytes[from + 4],
        bytes[from + 5],
        bytes[from + 6],
        bytes[from + 7],
        bytes[from + 8],
        bytes[from + 9],
        bytes[from + 10],
        bytes[from + 11],
    ];
    assert(a@ =~= bytes@.subrange(from as int, from + 12));
    a
}

/// The sixteen bytes from `from` on.
pub fn array16(bytes: &[u8], from: usize) -> (a: [u8; 16])
    requires
        from + 16 <= bytes@.len(),
    ensures
        a@ == bytes@.subrange(from as int, from + 16),
{
    let a: [u8; 16] = [
        bytes[from],
        bytes[from + 1],
        bytes[from + 2],
        bytes[from + 3],
        bytes[from + 4],
        bytes[from + 5],
        bytes[from + 6],
        bytes[from + 7],
        bytes[from + 8],
        bytes[from + 9],
        bytes[from + 10],
        bytes[from + 11],
        bytes[from + 12],
        bytes[from + 13],
        bytes[from + 14],
        bytes[from + 15],
    ];
    assert(a@ =~= bytes@.subrange(from as int, from + 16));
    a
}

/// Copies `bytes[from..to]` into a vector.
pub fn copy_range(bytes: &[u8], from: usize, to: usize) -> (v: Vec<u8>)
    requires
        from <= to <= bytes@.len(),
    ensures
        v@ == bytes@.subrange(from as int, to as int),
{
    copy_bytes(&bytes[from..to])
}

/// Two bytes stand for a number with the weights 256 and 1, and every 16-bit number has
/// exactly one such pair.
pub proof fn law_big_endian(x: int, hi: u8, lo: u8)
    requires
        0 <= x <= 0xffff,
    ensures
        be16(x).len() == 2,
        256 * be16(x)[0] + be16(x)[1] == x,
        be16_value(hi, lo) == 256 * hi + lo,
        be16(x) == seq![hi, lo] <==> x == 256 * hi + lo,
{
    assert(x / 256 * 256 + x % 256 == x);
    if x == 256 * hi + lo {
        assert(x / 256 == hi && x % 256 == lo);
        assert(be16(x) =~= seq![hi, lo]);
    }
    if be16(x) == seq![hi, lo] {
        assert(be16(x)[0] == hi && be16(x)[1] == lo);
    }
}

/// Eight bytes stand for a number with the weights 1, 256, and so on up to the seventh
/// power of 256.
pub proof fn law_little_endian(x: u64)
    ensures
        ({
            let b = le64(x as int);
            &&& b.len() == 8
            &&& b[0] + 0x100 * b[1] + 0x1_0000 * b[2] + 0x100_0000 * b[3] + 0x1_0000_0000 * b[4]
                + 0x100_0000_0000 * b[5] + 0x1_0000_0000_0000 * b[6] + 0x100_0000_0000_0000 * b[7]
                == x
        }),
{
    let q1 = x as int / 0x100;
    let q2 = q1 / 0x100;
    let q3 = q2 / 0x100;
    let q4 = q3 / 0x100;
    let q5 = q4 / 0x100;
    let q6 = q5 / 0x100;
    let q7 = q6 / 0x100;
    assert(x as int / 0x1_0000 == q2);
    assert(x as int / 0x100_0000 == q3);
    assert(x as int / 0x1_0000_0000 == q4);
    assert(x as int / 0x100_0000_0000 == q5);
    assert(x as int / 0x1_0000_0000_0000 == q6);
    assert(x as int / 0x100_0000_0000_0000 == q7);
    assert(0 <= q7 < 0x100);
    let b = le64(x as int);
    assert(b[0] == x as int % 0x100 && b[1] == q1 % 0x100 && b[2] == q2 % 0x100);
    assert(b[3] == q3 % 0x100 && b[4] == q4 % 0x100 && b[5] == q5 % 0x100);
    assert(b[6] == q6 % 0x100 && b[7] == q7);
    assert(q6 == 0x100 * q7 + b[6]);
    assert(q5 == 0x100 * q6 + b[5]);
    assert(q4 == 0x100 * q5 + b[4]);
    assert(q3 == 0x100 * q4 + b[3]);
    assert(q2 == 0x100 * q3 + b[2]);
    assert(q1 == 0x100 * q2 + b[1]);
    assert(x == 0x100 * q1 + b[0]);
}

/// Zero bytes are zero, as many as are asked for.
pub proof fn law_zeros(count: nat)
    ensures
        zeros(count).len() == count,
        forall|i: int| 0 <= i < count ==> #[trigger] zeros(count)[i] == 0,
{
}

} // verus!
