//! Big-endian integer coding on byte buffers.
//!
//! Every multi-byte integer of the box format is big-endian. The spec
//! functions here define what a group of bytes means and what a value
//! serializes to; the executable readers and writers are proved against
//! them, and the round-trip lemmas connect the two directions.

use vstd::prelude::*;

use crate::error::Error;

verus! {

// What a big-endian byte group denotes.

pub open spec fn be16(b0: u8, b1: u8) -> u16 {
    ((b0 as u16) << 8) | (b1 as u16)
}

pub open spec fn be24(b0: u8, b1: u8, b2: u8) -> u32 {
    ((b0 as u32) << 16) | ((b1 as u32) << 8) | (b2 as u32)
}

pub open spec fn be32(b0: u8, b1: u8, b2: u8, b3: u8) -> u32 {
    ((b0 as u32) << 24) | ((b1 as u32) << 16) | ((b2 as u32) << 8) | (b3 as u32)
}

pub open spec fn be48(b0: u8, b1: u8, b2: u8, b3: u8, b4: u8, b5: u8) -> u64 {
    ((b0 as u64) << 40) | ((b1 as u64) << 32) | ((b2 as u64) << 24) | ((b3 as u64) << 16) | (
    (b4 as u64) << 8) | (b5 as u64)
}

pub open spec fn be64(b0: u8, b1: u8, b2: u8, b3: u8, b4: u8, b5: u8, b6: u8, b7: u8) -> u64 {
    ((b0 as u64) << 56) | ((b1 as u64) << 48) | ((b2 as u64) << 40) | ((b3 as u64) << 32) | (
    (b4 as u64) << 24) | ((b5 as u64) << 16) | ((b6 as u64) << 8) | (b7 as u64)
}

// What a value serializes to.

pub open spec fn u16_be(v: u16) -> Seq<u8> {
    seq![((v >> 8) & 0xFF) as u8, (v & 0xFF) as u8]
}

pub open spec fn u24_be(v: u32) -> Seq<u8> {
    seq![((v >> 16) & 0xFF) as u8, ((v >> 8) & 0xFF) as u8, (v & 0xFF) as u8]
}

pub open spec fn u32_be(v: u32) -> Seq<u8> {
    seq![
        ((v >> 24) & 0xFF) as u8,
        ((v >> 16) & 0xFF) as u8,
        ((v >> 8) & 0xFF) as u8,
        (v & 0xFF) as u8,
    ]
}

pub open spec fn u48_be(v: u64) -> Seq<u8> {
    seq![
        ((v >> 40) & 0xFF) as u8,
        ((v >> 32) & 0xFF) as u8,
        ((v >> 24) & 0xFF) as u8,
        ((v >> 16) & 0xFF) as u8,
        ((v >> 8) & 0xFF) as u8,
        (v & 0xFF) as u8,
    ]
}

pub open spec fn u64_be(v: u64) -> Seq<u8> {
    seq![
        ((v >> 56) & 0xFF) as u8,
        ((v >> 48) & 0xFF) as u8,
        ((v >> 40) & 0xFF) as u8,
        ((v >> 32) & 0xFF) as u8,
        ((v >> 24) & 0xFF) as u8,
        ((v >> 16) & 0xFF) as u8,
        ((v >> 8) & 0xFF) as u8,
        (v & 0xFF) as u8,
    ]
}

/// A run of `n` zero bytes.
pub open spec fn zero_bytes(n: nat) -> Seq<u8> {
    Seq::new(n, |i: int| 0u8)
}

// Serializing a value and reading it back yields the value.

pub proof fn lemma_u16_be_val(v: u16)
    ensures
        be16(u16_be(v)[0], u16_be(v)[1]) == v,
{
    assert((((((v >> 8) & 0xFF) as u8) as u16) << 8) | (((v & 0xFF) as u8) as u16) == v)
        by (bit_vector);
}

pub proof fn lemma_u24_be_val(v: u32)
    requires
        v < 0x1000000,
    ensures
        be24(u24_be(v)[0], u24_be(v)[1], u24_be(v)[2]) == v,
{
    assert(v < 0x1000000 ==> ((((v >> 16) & 0xFF) as u8 as u32) << 16) | ((((v >> 8)
        & 0xFF) as u8 as u32) << 8) | ((v & 0xFF) as u8 as u32) == v) by (bit_vector);
}

pub proof fn lemma_u32_be_val(v: u32)
    ensures
        be32(u32_be(v)[0], u32_be(v)[1], u32_be(v)[2], u32_be(v)[3]) == v,
{
    assert(((((v >> 24) & 0xFF) as u8 as u32) << 24) | ((((v >> 16) & 0xFF) as u8 as u32) << 16) | (
    (((v >> 8) & 0xFF) as u8 as u32) << 8) | ((v & 0xFF) as u8 as u32) == v) by (bit_vector);
}

pub proof fn lemma_u48_be_val(v: u64)
    requires
        v < 0x1000000000000,
    ensures
        be48(u48_be(v)[0], u48_be(v)[1], u48_be(v)[2], u48_be(v)[3], u48_be(v)[4], u48_be(v)[5])
            == v,
{
    assert(v < 0x1000000000000 ==> ((((v >> 40) & 0xFF) as u8 as u64) << 40) | ((((v >> 32)
        & 0xFF) as u8 as u64) << 32) | ((((v >> 24) & 0xFF) as u8 as u64) << 24) | ((((v >> 16)
        & 0xFF) as u8 as u64) << 16) | ((((v >> 8) & 0xFF) as u8 as u64) << 8) | ((v
        & 0xFF) as u8 as u64) == v) by (bit_vector);
}

pub proof fn lemma_u64_be_val(v: u64)
    ensures
        be64(
            u64_be(v)[0],
            u64_be(v)[1],
            u64_be(v)[2],
            u64_be(v)[3],
            u64_be(v)[4],
            u64_be(v)[5],
            u64_be(v)[6],
            u64_be(v)[7],
        ) == v,
{
    assert(((((v >> 56) & 0xFF) as u8 as u64) << 56) | ((((v >> 48) & 0xFF) as u8 as u64) << 48) | (
    (((v >> 40) & 0xFF) as u8 as u64) << 40) | ((((v >> 32) & 0xFF) as u8 as u64) << 32) | ((((v
        >> 24) & 0xFF) as u8 as u64) << 24) | ((((v >> 16) & 0xFF) as u8 as u64) << 16) | ((((v
        >> 8) & 0xFF) as u8 as u64) << 8) | ((v & 0xFF) as u8 as u64) == v) by (bit_vector);
}

// Reading bytes and serializing the value back yields the bytes.

pub proof fn lemma_be16_bytes(b0: u8, b1: u8)
    ensures
        u16_be(be16(b0, b1)) == seq![b0, b1],
{
    let v = be16(b0, b1);
    assert((((((b0 as u16) << 8) | (b1 as u16)) >> 8) & 0xFF) as u8 == b0) by (bit_vector);
    assert(((((b0 as u16) << 8) | (b1 as u16)) & 0xFF) as u8 == b1) by (bit_vector);
    assert(u16_be(v) =~= seq![b0, b1]);
}

pub proof fn lemma_be32_bytes(b0: u8, b1: u8, b2: u8, b3: u8)
    ensures
        u32_be(be32(b0, b1, b2, b3)) == seq![b0, b1, b2, b3],
{
    let v = be32(b0, b1, b2, b3);
    assert((((((b0 as u32) << 24) | ((b1 as u32) << 16) | ((b2 as u32) << 8) | (b3 as u32)) >> 24) & 0xFF) as u8 == b0) by (bit_vector);
    assert((((((b0 as u32) << 24) | ((b1 as u32) << 16) | ((b2 as u32) << 8) | (b3 as u32)) >> 16) & 0xFF) as u8 == b1) by (bit_vector);
    assert((((((b0 as u32) << 24) | ((b1 as u32) << 16) | ((b2 as u32) << 8) | (b3 as u32)) >> 8) & 0xFF) as u8 == b2) by (bit_vector);
    assert(((((b0 as u32) << 24) | ((b1 as u32) << 16) | ((b2 as u32) << 8) | (b3 as u32)) & 0xFF) as u8 == b3) by (bit_vector);
    assert(u32_be(v) =~= seq![b0, b1, b2, b3]);
}

pub proof fn lemma_be64_bytes(b0: u8, b1: u8, b2: u8, b3: u8, b4: u8, b5: u8, b6: u8, b7: u8)
    ensures
        u64_be(be64(b0, b1, b2, b3, b4, b5, b6, b7)) == seq![b0, b1, b2, b3, b4, b5, b6, b7],
{
    assert((((((b0 as u64) << 56) | ((b1 as u64) << 48) | ((b2 as u64) << 40) | ((b3 as u64) << 32) | ((b4 as u64) << 24) | ((b5 as u64) << 16) | ((b6 as u64) << 8) | (b7 as u64)) >> 56) & 0xFF) as u8 == b0) by (bit_vector);
    assert((((((b0 as u64) << 56) | ((b1 as u64) << 48) | ((b2 as u64) << 40) | ((b3 as u64) << 32) | ((b4 as u64) << 24) | ((b5 as u64) << 16) | ((b6 as u64) << 8) | (b7 as u64)) >> 48) & 0xFF) as u8 == b1) by (bit_vector);
    assert((((((b0 as u64) << 56) | ((b1 as u64) << 48) | ((b2 as u64) << 40) | ((b3 as u64) << 32) | ((b4 as u64) << 24) | ((b5 as u64) << 16) | ((b6 as u64) << 8) | (b7 as u64)) >> 40) & 0xFF) as u8 == b2) by (bit_vector);
    assert((((((b0 as u64) << 56) | ((b1 as u64) << 48) | ((b2 as u64) << 40) | ((b3 as u64) << 32) | ((b4 as u64) << 24) | ((b5 as u64) << 16) | ((b6 as u64) << 8) | (b7 as u64)) >> 32) & 0xFF) as u8 == b3) by (bit_vector);
    assert((((((b0 as u64) << 56) | ((b1 as u64) << 48) | ((b2 as u64) << 40) | ((b3 as u64) << 32) | ((b4 as u64) << 24) | ((b5 as u64) << 16) | ((b6 as u64) << 8) | (b7 as u64)) >> 24) & 0xFF) as u8 == b4) by (bit_vector);
    assert((((((b0 as u64) << 56) | ((b1 as u64) << 48) | ((b2 as u64) << 40) | ((b3 as u64) << 32) | ((b4 as u64) << 24) | ((b5 as u64) << 16) | ((b6 as u64) << 8) | (b7 as u64)) >> 16) & 0xFF) as u8 == b5) by (bit_vector);
    assert((((((b0 as u64) << 56) | ((b1 as u64) << 48) | ((b2 as u64) << 40) | ((b3 as u64) << 32) | ((b4 as u64) << 24) | ((b5 as u64) << 16) | ((b6 as u64) << 8) | (b7 as u64)) >> 8) & 0xFF) as u8 == b6) by (bit_vector);
    assert(((((b0 as u64) << 56) | ((b1 as u64) << 48) | ((b2 as u64) << 40) | ((b3 as u64) << 32) | ((b4 as u64) << 24) | ((b5 as u64) << 16) | ((b6 as u64) << 8) | (b7 as u64)) & 0xFF) as u8 == b7) by (bit_vector);
    assert(u64_be(be64(b0, b1, b2, b3, b4, b5, b6, b7)) =~= seq![b0, b1, b2, b3, b4, b5, b6, b7]);
}


/// Zero serializes to zero bytes at every width.
pub proof fn lemma_zero_be()
    ensures
        u16_be(0) == zero_bytes(2),
        u24_be(0) == zero_bytes(3),
        u32_be(0) == zero_bytes(4),
        u48_be(0) == zero_bytes(6),
        u64_be(0) == zero_bytes(8),
{
    assert(((0u16 >> 8) & 0xFF) as u8 == 0 && (0u16 & 0xFF) as u8 == 0) by (bit_vector);
    assert(((0u32 >> 24) & 0xFF) as u8 == 0 && ((0u32 >> 16) & 0xFF) as u8 == 0 && ((0u32 >> 8)
        & 0xFF) as u8 == 0 && (0u32 & 0xFF) as u8 == 0) by (bit_vector);
    assert(((0u64 >> 56) & 0xFF) as u8 == 0 && ((0u64 >> 48) & 0xFF) as u8 == 0 && ((0u64 >> 40)
        & 0xFF) as u8 == 0 && ((0u64 >> 32) & 0xFF) as u8 == 0 && ((0u64 >> 24) & 0xFF) as u8 == 0
        && ((0u64 >> 16) & 0xFF) as u8 == 0 && ((0u64 >> 8) & 0xFF) as u8 == 0 && (0u64
        & 0xFF) as u8 == 0) by (bit_vector);
    assert(u16_be(0) =~= zero_bytes(2));
    assert(u24_be(0) =~= zero_bytes(3));
    assert(u32_be(0) =~= zero_bytes(4));
    assert(u48_be(0) =~= zero_bytes(6));
    assert(u64_be(0) =~= zero_bytes(8));
}

/// Casting a signed 16-bit value through its unsigned bit pattern is the
/// identity.
pub proof fn lemma_i16_bits(g: i16)
    ensures
        ((g as u16) as i16) == g,
{
    assert(((g as u16) as i16) == g) by (bit_vector);
}

// Executable readers. Each checks the remaining length itself and reports
// an exhausted buffer as `Error::IoError`, as a failing byte source would.

pub fn read_u8(buf: &Vec<u8>, pos: usize) -> (r: Result<(u8, usize), Error>)
    ensures
        pos + 1 <= buf@.len() ==> (r matches Ok(v) && v.0 == buf@[pos as int] && v.1 == pos + 1),
        pos + 1 > buf@.len() ==> (r matches Err(e) && e == Error::IoError),
{
    if pos < buf.len() {
        Ok((buf[pos], pos + 1))
    } else {
        Err(Error::IoError)
    }
}

pub fn read_u16(buf: &Vec<u8>, pos: usize) -> (r: Result<(u16, usize), Error>)
    ensures
        pos + 2 <= buf@.len() ==> (r matches Ok(v) && v.0 == be16(
            buf@[pos as int],
            buf@[pos + 1],
        ) && v.1 == pos + 2),
        pos + 2 > buf@.len() ==> (r matches Err(e) && e == Error::IoError),
{
    if pos <= buf.len() && buf.len() - pos >= 2 {
        let b0 = buf[pos];
        let b1 = buf[pos + 1];
        Ok((((b0 as u16) << 8) | (b1 as u16), pos + 2))
    } else {
        Err(Error::IoError)
    }
}

pub fn read_u24(buf: &Vec<u8>, pos: usize) -> (r: Result<(u32, usize), Error>)
    ensures
        pos + 3 <= buf@.len() ==> (r matches Ok(v) && v.0 == be24(
            buf@[pos as int],
            buf@[pos + 1],
            buf@[pos + 2],
        ) && v.1 == pos + 3),
        pos + 3 > buf@.len() ==> (r matches Err(e) && e == Error::IoError),
{
    if pos <= buf.len() && buf.len() - pos >= 3 {
        let b0 = buf[pos];
        let b1 = buf[pos + 1];
        let b2 = buf[pos + 2];
        Ok((((b0 as u32) << 16) | ((b1 as u32) << 8) | (b2 as u32), pos + 3))
    } else {
        Err(Error::IoError)
    }
}

pub fn read_u32(buf: &Vec<u8>, pos: usize) -> (r: Result<(u32, usize), Error>)
    ensures
        pos + 4 <= buf@.len() ==> (r matches Ok(v) && v.0 == be32(
            buf@[pos as int],
            buf@[pos + 1],
            buf@[pos + 2],
            buf@[pos + 3],
        ) && v.1 == pos + 4),
        pos + 4 > buf@.len() ==> (r matches Err(e) && e == Error::IoError),
{
    if pos <= buf.len() && buf.len() - pos >= 4 {
        let b0 = buf[pos];
        let b1 = buf[pos + 1];
        let b2 = buf[pos + 2];
        let b3 = buf[pos + 3];
        Ok((((b0 as u32) << 24) | ((b1 as u32) << 16) | ((b2 as u32) << 8) | (b3 as u32), pos + 4))
    } else {
        Err(Error::IoError)
    }
}

pub fn read_u48(buf: &Vec<u8>, pos: usize) -> (r: Result<(u64, usize), Error>)
    ensures
        pos + 6 <= buf@.len() ==> (r matches Ok(v) && v.0 == be48(
            buf@[pos as int],
            buf@[pos + 1],
            buf@[pos + 2],
            buf@[pos + 3],
            buf@[pos + 4],
            buf@[pos + 5],
        ) && v.1 == pos + 6),
        pos + 6 > buf@.len() ==> (r matches Err(e) && e == Error::IoError),
{
    if pos <= buf.len() && buf.len() - pos >= 6 {
        let b0 = buf[pos];
        let b1 = buf[pos + 1];
        let b2 = buf[pos + 2];
        let b3 = buf[pos + 3];
        let b4 = buf[pos + 4];
        let b5 = buf[pos + 5];
        Ok(
            (
                ((b0 as u64) << 40) | ((b1 as u64) << 32) | ((b2 as u64) << 24) | ((b3 as u64)
                    << 16) | ((b4 as u64) << 8) | (b5 as u64),
                pos + 6,
            ),
        )
    } else {
        Err(Error::IoError)
    }
}

pub fn read_u64(buf: &Vec<u8>, pos: usize) -> (r: Result<(u64, usize), Error>)
    ensures
        pos + 8 <= buf@.len() ==> (r matches Ok(v) && v.0 == be64(
            buf@[pos as int],
            buf@[pos + 1],
            buf@[pos + 2],
            buf@[pos + 3],
            buf@[pos + 4],
            buf@[pos + 5],
            buf@[pos + 6],
            buf@[pos + 7],
        ) && v.1 == pos + 8),
        pos + 8 > buf@.len() ==> (r matches Err(e) && e == Error::IoError),
{
    if pos <= buf.len() && buf.len() - pos >= 8 {
        let b0 = buf[pos];
        let b1 = buf[pos + 1];
        let b2 = buf[pos + 2];
        let b3 = buf[pos + 3];
        let b4 = buf[pos + 4];
        let b5 = buf[pos + 5];
        let b6 = buf[pos + 6];
        let b7 = buf[pos + 7];
        Ok(
            (
                ((b0 as u64) << 56) | ((b1 as u64) << 48) | ((b2 as u64) << 40) | ((b3 as u64)
                    << 32) | ((b4 as u64) << 24) | ((b5 as u64) << 16) | ((b6 as u64) << 8) | (
                b7 as u64),
                pos + 8,
            ),
        )
    } else {
        Err(Error::IoError)
    }
}

// Executable writers. Each appends exactly the serialization of its value.

pub fn put_u8(out: &mut Vec<u8>, v: u8)
    ensures
        final(out)@ == old(out)@ + seq![v],
{
    out.push(v);
    assert(out@ =~= old(out)@ + seq![v]);
}

pub fn put_u16(out: &mut Vec<u8>, v: u16)
    ensures
        final(out)@ == old(out)@ + u16_be(v),
{
    out.push(((v >> 8) & 0xFF) as u8);
    out.push((v & 0xFF) as u8);
    assert(out@ =~= old(out)@ + u16_be(v));
}

pub fn put_u24(out: &mut Vec<u8>, v: u32)
    ensures
        final(out)@ == old(out)@ + u24_be(v),
{
    out.push(((v >> 16) & 0xFF) as u8);
    out.push(((v >> 8) & 0xFF) as u8);
    out.push((v & 0xFF) as u8);
    assert(out@ =~= old(out)@ + u24_be(v));
}

pub fn put_u32(out: &mut Vec<u8>, v: u32)
    ensures
        final(out)@ == old(out)@ + u32_be(v),
{
    out.push(((v >> 24) & 0xFF) as u8);
    out.push(((v >> 16) & 0xFF) as u8);
    out.push(((v >> 8) & 0xFF) as u8);
    out.push((v & 0xFF) as u8);
    assert(out@ =~= old(out)@ + u32_be(v));
}

pub fn put_u48(out: &mut Vec<u8>, v: u64)
    ensures
        final(out)@ == old(out)@ + u48_be(v),
{
    out.push(((v >> 40) & 0xFF) as u8);
    out.push(((v >> 32) & 0xFF) as u8);
    out.push(((v >> 24) & 0xFF) as u8);
    out.push(((v >> 16) & 0xFF) as u8);
    out.push(((v >> 8) & 0xFF) as u8);
    out.push((v & 0xFF) as u8);
    assert(out@ =~= old(out)@ + u48_be(v));
}

pub fn put_u64(out: &mut Vec<u8>, v: u64)
    ensures
        final(out)@ == old(out)@ + u64_be(v),
{
    out.push(((v >> 56) & 0xFF) as u8);
    out.push(((v >> 48) & 0xFF) as u8);
    out.push(((v >> 40) & 0xFF) as u8);
    out.push(((v >> 32) & 0xFF) as u8);
    out.push(((v >> 24) & 0xFF) as u8);
    out.push(((v >> 16) & 0xFF) as u8);
    out.push(((v >> 8) & 0xFF) as u8);
    out.push((v & 0xFF) as u8);
    assert(out@ =~= old(out)@ + u64_be(v));
}

/// Appends `n` zero bytes.
pub fn put_zeros(out: &mut Vec<u8>, n: usize)
    ensures
        final(out)@ == old(out)@ + zero_bytes(n as nat),
{
    let mut i: usize = 0;
    while i < n
        invariant
            i <= n,
            out@ == old(out)@ + zero_bytes(i as nat),
        decreases n - i,
    {
        out.push(0u8);
        assert(out@ =~= old(out)@ + zero_bytes((i + 1) as nat));
        i = i + 1;
    }
    assert(out@ =~= old(out)@ + zero_bytes(n as nat));
}

/// Appends every byte of `data`.
pub fn put_bytes(out: &mut Vec<u8>, data: &Vec<u8>)
    ensures
        final(out)@ == old(out)@ + data@,
{
    let mut i: usize = 0;
    while i < data.len()
        invariant
            i <= data@.len(),
            out@ == old(out)@ + data@.take(i as int),
        decreases data@.len() - i,
    {
        out.push(data[i]);
        assert(out@ =~= old(out)@ + data@.take(i + 1));
        i = i + 1;
    }
    assert(out@ =~= old(out)@ + data@);
}

} // verus!
