//! Fixed-width integer readers and writers over in-memory bytes.
//!
//! Every reader takes the full input slice and a cursor position; on success
//! it advances the cursor past the bytes it consumed, and on failure (too few
//! bytes left) it leaves the cursor where it was and reports `Truncated`.

use vstd::prelude::*;

use crate::error::Nups2Error;

verus! {

/// The value of a 2-byte little-endian integer.
pub open spec fn le16(s: Seq<u8>) -> u16
    recommends
        s.len() == 2,
{
    (s[0] + s[1] * 0x100) as u16
}

/// The value of a 2-byte big-endian integer.
pub open spec fn be16(s: Seq<u8>) -> u16
    recommends
        s.len() == 2,
{
    (s[1] + s[0] * 0x100) as u16
}

/// The value of a 4-byte little-endian integer.
pub open spec fn le32(s: Seq<u8>) -> u32
    recommends
        s.len() == 4,
{
    (s[0] + s[1] * 0x100 + s[2] * 0x10000 + s[3] * 0x1000000) as u32
}

/// The value of a 4-byte big-endian integer.
pub open spec fn be32(s: Seq<u8>) -> u32
    recommends
        s.len() == 4,
{
    (s[3] + s[2] * 0x100 + s[1] * 0x10000 + s[0] * 0x1000000) as u32
}

/// The value of an 8-byte little-endian integer.
pub open spec fn le64(s: Seq<u8>) -> u64
    recommends
        s.len() == 8,
{
    (s[0] + s[1] * 0x100 + s[2] * 0x10000 + s[3] * 0x1000000 + s[4] * 0x100000000 + s[5]
        * 0x10000000000 + s[6] * 0x1000000000000 + s[7] * 0x100000000000000) as u64
}

/// The value of an 8-byte big-endian integer.
pub open spec fn be64(s: Seq<u8>) -> u64
    recommends
        s.len() == 8,
{
    (s[7] + s[6] * 0x100 + s[5] * 0x10000 + s[4] * 0x1000000 + s[3] * 0x100000000 + s[2]
        * 0x10000000000 + s[1] * 0x1000000000000 + s[0] * 0x100000000000000) as u64
}

/// The 4-byte little-endian encoding of an integer.
pub open spec fn u32_le_bytes(v: u32) -> Seq<u8> {
    seq![
        (v % 0x100) as u8,
        ((v / 0x100) % 0x100) as u8,
        ((v / 0x10000) % 0x100) as u8,
        ((v / 0x1000000) % 0x100) as u8,
    ]
}

/// The 4-byte big-endian encoding of an integer.
pub open spec fn u32_be_bytes(v: u32) -> Seq<u8> {
    seq![
        ((v / 0x1000000) % 0x100) as u8,
        ((v / 0x10000) % 0x100) as u8,
        ((v / 0x100) % 0x100) as u8,
        (v % 0x100) as u8,
    ]
}

/// The 2-byte little-endian encoding of an integer.
pub open spec fn u16_le_bytes(v: u16) -> Seq<u8> {
    seq![(v % 0x100) as u8, ((v / 0x100) % 0x100) as u8]
}

/// The 8-byte big-endian encoding of an integer.
pub open spec fn u64_be_bytes(v: u64) -> Seq<u8> {
    seq![
        ((v / 0x100000000000000) % 0x100) as u8,
        ((v / 0x1000000000000) % 0x100) as u8,
        ((v / 0x10000000000) % 0x100) as u8,
        ((v / 0x100000000) % 0x100) as u8,
        ((v / 0x1000000) % 0x100) as u8,
        ((v / 0x10000) % 0x100) as u8,
        ((v / 0x100) % 0x100) as u8,
        (v % 0x100) as u8,
    ]
}

/// Reads one byte and advances the cursor.
pub fn read_u8_le(data: &[u8], pos: &mut usize) -> (r: Result<u8, Nups2Error>)
    ensures
        match r {
            Ok(v) => {
                &&& *old(pos) + 1 <= data@.len()
                &&& *final(pos) == *old(pos) + 1
                &&& v == data@[*old(pos) as int]
            },
            Err(e) => {
                &&& *final(pos) == *old(pos)
                &&& e is Truncated
                &&& *old(pos) + 1 > data@.len()
            },
        },
{
    if *pos >= data.len() {
        return Err(Nups2Error::Truncated);
    }
    let v: u8 = data[*pos];
    *pos = *pos + 1;
    Ok(v)
}

/// Reads a 2-byte little-endian integer and advances the cursor.
pub fn read_u16_le(data: &[u8], pos: &mut usize) -> (r: Result<u16, Nups2Error>)
    ensures
        match r {
            Ok(v) => {
                &&& *old(pos) + 2 <= data@.len()
                &&& *final(pos) == *old(pos) + 2
                &&& v == le16(data@.subrange(*old(pos) as int, *old(pos) + 2))
            },
            Err(e) => {
                &&& *final(pos) == *old(pos)
                &&& e is Truncated
                &&& *old(pos) + 2 > data@.len()
            },
        },
{
    if data.len() < 2 || *pos > data.len() - 2 {
        return Err(Nups2Error::Truncated);
    }
    let b0: u16 = data[*pos] as u16;
    let b1: u16 = data[*pos + 1] as u16;
    *pos = *pos + 2;
    Ok(b0 + b1 * 0x100)
}

/// Reads a 2-byte big-endian integer and advances the cursor.
pub fn read_u16_be(data: &[u8], pos: &mut usize) -> (r: Result<u16, Nups2Error>)
    ensures
        match r {
            Ok(v) => {
                &&& *old(pos) + 2 <= data@.len()
                &&& *final(pos) == *old(pos) + 2
                &&& v == be16(data@.subrange(*old(pos) as int, *old(pos) + 2))
            },
            Err(e) => {
                &&& *final(pos) == *old(pos)
                &&& e is Truncated
                &&& *old(pos) + 2 > data@.len()
            },
        },
{
    if data.len() < 2 || *pos > data.len() - 2 {
        return Err(Nups2Error::Truncated);
    }
    let b0: u16 = data[*pos] as u16;
    let b1: u16 = data[*pos + 1] as u16;
    *pos = *pos + 2;
    Ok(b1 + b0 * 0x100)
}

/// Reads a 4-byte little-endian integer and advances the cursor.
pub fn read_u32_le(data: &[u8], pos: &mut usize) -> (r: Result<u32, Nups2Error>)
    ensures
        match r {
            Ok(v) => {
                &&& *old(pos) + 4 <= data@.len()
                &&& *final(pos) == *old(pos) + 4
                &&& v == le32(data@.subrange(*old(pos) as int, *old(pos) + 4))
            },
            Err(e) => {
                &&& *final(pos) == *old(pos)
                &&& e is Truncated
                &&& *old(pos) + 4 > data@.len()
            },
        },
{
    if data.len() < 4 || *pos > data.len() - 4 {
        return Err(Nups2Error::Truncated);
    }
    let b0: u32 = data[*pos] as u32;
    let b1: u32 = data[*pos + 1] as u32;
    let b2: u32 = data[*pos + 2] as u32;
    let b3: u32 = data[*pos + 3] as u32;
    *pos = *pos + 4;
    Ok(b0 + b1 * 0x100 + b2 * 0x10000 + b3 * 0x1000000)
}

/// Reads a 4-byte big-endian integer and advances the cursor.
pub fn read_u32_be(data: &[u8], pos: &mut usize) -> (r: Result<u32, Nups2Error>)
    ensures
        match r {
            Ok(v) => {
                &&& *old(pos) + 4 <= data@.len()
                &&& *final(pos) == *old(pos) + 4
                &&& v == be32(data@.subrange(*old(pos) as int, *old(pos) + 4))
            },
            Err(e) => {
                &&& *final(pos) == *old(pos)
                &&& e is Truncated
                &&& *old(pos) + 4 > data@.len()
            },
        },
{
    if data.len() < 4 || *pos > data.len() - 4 {
        return Err(Nups2Error::Truncated);
    }
    let b0: u32 = data[*pos] as u32;
    let b1: u32 = data[*pos + 1] as u32;
    let b2: u32 = data[*pos + 2] as u32;
    let b3: u32 = data[*pos + 3] as u32;
    *pos = *pos + 4;
    Ok(b3 + b2 * 0x100 + b1 * 0x10000 + b0 * 0x1000000)
}

/// Reads an 8-byte little-endian integer and advances the cursor.
pub fn read_u64_le(data: &[u8], pos: &mut usize) -> (r: Result<u64, Nups2Error>)
    ensures
        match r {
            Ok(v) => {
                &&& *old(pos) + 8 <= data@.len()
                &&& *final(pos) == *old(pos) + 8
                &&& v == le64(data@.subrange(*old(pos) as int, *old(pos) + 8))
            },
            Err(e) => {
                &&& *final(pos) == *old(pos)
                &&& e is Truncated
                &&& *old(pos) + 8 > data@.len()
            },
        },
{
    if data.len() < 8 || *pos > data.len() - 8 {
        return Err(Nups2Error::Truncated);
    }
    let b0: u64 = data[*pos] as u64;
    let b1: u64 = data[*pos + 1] as u64;
    let b2: u64 = data[*pos + 2] as u64;
    let b3: u64 = data[*pos + 3] as u64;
    let b4: u64 = data[*pos + 4] as u64;
    let b5: u64 = data[*pos + 5] as u64;
    let b6: u64 = data[*pos + 6] as u64;
    let b7: u64 = data[*pos + 7] as u64;
    *pos = *pos + 8;
    Ok(b0 + b1 * 0x100 + b2 * 0x10000 + b3 * 0x1000000 + b4 * 0x100000000 + b5 * 0x10000000000 + b6
        * 0x1000000000000 + b7 * 0x100000000000000)
}

/// Reads an 8-byte big-endian integer and advances the cursor.
pub fn read_u64_be(data: &[u8], pos: &mut usize) -> (r: Result<u64, Nups2Error>)
    ensures
        match r {
            Ok(v) => {
                &&& *old(pos) + 8 <= data@.len()
                &&& *final(pos) == *old(pos) + 8
                &&& v == be64(data@.subrange(*old(pos) as int, *old(pos) + 8))
            },
            Err(e) => {
                &&& *final(pos) == *old(pos)
                &&& e is Truncated
                &&& *old(pos) + 8 > data@.len()
            },
        },
{
    if data.len() < 8 || *pos > data.len() - 8 {
        return Err(Nups2Error::Truncated);
    }
    let b0: u64 = data[*pos] as u64;
    let b1: u64 = data[*pos + 1] as u64;
    let b2: u64 = data[*pos + 2] as u64;
    let b3: u64 = data[*pos + 3] as u64;
    let b4: u64 = data[*pos + 4] as u64;
    let b5: u64 = data[*pos + 5] as u64;
    let b6: u64 = data[*pos + 6] as u64;
    let b7: u64 = data[*pos + 7] as u64;
    *pos = *pos + 8;
    Ok(b7 + b6 * 0x100 + b5 * 0x10000 + b4 * 0x1000000 + b3 * 0x100000000 + b2 * 0x10000000000 + b1
        * 0x1000000000000 + b0 * 0x100000000000000)
}

/// Copies `byte_count` bytes from the cursor into a fresh vector and advances
/// the cursor.
pub fn read_x_bytes(data: &[u8], pos: &mut usize, byte_count: usize) -> (r: Result<
    Vec<u8>,
    Nups2Error,
>)
    ensures
        match r {
            Ok(v) => {
                &&& *old(pos) + byte_count <= data@.len()
                &&& *final(pos) == *old(pos) + byte_count
                &&& v@ == data@.subrange(*old(pos) as int, *old(pos) + byte_count)
            },
            Err(e) => {
                &&& *final(pos) == *old(pos)
                &&& e is Truncated
                &&& *old(pos) + byte_count > data@.len()
            },
        },
{
    if byte_count > data.len() || *pos > data.len() - byte_count {
        return Err(Nups2Error::Truncated);
    }
    let mut out: Vec<u8> = Vec::new();
    let mut i: usize = 0;
    while i < byte_count
        invariant
            i <= byte_count,
            *pos + byte_count <= data@.len(),
            data@.len() <= usize::MAX,
            out@ == data@.subrange(*pos as int, *pos + i),
        decreases byte_count - i,
    {
        out.push(data[*pos + i]);
        i = i + 1;
        proof {
            assert(out@ =~= data@.subrange(*pos as int, *pos + i));
        }
    }
    *pos = *pos + byte_count;
    Ok(out)
}

/// Same copy as [`read_x_bytes`]; the separate name marks call sites that move
/// whole payloads rather than short fields.
pub fn read_big_x_bytes(data: &[u8], pos: &mut usize, byte_count: usize) -> (r: Result<
    Vec<u8>,
    Nups2Error,
>)
    ensures
        match r {
            Ok(v) => {
                &&& *old(pos) + byte_count <= data@.len()
                &&& *final(pos) == *old(pos) + byte_count
                &&& v@ == data@.subrange(*old(pos) as int, *old(pos) + byte_count)
            },
            Err(e) => {
                &&& *final(pos) == *old(pos)
                &&& e is Truncated
                &&& *old(pos) + byte_count > data@.len()
            },
        },
{
    read_x_bytes(data, pos, byte_count)
}

/// Appends `byte_count` bytes from the cursor onto `out` and advances the
/// cursor.
pub fn clone_big_x_bytes(data: &[u8], pos: &mut usize, out: &mut Vec<u8>, byte_count: usize) -> (r:
    Result<(), Nups2Error>)
    ensures
        match r {
            Ok(_) => {
                &&& *old(pos) + byte_count <= data@.len()
                &&& *final(pos) == *old(pos) + byte_count
                &&& final(out)@ == old(out)@ + data@.subrange(
                    *old(pos) as int,
                    *old(pos) + byte_count,
                )
            },
            Err(e) => {
                &&& *final(pos) == *old(pos)
                &&& final(out)@ == old(out)@
                &&& e is Truncated
                &&& *old(pos) + byte_count > data@.len()
            },
        },
{
    if byte_count > data.len() || *pos > data.len() - byte_count {
        return Err(Nups2Error::Truncated);
    }
    let mut i: usize = 0;
    while i < byte_count
        invariant
            i <= byte_count,
            *pos + byte_count <= data@.len(),
            data@.len() <= usize::MAX,
            out@ == old(out)@ + data@.subrange(*pos as int, *pos + i),
        decreases byte_count - i,
    {
        out.push(data[*pos + i]);
        i = i + 1;
        proof {
            assert(out@ =~= old(out)@ + data@.subrange(*pos as int, *pos + i));
        }
    }
    *pos = *pos + byte_count;
    Ok(())
}

/// Appends the 4-byte little-endian encoding of `num` onto `out`.
pub fn write_u32_le(num: u32, out: &mut Vec<u8>)
    ensures
        final(out)@ == old(out)@ + u32_le_bytes(num),
{
    out.push((num % 0x100) as u8);
    out.push(((num / 0x100) % 0x100) as u8);
    out.push(((num / 0x10000) % 0x100) as u8);
    out.push(((num / 0x1000000) % 0x100) as u8);
    proof {
        assert(out@ =~= old(out)@ + u32_le_bytes(num));
    }
}

/// Appends the 4-byte big-endian encoding of `num` onto `out`.
pub fn write_u32_be(num: u32, out: &mut Vec<u8>)
    ensures
        final(out)@ == old(out)@ + u32_be_bytes(num),
{
    out.push(((num / 0x1000000) % 0x100) as u8);
    out.push(((num / 0x10000) % 0x100) as u8);
    out.push(((num / 0x100) % 0x100) as u8);
    out.push((num % 0x100) as u8);
    proof {
        assert(out@ =~= old(out)@ + u32_be_bytes(num));
    }
}

/// Appends the 2-byte little-endian encoding of `num` onto `out`.
pub fn write_u16_le(num: u16, out: &mut Vec<u8>)
    ensures
        final(out)@ == old(out)@ + u16_le_bytes(num),
{
    out.push((num % 0x100) as u8);
    out.push(((num / 0x100) % 0x100) as u8);
    proof {
        assert(out@ =~= old(out)@ + u16_le_bytes(num));
    }
}

/// Appends the 8-byte big-endian encoding of `num` onto `out`.
pub fn write_u64_be(num: u64, out: &mut Vec<u8>)
    ensures
        final(out)@ == old(out)@ + u64_be_bytes(num),
{
    out.push(((num / 0x100000000000000) % 0x100) as u8);
    out.push(((num / 0x1000000000000) % 0x100) as u8);
    out.push(((num / 0x10000000000) % 0x100) as u8);
    out.push(((num / 0x100000000) % 0x100) as u8);
    out.push(((num / 0x1000000) % 0x100) as u8);
    out.push(((num / 0x10000) % 0x100) as u8);
    out.push(((num / 0x100) % 0x100) as u8);
    out.push((num % 0x100) as u8);
    proof {
        assert(out@ =~= old(out)@ + u64_be_bytes(num));
    }
}

} // verus!
