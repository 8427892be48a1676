//! The binary glTF container's fixed framing: chunk type words, chunk
//! padding, and the 12-byte file header.

use vstd::prelude::*;

use crate::bin_utils::{u32_le_bytes, write_u32_le};

verus! {

/// The container format version written into every header.
pub const GLTF_CONTAINER_FORMAT_VERSION: u32 = 1;

/// The kind of one container chunk.
#[derive(Debug, Copy, Clone, PartialEq, Eq, Structural)]
pub enum GlbChunkType {
    JSON,
    BIN,
}

/// The type word a chunk kind is written as.
pub open spec fn chunk_type_id(t: GlbChunkType) -> u32 {
    match t {
        GlbChunkType::JSON => 0x4E4F534A,
        GlbChunkType::BIN => 0x004E4942,
    }
}

/// The byte a chunk kind is padded with.
pub open spec fn chunk_padding_byte(t: GlbChunkType) -> u8 {
    match t {
        GlbChunkType::JSON => 0x20,
        GlbChunkType::BIN => 0x00,
    }
}

/// The padding needed to bring a chunk to a 4-byte boundary.
pub open spec fn chunk_padding_amount(length_in_bytes: u32) -> u32 {
    if length_in_bytes % 4 == 0 {
        0u32
    } else {
        (4 - length_in_bytes % 4) as u32
    }
}

impl GlbChunkType {
    /// The chunk kind a type word decodes to, if any.
    pub fn from_u32(num: u32) -> (r: Option<GlbChunkType>)
        ensures
            match r {
                Some(t) => chunk_type_id(t) == num,
                None => num != 0x4E4F534A && num != 0x004E4942,
            },
    {
        match num {
            0x4E4F534A => Some(GlbChunkType::JSON),
            0x004E4942 => Some(GlbChunkType::BIN),
            _ => None,
        }
    }

    /// The type word this kind is written as.
    pub fn get_u32_id(&self) -> (r: u32)
        ensures
            r == chunk_type_id(*self),
    {
        match self {
            GlbChunkType::JSON => 0x4E4F534A,
            GlbChunkType::BIN => 0x004E4942,
        }
    }

    /// The byte this kind is padded with.
    pub fn get_padding_byte(&self) -> (r: u8)
        ensures
            r == chunk_padding_byte(*self),
    {
        match self {
            GlbChunkType::JSON => 0x20,
            GlbChunkType::BIN => 0x00,
        }
    }
}

/// The padding needed to bring a chunk to a 4-byte boundary.
pub fn calc_chunk_padding_amount(length_in_bytes: u32) -> (r: u32)
    ensures
        r == chunk_padding_amount(length_in_bytes),
{
    let m: u32 = length_in_bytes % 4;
    if m == 0 {
        0
    } else {
        4 - m
    }
}

/// A container file under construction. Only the fixed header is written so
/// far; the chunks it will frame are carried along unwritten.
#[derive(Debug)]
pub struct Glb {
    pub bin_head: GlbBinChunk,
}

/// One binary chunk's raw contents.
#[derive(Debug, Clone, PartialEq, Eq)]
pub struct GlbBinChunk {
    pub content: Vec<u8>,
}

/// A binary chunk's framed length: its 8-byte chunk header plus its
/// contents, rounded up to a 4-byte boundary; figures past the 32-bit range
/// wrap as the machine word does.
pub open spec fn bin_chunk_length(content: Seq<u8>) -> u32 {
    let unpadded = 8u32.wrapping_add(content.len() as u32);
    unpadded.wrapping_add(chunk_padding_amount(unpadded))
}

impl GlbBinChunk {
    /// The framed byte length of this chunk.
    pub fn length_in_bytes(&self) -> (r: u32)
        ensures
            r == bin_chunk_length(self.content@),
    {
        let unpadded: u32 = 8u32.wrapping_add(self.content.len() as u32);
        unpadded.wrapping_add(calc_chunk_padding_amount(unpadded))
    }
}

/// The fixed 12-byte file header: the magic word, the container format
/// version, and a total length that is still left at zero.
pub open spec fn glb_header_bytes() -> Seq<u8> {
    u32_le_bytes(0x46546C67) + u32_le_bytes(GLTF_CONTAINER_FORMAT_VERSION) + u32_le_bytes(0)
}

impl Glb {
    /// The total byte length of the container written so far: its fixed
    /// header alone.
    pub fn get_total_length_in_bytes(&self) -> (r: u32)
        ensures
            r == glb_header_bytes().len(),
    {
        12
    }

    /// Serializes the container: the fixed 12-byte header.
    pub fn write(&self) -> (r: Vec<u8>)
        ensures
            r@ == glb_header_bytes(),
    {
        let mut out: Vec<u8> = Vec::new();
        write_u32_le(0x46546C67, &mut out);
        write_u32_le(GLTF_CONTAINER_FORMAT_VERSION, &mut out);
        write_u32_le(0, &mut out);
        proof {
            assert(out@ =~= glb_header_bytes());
        }
        out
    }
}

} // verus!
