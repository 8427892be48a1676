//! The FSB5 sound-bank format: bit-field helpers, the per-sample records
//! with their trailing chunk lists, and the bank header that ties them to a
//! sound format.

use vstd::prelude::*;

pub mod pcm;
pub mod sound_formats;

pub use sound_formats::SoundFormat;

use crate::bin_utils::{le32, le64, read_u32_le, read_u64_le, read_x_bytes, read_u8_le};
use crate::error::Nups2Error;
use crate::strutil::string_from_utf8;
use vstd::utf8::{decode_utf8, valid_utf8};

verus! {

/// The bits of `val` from `start` (inclusive) for `len` positions; the upper
/// cut-off is taken modulo 64, as the hardware shift does, so a field that
/// would end exactly at bit 64 masks everything away.
pub open spec fn g_bits64_spec(val: u64, start: nat, len: nat) -> u64 {
    let mask = ((1u64 << (((start + len) % 64) as u64)) - 1) as u64;
    ((val & mask) >> ((start % 64) as u64)) as u64
}

/// The bits of `val` from `start` (inclusive) for `len` positions, with the
/// upper cut-off taken modulo 32.
pub open spec fn g_bits32_spec(val: u32, start: nat, len: nat) -> u32 {
    let mask = ((1u32 << (((start + len) % 32) as u32)) - 1) as u32;
    ((val & mask) >> ((start % 32) as u32)) as u32
}

/// Extracts a bit field from a 64-bit word.
pub fn g_bits64(val: u64, start: usize, len: usize) -> (r: u64)
    requires
        start + len <= usize::MAX,
    ensures
        r == g_bits64_spec(val, start as nat, len as nat),
{
    let stop: usize = start + len;
    let shift: u64 = (stop % 64) as u64;
    proof {
        assert(1u64 << shift >= 1) by (bit_vector)
            requires
                shift < 64,
        ;
    }
    let mask: u64 = (1u64 << shift) - 1;
    (val & mask) >> ((start % 64) as u64)
}

/// Extracts a bit field from a 32-bit word.
pub fn g_bits32(val: u32, start: usize, len: usize) -> (r: u32)
    requires
        start + len <= usize::MAX,
    ensures
        r == g_bits32_spec(val, start as nat, len as nat),
{
    let stop: usize = start + len;
    let shift: u32 = (stop % 32) as u32;
    proof {
        assert(1u32 << shift >= 1) by (bit_vector)
            requires
                shift < 32,
        ;
    }
    let mask: u32 = (1u32 << shift) - 1;
    (val & mask) >> ((start % 32) as u32)
}

} // verus!

verus! {

/// The mathematical content of one per-sample chunk.
pub ghost enum Fsb5SampleChunkModel {
    Channels(u8),
    Frequency(u32),
    Loop(u32, u32),
    Xmaseek(Seq<u8>),
    Dspcoeff(Seq<u8>),
    Xwmadata(Seq<u8>),
    Vorbisdata { crc32: u32, unknown: Seq<u8> },
    Unknown { chunk_type_id: u32, data: Seq<u8> },
}

/// One per-sample chunk, tagged by the type word of its header.
#[derive(Debug)]
pub enum Fsb5SampleChunk {
    Channels(u8),
    Frequency(u32),
    Loop(u32, u32),
    Xmaseek(Vec<u8>),
    Dspcoeff(Vec<u8>),
    Xwmadata(Vec<u8>),
    Vorbisdata { crc32: u32, unknown: Vec<u8> },
    Unknown { chunk_type_id: u32, data: Vec<u8> },
}

impl View for Fsb5SampleChunk {
    type V = Fsb5SampleChunkModel;

    open spec fn view(&self) -> Fsb5SampleChunkModel {
        match self {
            Fsb5SampleChunk::Channels(v) => Fsb5SampleChunkModel::Channels(*v),
            Fsb5SampleChunk::Frequency(v) => Fsb5SampleChunkModel::Frequency(*v),
            Fsb5SampleChunk::Loop(a, b) => Fsb5SampleChunkModel::Loop(*a, *b),
            Fsb5SampleChunk::Xmaseek(d) => Fsb5SampleChunkModel::Xmaseek(d@),
            Fsb5SampleChunk::Dspcoeff(d) => Fsb5SampleChunkModel::Dspcoeff(d@),
            Fsb5SampleChunk::Xwmadata(d) => Fsb5SampleChunkModel::Xwmadata(d@),
            Fsb5SampleChunk::Vorbisdata { crc32, unknown } => Fsb5SampleChunkModel::Vorbisdata {
                crc32: *crc32,
                unknown: unknown@,
            },
            Fsb5SampleChunk::Unknown { chunk_type_id, data } => Fsb5SampleChunkModel::Unknown {
                chunk_type_id: *chunk_type_id,
                data: data@,
            },
        }
    }
}

/// Parses one chunk body at `pos`, as the already-read chunk header sized
/// and typed it. The fixed-size kinds insist on their own sizes; the
/// vorbis kind needs at least its checksum word; any unrecognized type word
/// keeps its raw bytes.
pub open spec fn parse_sample_chunk(data: Seq<u8>, pos: int, chunk_size: u32, chunk_type: u32) -> Option<
    (Fsb5SampleChunkModel, int),
> {
    if pos < 0 {
        None
    } else if chunk_type == 1 {
        if chunk_size != 1 || pos + 1 > data.len() {
            None
        } else {
            Some((Fsb5SampleChunkModel::Channels(data[pos]), pos + 1))
        }
    } else if chunk_type == 2 {
        if chunk_size != 8 || pos + 4 > data.len() {
            None
        } else {
            Some((Fsb5SampleChunkModel::Frequency(le32(data.subrange(pos, pos + 4))), pos + 4))
        }
    } else if chunk_type == 3 {
        if chunk_size != 16 || pos + 8 > data.len() {
            None
        } else {
            Some(
                (
                    Fsb5SampleChunkModel::Loop(
                        le32(data.subrange(pos, pos + 4)),
                        le32(data.subrange(pos + 4, pos + 8)),
                    ),
                    pos + 8,
                ),
            )
        }
    } else if chunk_type == 6 || chunk_type == 7 || chunk_type == 10 {
        if pos + chunk_size > data.len() {
            None
        } else {
            let body = data.subrange(pos, pos + chunk_size);
            Some(
                (
                    if chunk_type == 6 {
                        Fsb5SampleChunkModel::Xmaseek(body)
                    } else if chunk_type == 7 {
                        Fsb5SampleChunkModel::Dspcoeff(body)
                    } else {
                        Fsb5SampleChunkModel::Xwmadata(body)
                    },
                    pos + chunk_size,
                ),
            )
        }
    } else if chunk_type == 11 {
        if chunk_size < 4 || pos + chunk_size > data.len() {
            None
        } else {
            Some(
                (
                    Fsb5SampleChunkModel::Vorbisdata {
                        crc32: le32(data.subrange(pos, pos + 4)),
                        unknown: data.subrange(pos + 4, pos + chunk_size),
                    },
                    pos + chunk_size,
                ),
            )
        }
    } else {
        if pos + chunk_size > data.len() {
            None
        } else {
            Some(
                (
                    Fsb5SampleChunkModel::Unknown {
                        chunk_type_id: chunk_type,
                        data: data.subrange(pos, pos + chunk_size),
                    },
                    pos + chunk_size,
                ),
            )
        }
    }
}

impl Fsb5SampleChunk {
    /// Reads one chunk body from the cursor, as the already-read chunk
    /// header sized and typed it.
    pub fn from_stream(data: &[u8], pos: &mut usize, chunk_size: u32, chunk_type: u32) -> (r:
        Result<Fsb5SampleChunk, Nups2Error>)
        ensures
            match r {
                Ok(c) => parse_sample_chunk(data@, *old(pos) as int, chunk_size, chunk_type)
                    == Some((c@, *final(pos) as int)),
                Err(_) => {
                    &&& parse_sample_chunk(
                        data@,
                        *old(pos) as int,
                        chunk_size,
                        chunk_type,
                    ) is None
                    &&& *final(pos) == *old(pos)
                },
            },
    {
        let mut p: usize = *pos;
        let chunk: Fsb5SampleChunk = match chunk_type {
            1 => {
                if chunk_size != 1 {
                    return Err(Nups2Error::Other("Fsb5SampleChunk::Channels: chunk_size != 1"));
                }
                match read_u8_le(data, &mut p) {
                    Ok(v) => Fsb5SampleChunk::Channels(v),
                    Err(e) => { return Err(e) },
                }
            },
            2 => {
                if chunk_size != 8 {
                    return Err(Nups2Error::Other("Fsb5SampleChunk::Frequency: chunk_size != 8"));
                }
                match read_u32_le(data, &mut p) {
                    Ok(v) => Fsb5SampleChunk::Frequency(v),
                    Err(e) => { return Err(e) },
                }
            },
            3 => {
                if chunk_size != 16 {
                    return Err(Nups2Error::Other("Fsb5SampleChunk::Loop: chunk_size != 16"));
                }
                let v1: u32 = match read_u32_le(data, &mut p) {
                    Ok(v) => v,
                    Err(e) => { return Err(e) },
                };
                let v2: u32 = match read_u32_le(data, &mut p) {
                    Ok(v) => v,
                    Err(e) => { return Err(e) },
                };
                Fsb5SampleChunk::Loop(v1, v2)
            },
            6 => {
                match read_x_bytes(data, &mut p, chunk_size as usize) {
                    Ok(v) => Fsb5SampleChunk::Xmaseek(v),
                    Err(e) => { return Err(e) },
                }
            },
            7 => {
                match read_x_bytes(data, &mut p, chunk_size as usize) {
                    Ok(v) => Fsb5SampleChunk::Dspcoeff(v),
                    Err(e) => { return Err(e) },
                }
            },
            10 => {
                match read_x_bytes(data, &mut p, chunk_size as usize) {
                    Ok(v) => Fsb5SampleChunk::Xwmadata(v),
                    Err(e) => { return Err(e) },
                }
            },
            11 => {
                if chunk_size < 4 {
                    return Err(Nups2Error::Other("Fsb5SampleChunk::Vorbisdata: chunk_size < 4"));
                }
                let crc32: u32 = match read_u32_le(data, &mut p) {
                    Ok(v) => v,
                    Err(e) => { return Err(e) },
                };
                let unknown: Vec<u8> = match read_x_bytes(data, &mut p, (chunk_size - 4) as usize) {
                    Ok(v) => v,
                    Err(e) => { return Err(e) },
                };
                Fsb5SampleChunk::Vorbisdata { crc32, unknown }
            },
            other => {
                match read_x_bytes(data, &mut p, chunk_size as usize) {
                    Ok(v) => Fsb5SampleChunk::Unknown { chunk_type_id: other, data: v },
                    Err(e) => { return Err(e) },
                }
            },
        };
        *pos = p;
        Ok(chunk)
    }
}

} // verus!

verus! {

/// The mathematical content of one sample record.
pub ghost struct Fsb5SampleModel {
    pub name: Seq<char>,
    pub frequency: u32,
    pub channels: u8,
    pub data_offset: u64,
    pub data_end: u64,
    pub samples: u32,
    pub chunks: Seq<Fsb5SampleChunkModel>,
}

/// One sample: its name, playback figures, the span of its raw data within
/// the bank, and its trailing chunks.
#[derive(Debug)]
pub struct Fsb5Sample {
    pub name: String,
    pub frequency: u32,
    pub channels: u8,
    pub data_offset: u64,
    pub data_end: u64,
    pub samples: u32,
    pub chunks: Vec<Fsb5SampleChunk>,
}

impl View for Fsb5Sample {
    type V = Fsb5SampleModel;

    open spec fn view(&self) -> Fsb5SampleModel {
        Fsb5SampleModel {
            name: self.name@,
            frequency: self.frequency,
            channels: self.channels,
            data_offset: self.data_offset,
            data_end: self.data_end,
            samples: self.samples,
            chunks: self.chunks@.map_values(|c: Fsb5SampleChunk| c@),
        }
    }
}

/// Parses the chunk list at `pos`: each chunk has a 4-byte header packing a
/// continuation flag, a size, and a type; the flag says whether another
/// chunk follows.
pub open spec fn parse_chunk_list(data: Seq<u8>, pos: int) -> Option<(
    Seq<Fsb5SampleChunkModel>,
    int,
)>
    decreases data.len() - pos,
{
    if pos < 0 || pos + 4 > data.len() {
        None
    } else {
        let raw = le32(data.subrange(pos, pos + 4));
        let more = g_bits32_spec(raw, 0, 1) == 1;
        let chunk_size = g_bits32_spec(raw, 1, 24);
        let chunk_type = g_bits32_spec(raw, 25, 7);
        match parse_sample_chunk(data, pos + 4, chunk_size, chunk_type) {
            None => None,
            Some((c, pos2)) => {
                if !more {
                    Some((seq![c], pos2))
                } else if pos2 + 4 > data.len() {
                    None
                } else {
                    match parse_chunk_list(data, pos2) {
                        None => None,
                        Some((rest, pos3)) => Some((seq![c] + rest, pos3)),
                    }
                }
            },
        }
    }
}

/// The frequency chunk's value, from the first frequency chunk at or after
/// position `i`, if there is one.
pub open spec fn first_frequency_from(chunks: Seq<Fsb5SampleChunkModel>, i: int) -> Option<u32>
    decreases chunks.len() - i,
{
    if i < 0 || i >= chunks.len() {
        None
    } else {
        match chunks[i] {
            Fsb5SampleChunkModel::Frequency(v) => Some(v),
            _ => first_frequency_from(chunks, i + 1),
        }
    }
}

/// The sample rate a frequency code number stands for, if it is recognized.
pub open spec fn frequency_for_number(n: u8) -> Option<u32> {
    if n == 1 {
        Some(8000u32)
    } else if n == 2 {
        Some(11000u32)
    } else if n == 3 {
        Some(11025u32)
    } else if n == 4 {
        Some(16000u32)
    } else if n == 5 {
        Some(22050u32)
    } else if n == 6 {
        Some(24000u32)
    } else if n == 7 {
        Some(32000u32)
    } else if n == 8 {
        Some(44100u32)
    } else if n == 9 {
        Some(48000u32)
    } else {
        None
    }
}

/// Parses one sample record at `pos`: a packed 8-byte word carrying the
/// continuation flag, a frequency code, the channel count, the data offset
/// in 16-byte units, and the sample count; then the chunk list when the
/// flag says one follows. The frequency comes from the first frequency
/// chunk, or from the code number's table entry; a sample with neither is
/// rejected. The end of the data span is left at zero.
pub open spec fn parse_sample(data: Seq<u8>, pos: int, name: Seq<char>) -> Option<(
    Fsb5SampleModel,
    int,
)> {
    if pos < 0 || pos + 8 > data.len() {
        None
    } else {
        let raw = le64(data.subrange(pos, pos + 8));
        let more = g_bits64_spec(raw, 0, 1) == 1;
        let frequency_number = g_bits64_spec(raw, 1, 4) as u8;
        let channels = (g_bits64_spec(raw, 5, 1) + 1) as u8;
        let data_offset = (g_bits64_spec(raw, 6, 28) * 16) as u64;
        let samples = g_bits64_spec(raw, 34, 30) as u32;
        let chunks_parse = if more {
            parse_chunk_list(data, pos + 8)
        } else {
            Some((Seq::<Fsb5SampleChunkModel>::empty(), pos + 8))
        };
        match chunks_parse {
            None => None,
            Some((chunks, pos2)) => {
                let frequency = match first_frequency_from(chunks, 0) {
                    Some(v) => Some(v),
                    None => frequency_for_number(frequency_number),
                };
                match frequency {
                    None => None,
                    Some(freq) => Some(
                        (
                            Fsb5SampleModel {
                                name,
                                frequency: freq,
                                channels,
                                data_offset,
                                data_end: 0,
                                samples,
                                chunks,
                            },
                            pos2,
                        ),
                    ),
                }
            },
        }
    }
}

/// Steps the frequency search past chunks that are known not to carry one.
proof fn lemma_first_frequency_skip(chunks: Seq<Fsb5SampleChunkModel>, i: int)
    requires
        0 <= i <= chunks.len(),
        forall|j: int| 0 <= j < i ==> !((#[trigger] chunks[j]) is Frequency),
    ensures
        first_frequency_from(chunks, 0) == first_frequency_from(chunks, i),
    decreases i,
{
    if i > 0 {
        lemma_first_frequency_skip(chunks, i - 1);
    }
}

/// Finds the first frequency chunk's value.
fn find_first_frequency(chunks: &Vec<Fsb5SampleChunk>) -> (r: Option<u32>)
    ensures
        r == first_frequency_from(chunks@.map_values(|c: Fsb5SampleChunk| c@), 0),
{
    let ghost models = chunks@.map_values(|c: Fsb5SampleChunk| c@);
    let n: usize = chunks.len();
    let mut i: usize = 0;
    while i < n
        invariant
            i <= n,
            n == chunks@.len(),
            models == chunks@.map_values(|c: Fsb5SampleChunk| c@),
            models.len() == n,
            forall|j: int| 0 <= j < n ==> #[trigger] chunks@[j]@ == models[j],
            forall|j: int| 0 <= j < i ==> !((#[trigger] models[j]) is Frequency),
        decreases n - i,
    {
        match &chunks[i] {
            Fsb5SampleChunk::Frequency(v) => {
                proof {
                    lemma_first_frequency_skip(models, i as int);
                }
                return Some(*v);
            },
            _ => {},
        }
        i = i + 1;
    }
    proof {
        lemma_first_frequency_skip(models, n as int);
    }
    None
}

impl Fsb5Sample {
    /// Reads one sample record from the cursor, filing it under the given
    /// name.
    #[verifier::rlimit(50)]
    pub fn from_stream(data: &[u8], pos: &mut usize, name: String) -> (r: Result<
        Fsb5Sample,
        Nups2Error,
    >)
        ensures
            match r {
                Ok(s) => {
                    &&& parse_sample(data@, *old(pos) as int, name@) == Some(
                        (s@, *final(pos) as int),
                    )
                    &&& *final(pos) <= data@.len()
                },
                Err(_) => {
                    &&& parse_sample(data@, *old(pos) as int, name@) is None
                    &&& *final(pos) == *old(pos)
                },
            },
    {
        let ghost pos0: int = *pos as int;
        let mut p: usize = *pos;
        let raw: u64 = match read_u64_le(data, &mut p) {
            Ok(v) => v,
            Err(e) => { return Err(e) },
        };
        let mut more: bool = g_bits64(raw, 0, 1) == 1;
        let frequency_number: u8 = g_bits64(raw, 1, 4) as u8;
        let channel_bit: u64 = g_bits64(raw, 5, 1);
        proof {
            assert(g_bits64_spec(raw, 5nat, 1nat) == ((raw & (((1u64 << 6u64) - 1) as u64))
                >> 5u64));
            assert(((raw & (((1u64 << 6u64) - 1) as u64)) >> 5u64) <= 1) by (bit_vector);
        }
        let channels: u8 = (channel_bit + 1) as u8;
        let offset_units: u64 = g_bits64(raw, 6, 28);
        proof {
            assert(g_bits64_spec(raw, 6nat, 28nat) == ((raw & (((1u64 << 34u64) - 1) as u64))
                >> 6u64));
            assert(((raw & (((1u64 << 34u64) - 1) as u64)) >> 6u64) < 0x10000000)
                by (bit_vector);
        }
        let data_offset: u64 = offset_units * 16;
        let samples_raw: u64 = g_bits64(raw, 34, 30);
        proof {
            assert(g_bits64_spec(raw, 34nat, 30nat) == ((raw & (((1u64 << 0u64) - 1) as u64))
                >> 34u64));
            assert(((raw & (((1u64 << 0u64) - 1) as u64)) >> 34u64) == 0) by (bit_vector);
        }
        let samples: u32 = samples_raw as u32;
        let ghost first_more: bool = more;
        let mut chunks: Vec<Fsb5SampleChunk> = Vec::new();
        proof {
            match parse_chunk_list(data@, p as int) {
                None => {},
                Some((rest, end)) => {
                    assert(Seq::<Fsb5SampleChunkModel>::empty() + rest =~= rest);
                },
            }
        }
        while more
            invariant
                0 <= pos0,
                pos0 == *old(pos) as int,
                *pos == *old(pos),
                pos0 + 8 <= data@.len(),
                p <= data@.len(),
                raw == le64(data@.subrange(pos0, pos0 + 8)),
                first_more == (g_bits64_spec(raw, 0, 1) == 1),
                first_more ==> parse_chunk_list(data@, pos0 + 8) == (
                if !more {
                    Some((chunks@.map_values(|c: Fsb5SampleChunk| c@), p as int))
                } else {
                    match parse_chunk_list(data@, p as int) {
                        None => None::<(Seq<Fsb5SampleChunkModel>, int)>,
                        Some((rest, end)) => Some(
                            (chunks@.map_values(|c: Fsb5SampleChunk| c@) + rest, end),
                        ),
                    }
                }),
                !first_more ==> (!more && chunks@.len() == 0 && p as int == pos0 + 8),
            decreases data@.len() - p,
        {
            let ghost old_views = chunks@.map_values(|c: Fsb5SampleChunk| c@);
            let ghost p_before: int = p as int;
            let chunk_header: u32 = match read_u32_le(data, &mut p) {
                Ok(v) => v,
                Err(e) => { return Err(e) },
            };
            let next_more: bool = g_bits32(chunk_header, 0, 1) == 1;
            let chunk_size: u32 = g_bits32(chunk_header, 1, 24);
            let chunk_type: u32 = g_bits32(chunk_header, 25, 7);
            let chunk: Fsb5SampleChunk = match Fsb5SampleChunk::from_stream(
                data,
                &mut p,
                chunk_size,
                chunk_type,
            ) {
                Ok(v) => v,
                Err(e) => {
                    proof {
                        assert(parse_chunk_list(data@, p_before) is None);
                    }
                    return Err(e);
                },
            };
            chunks.push(chunk);
            proof {
                assert(chunks@.map_values(|c: Fsb5SampleChunk| c@) =~= old_views.push(
                    chunks@.last()@,
                ));
            }
            if !next_more {
                proof {
                    assert(parse_chunk_list(data@, p_before) == Some(
                        (seq![chunks@.last()@], p as int),
                    ));
                    match parse_chunk_list(data@, pos0 + 8) {
                        None => {},
                        Some((full, end)) => {
                            assert(old_views + seq![chunks@.last()@] =~= chunks@.map_values(
                                |c: Fsb5SampleChunk| c@,
                            ));
                        },
                    }
                }
            } else {
                if data.len() < 4 || p > data.len() - 4 {
                    proof {
                        assert(parse_chunk_list(data@, p_before) is None);
                    }
                    return Err(Nups2Error::Truncated);
                }
                proof {
                    match parse_chunk_list(data@, p as int) {
                        None => {
                            assert(parse_chunk_list(data@, p_before) is None);
                        },
                        Some((rest, end2)) => {
                            assert(parse_chunk_list(data@, p_before) == Some(
                                (seq![chunks@.last()@] + rest, end2),
                            ));
                            assert(old_views + (seq![chunks@.last()@] + rest)
                                =~= chunks@.map_values(|c: Fsb5SampleChunk| c@) + rest);
                        },
                    }
                }
            }
            more = next_more;
        }
        let frequency: u32 = match find_first_frequency(&chunks) {
            Some(v) => v,
            None => {
                match frequency_number {
                    1 => 8000,
                    2 => 11000,
                    3 => 11025,
                    4 => 16000,
                    5 => 22050,
                    6 => 24000,
                    7 => 32000,
                    8 => 44100,
                    9 => 48000,
                    _ => {
                        return Err(
                            Nups2Error::Other("Fsb5Sample: unable to figure out frequency"),
                        );
                    },
                }
            },
        };
        *pos = p;
        let result = Fsb5Sample {
            name,
            frequency,
            channels,
            data_offset,
            data_end: 0,
            samples,
            chunks,
        };
        proof {
            assert(parse_sample(data@, pos0, result.name@) is Some);
            assert(result@.chunks =~= chunks@.map_values(|c: Fsb5SampleChunk| c@));
            let spec_model = parse_sample(data@, pos0, result.name@).unwrap().0;
            assert(spec_model.name == result@.name);
            assert(spec_model.frequency == result@.frequency);
            assert(spec_model.channels == result@.channels);
            assert(spec_model.data_offset == result@.data_offset);
            assert(spec_model.data_end == result@.data_end);
            assert(spec_model.samples == result@.samples);
            assert(spec_model.chunks == result@.chunks);
            assert(parse_sample(data@, pos0, result.name@).unwrap().1 == p as int);
            assert(parse_sample(data@, pos0, result.name@) == Some((result@, p as int)));
        }
        Ok(result)
    }

    /// Copies this sample's raw data span out of the bank.
    pub fn read(&self, data: &[u8]) -> (r: Result<Vec<u8>, Nups2Error>)
        ensures
            match r {
                Ok(v) => {
                    &&& self@.data_offset <= self@.data_end <= data@.len()
                    &&& v@ == data@.subrange(self@.data_offset as int, self@.data_end as int)
                },
                Err(e) => {
                    &&& !(self@.data_offset <= self@.data_end <= data@.len())
                    &&& e is Truncated
                },
            },
    {
        if self.data_end < self.data_offset || self.data_end > data.len() as u64 {
            return Err(Nups2Error::Truncated);
        }
        let mut p: usize = self.data_offset as usize;
        read_x_bytes(data, &mut p, (self.data_end - self.data_offset) as usize)
    }
}

/// The position of the first NUL byte at or after `i`, or -1 when there is
/// none.
pub open spec fn first_nul_from(data: Seq<u8>, i: int) -> int
    decreases data.len() - i,
{
    if i < 0 || i >= data.len() {
        -1
    } else if data[i] == 0 {
        i
    } else {
        first_nul_from(data, i + 1)
    }
}

/// What reading a NUL-terminated string at `pos` yields: the bytes up to
/// the first NUL, as text, and the position after the NUL; nothing when no
/// NUL follows or the bytes are not UTF-8.
pub open spec fn parse_nul_string(data: Seq<u8>, pos: int) -> Option<(Seq<char>, int)> {
    let nul = first_nul_from(data, pos);
    if nul < 0 {
        None
    } else {
        let bytes = data.subrange(pos, nul);
        if valid_utf8(bytes) {
            Some((decode_utf8(bytes), nul + 1))
        } else {
            None
        }
    }
}

/// Steps the NUL search past bytes that are known not to be NUL.
proof fn lemma_first_nul_skip(data: Seq<u8>, pos: int, i: int)
    requires
        0 <= pos <= i <= data.len(),
        forall|j: int| pos <= j < i ==> data[j] != 0,
    ensures
        first_nul_from(data, pos) == first_nul_from(data, i),
    decreases i - pos,
{
    if pos < i {
        lemma_first_nul_skip(data, pos + 1, i);
    }
}

/// Reads a NUL-terminated string from the cursor, leaving the cursor after
/// the NUL.
pub fn read_string(data: &[u8], pos: &mut usize) -> (r: Result<String, Nups2Error>)
    ensures
        match r {
            Ok(s) => parse_nul_string(data@, *old(pos) as int) == Some((s@, *final(pos) as int)),
            Err(_) => {
                &&& parse_nul_string(data@, *old(pos) as int) is None
                &&& *final(pos) == *old(pos)
            },
        },
{
    let ghost pos0: int = *pos as int;
    if *pos >= data.len() {
        return Err(Nups2Error::Truncated);
    }
    let mut end: usize = *pos;
    while end < data.len() && data[end] != 0
        invariant
            pos0 <= end <= data@.len(),
            0 <= pos0,
            forall|j: int| pos0 <= j < end ==> data@[j] != 0,
        decreases data@.len() - end,
    {
        end = end + 1;
    }
    proof {
        lemma_first_nul_skip(data@, pos0, end as int);
    }
    if end >= data.len() {
        return Err(Nups2Error::Truncated);
    }
    let mut p: usize = *pos;
    let bytes: Vec<u8> = match read_x_bytes(data, &mut p, end - *pos) {
        Ok(v) => v,
        Err(e) => { return Err(e) },
    };
    let text: String = match string_from_utf8(bytes) {
        Ok(v) => v,
        Err(e) => { return Err(e) },
    };
    *pos = end + 1;
    Ok(text)
}

} // verus!

verus! {

/// What repacking a sample in a given format yields: PCM samples get the
/// WAV treatment, an MPEG sample's span is copied through unchanged, and
/// every other format is unsupported.
pub open spec fn sample_rebuild_spec(
    sample: Fsb5SampleModel,
    format_name: Seq<char>,
    data: Seq<u8>,
    pos: int,
) -> Option<(Seq<u8>, int)> {
    if format_name == "pcm8"@ || format_name == "pcm16"@ || format_name == "pcm32"@ {
        crate::fsb5::pcm::pcm_rebuild_spec(sample, format_name, data, pos)
    } else if format_name == "mpeg"@ {
        if sample.data_end < sample.data_offset {
            None
        } else {
            let span = sample.data_end - sample.data_offset;
            if pos < 0 || pos + span > data.len() {
                None
            } else {
                Some((data.subrange(pos, pos + span), pos + span))
            }
        }
    } else {
        None
    }
}

impl Fsb5Sample {
    /// Repacks this sample for the given sound format, reading its raw
    /// bytes from the cursor: WAV for the PCM widths, a plain copy for
    /// MPEG; every other format, the vorbis one included, is unsupported.
    pub fn rebuild(&self, data: &[u8], pos: &mut usize, sound_format: &SoundFormat) -> (r: Result<
        Vec<u8>,
        Nups2Error,
    >)
        ensures
            match r {
                Ok(v) => sample_rebuild_spec(self@, sound_format.name@, data@, *old(pos) as int)
                    == Some((v@, *final(pos) as int)),
                Err(_) => {
                    &&& sample_rebuild_spec(
                        self@,
                        sound_format.name@,
                        data@,
                        *old(pos) as int,
                    ) is None
                    &&& *final(pos) == *old(pos)
                },
            },
    {
        if crate::strutil::str_eq(sound_format.name, "pcm8") || crate::strutil::str_eq(
            sound_format.name,
            "pcm16",
        ) || crate::strutil::str_eq(sound_format.name, "pcm32") {
            crate::fsb5::pcm::rebuild(self, data, pos, sound_format)
        } else if crate::strutil::str_eq(sound_format.name, "mpeg") {
            if self.data_end < self.data_offset {
                return Err(Nups2Error::Truncated);
            }
            let span: u64 = self.data_end - self.data_offset;
            if (span as u128) > (data.len() as u128) {
                return Err(Nups2Error::Truncated);
            }
            crate::bin_utils::read_big_x_bytes(data, pos, span as usize)
        } else {
            Err(Nups2Error::Other("Fsb5: Unsupported sound_format"))
        }
    }
}

} // verus!

verus! {

/// The mathematical content of a loaded sound bank.
pub ghost struct Fsb5Model {
    pub samples: Seq<Fsb5SampleModel>,
    pub sound_format: crate::fsb5::sound_formats::SoundFormatModel,
}

/// A loaded sound bank: its samples and the one format they all share.
#[derive(Debug)]
pub struct Fsb5 {
    pub samples: Vec<Fsb5Sample>,
    pub sound_format: SoundFormat,
}

impl View for Fsb5 {
    type V = Fsb5Model;

    open spec fn view(&self) -> Fsb5Model {
        Fsb5Model {
            samples: self.samples@.map_values(|s: Fsb5Sample| s@),
            sound_format: self.sound_format@,
        }
    }
}

/// Parses `n` sample records in a row starting at `pos`; the record at
/// index `i` is provisionally named with `i`'s decimal rendering.
pub open spec fn parse_fsb5_samples(data: Seq<u8>, pos: int, i: nat, n: nat) -> Option<(
    Seq<Fsb5SampleModel>,
    int,
)>
    decreases n,
{
    if n == 0 {
        Some((Seq::empty(), pos))
    } else {
        match parse_sample(data, pos, crate::strutil::dec_chars(i)) {
            None => None,
            Some((s, pos2)) => match parse_fsb5_samples(data, pos2, i + 1, (n - 1) as nat) {
                None => None,
                Some((rest, pos3)) => Some((seq![s] + rest, pos3)),
            },
        }
    }
}

/// The name the table files under index `i`: the NUL-terminated string at
/// the table's start plus the `i`th offset word.
pub open spec fn table_name(data: Seq<u8>, table_start: int, i: int) -> Option<Seq<char>> {
    let name_offset = le32(data.subrange(table_start + 4 * i, table_start + 4 * i + 4));
    match parse_nul_string(data, table_start + name_offset) {
        None => None,
        Some((name, _)) => Some(name),
    }
}

/// The samples with their table names applied, when every lookup succeeds.
pub open spec fn named_samples(
    data: Seq<u8>,
    samples: Seq<Fsb5SampleModel>,
    table_start: int,
) -> Option<Seq<Fsb5SampleModel>> {
    if forall|i: int| 0 <= i < samples.len() ==> table_name(data, table_start, i) is Some {
        Some(
            Seq::new(
                samples.len(),
                |i: int|
                    Fsb5SampleModel {
                        name: table_name(data, table_start, i).unwrap(),
                        ..samples[i]
                    },
            ),
        )
    } else {
        None
    }
}

/// The samples with their data spans closed off: each sample's data runs to
/// the next sample's offset, and the last sample's to its own offset plus
/// the bank's data size, wrapped as the machine word would.
pub open spec fn spans_closed(samples: Seq<Fsb5SampleModel>, data_size: u32) -> Seq<
    Fsb5SampleModel,
> {
    Seq::new(
        samples.len(),
        |i: int|
            Fsb5SampleModel {
                data_end: if i == samples.len() - 1 {
                    samples[i].data_offset.wrapping_add(data_size as u64)
                } else {
                    samples[i + 1].data_offset
                },
                ..samples[i]
            },
    )
}


/// The facts the bank reader's loops carry about the already-parsed header.
pub open spec fn fsb5_header_ctx(
    data: Seq<u8>,
    pos0: int,
    version: u32,
    num_samples: u32,
    sample_header_size: u32,
    name_table_size: u32,
    data_size: u32,
    mode: u32,
    hdr_end: int,
) -> bool {
    &&& 0 <= pos0
    &&& pos0 + 60 <= data.len()
    &&& hdr_end <= data.len()
    &&& data.subrange(pos0, pos0 + 4) == seq![0x46u8, 0x53u8, 0x42u8, 0x35u8]
    &&& version == le32(data.subrange(pos0 + 4, pos0 + 8))
    &&& num_samples == le32(data.subrange(pos0 + 8, pos0 + 12))
    &&& sample_header_size == le32(data.subrange(pos0 + 12, pos0 + 16))
    &&& name_table_size == le32(data.subrange(pos0 + 16, pos0 + 20))
    &&& data_size == le32(data.subrange(pos0 + 20, pos0 + 24))
    &&& mode == le32(data.subrange(pos0 + 24, pos0 + 28))
    &&& hdr_end == if version == 0 {
        pos0 + 64
    } else {
        pos0 + 60
    }
}

/// Parses a whole sound bank at `pos`: the fixed header, the sample
/// records, the optional name table, and the span fixups; the cursor is
/// left where the sample data starts.
pub open spec fn parse_fsb5(data: Seq<u8>, pos: int) -> Option<(Fsb5Model, int)> {
    if pos < 0 || pos + 60 > data.len() {
        None
    } else if data.subrange(pos, pos + 4) != seq![0x46u8, 0x53u8, 0x42u8, 0x35u8] {
        None
    } else {
        let version = le32(data.subrange(pos + 4, pos + 8));
        let num_samples = le32(data.subrange(pos + 8, pos + 12));
        let sample_header_size = le32(data.subrange(pos + 12, pos + 16));
        let name_table_size = le32(data.subrange(pos + 16, pos + 20));
        let data_size = le32(data.subrange(pos + 20, pos + 24));
        let mode = le32(data.subrange(pos + 24, pos + 28));
        let hdr_end: int = if version == 0 {
            pos + 64
        } else {
            pos + 60
        };
        if hdr_end > data.len() {
            None
        } else {
            match crate::fsb5::sound_formats::format_for_id(mode as u8) {
                None => None,
                Some(sf) => match parse_fsb5_samples(data, hdr_end, 0, num_samples as nat) {
                    None => None,
                    Some((samples0, samples_end)) => {
                        let renamed = if name_table_size != 0 {
                            if samples_end + 4 * num_samples > data.len() {
                                None
                            } else {
                                named_samples(data, samples0, samples_end)
                            }
                        } else {
                            Some(samples0)
                        };
                        match renamed {
                            None => None,
                            Some(named) => {
                                let end_pos = hdr_end + sample_header_size + name_table_size;
                                if end_pos > usize::MAX {
                                    None
                                } else {
                                    Some(
                                        (
                                            Fsb5Model {
                                                samples: spans_closed(named, data_size),
                                                sound_format: sf,
                                            },
                                            end_pos,
                                        ),
                                    )
                                }
                            },
                        }
                    },
                },
            }
        }
    }
}

impl Fsb5 {
    /// Reads a whole sound bank from the cursor: the header with its magic
    /// value and format id, the sample records (provisionally named by
    /// index), the name table when the header declares one, and the span
    /// fixups. The cursor is left at the declared start of the sample data.
    #[verifier::rlimit(100)]
    pub fn new(data: &[u8], pos: &mut usize) -> (r: Result<Fsb5, Nups2Error>)
        ensures
            match r {
                Ok(bank) => parse_fsb5(data@, *old(pos) as int) == Some(
                    (bank@, *final(pos) as int),
                ),
                Err(_) => {
                    &&& parse_fsb5(data@, *old(pos) as int) is None
                    &&& *final(pos) == *old(pos)
                },
            },
    {
        let ghost pos0: int = *pos as int;
        let mut p: usize = *pos;
        let magic: Vec<u8> = match read_x_bytes(data, &mut p, 4) {
            Ok(v) => v,
            Err(e) => { return Err(e) },
        };
        if !(magic[0] == 0x46 && magic[1] == 0x53 && magic[2] == 0x42 && magic[3] == 0x35) {
            proof {
                assert(data@.subrange(pos0, pos0 + 4) != seq![0x46u8, 0x53u8, 0x42u8, 0x35u8]);
            }
            return Err(Nups2Error::Other("FSB5 file is missing its magic value/header: FSB5"));
        }
        proof {
            assert(data@.subrange(pos0, pos0 + 4) =~= seq![0x46u8, 0x53u8, 0x42u8, 0x35u8]);
        }
        let version: u32 = match read_u32_le(data, &mut p) {
            Ok(v) => v,
            Err(e) => { return Err(e) },
        };
        let num_samples: u32 = match read_u32_le(data, &mut p) {
            Ok(v) => v,
            Err(e) => { return Err(e) },
        };
        let sample_header_size: u32 = match read_u32_le(data, &mut p) {
            Ok(v) => v,
            Err(e) => { return Err(e) },
        };
        let name_table_size: u32 = match read_u32_le(data, &mut p) {
            Ok(v) => v,
            Err(e) => { return Err(e) },
        };
        let data_size: u32 = match read_u32_le(data, &mut p) {
            Ok(v) => v,
            Err(e) => { return Err(e) },
        };
        let mode: u32 = match read_u32_le(data, &mut p) {
            Ok(v) => v,
            Err(e) => { return Err(e) },
        };
        let _skipped: Vec<u8> = match read_x_bytes(data, &mut p, 32) {
            Ok(v) => v,
            Err(e) => { return Err(e) },
        };
        if version == 0 {
            match read_u32_le(data, &mut p) {
                Ok(_) => {},
                Err(e) => { return Err(e) },
            }
        }
        let hdr_end_exec: usize = p;
        let ghost hdr_end: int = p as int;
        let sound_format: SoundFormat = match SoundFormat::get_by_id(mode as u8) {
            Some(v) => v,
            None => {
                return Err(Nups2Error::Other("Fsb5: unknown/unsupported sound-format/mode id"));
            },
        };
        let mut samples: Vec<Fsb5Sample> = Vec::new();
        let mut i: u32 = 0;
        while i < num_samples
            invariant
                i <= num_samples,
                samples@.len() == i,
                p <= data@.len(),
                parse_fsb5_samples(data@, hdr_end, 0, num_samples as nat) == (
                match parse_fsb5_samples(data@, p as int, i as nat, (num_samples - i) as nat) {
                    None => None::<(Seq<Fsb5SampleModel>, int)>,
                    Some((rest, end)) => Some(
                        (samples@.map_values(|q: Fsb5Sample| q@) + rest, end),
                    ),
                }),
                pos0 == *old(pos) as int,
                *pos == *old(pos),
                fsb5_header_ctx(
                    data@,
                    pos0,
                    version,
                    num_samples,
                    sample_header_size,
                    name_table_size,
                    data_size,
                    mode,
                    hdr_end,
                ),
                crate::fsb5::sound_formats::format_for_id(mode as u8) == Some(sound_format@),
            decreases num_samples - i,
        {
            let ghost old_views = samples@.map_values(|q: Fsb5Sample| q@);
            let name: String = crate::strutil::u64_to_dec(i as u64);
            let sample: Fsb5Sample = match Fsb5Sample::from_stream(data, &mut p, name) {
                Ok(v) => v,
                Err(e) => {
                    proof {
                        assert(parse_fsb5_samples(
                            data@,
                            p as int,
                            i as nat,
                            (num_samples - i) as nat,
                        ) is None);
                        assert(parse_fsb5(data@, pos0) is None);
                    }
                    return Err(e);
                },
            };
            samples.push(sample);
            i = i + 1;
            proof {
                let new_views = samples@.map_values(|q: Fsb5Sample| q@);
                assert(new_views =~= old_views.push(samples@.last()@));
                match parse_fsb5_samples(data@, p as int, i as nat, (num_samples - i) as nat) {
                    None => {},
                    Some((rest, end)) => {
                        assert(old_views + (seq![samples@.last()@] + rest) =~= new_views + rest);
                    },
                }
            }
        }
        proof {
            assert(samples@.map_values(|q: Fsb5Sample| q@) + Seq::<
                Fsb5SampleModel,
            >::empty() =~= samples@.map_values(|q: Fsb5Sample| q@));
        }
        let ghost base_views = samples@.map_values(|q: Fsb5Sample| q@);
        let ghost samples_end: int = p as int;
        if name_table_size != 0 {
            let nametable_start: usize = p;
            let mut name_offsets: Vec<u32> = Vec::new();
            let mut j: u32 = 0;
            while j < num_samples
                invariant
                    j <= num_samples,
                    name_offsets@.len() == j,
                    nametable_start == samples_end,
                    p as int == samples_end + 4 * j,
                    p <= data@.len(),
                    0 <= samples_end <= data@.len(),
                    pos0 == *old(pos) as int,
                    *pos == *old(pos),
                    name_table_size != 0,
                    fsb5_header_ctx(
                        data@,
                        pos0,
                        version,
                        num_samples,
                        sample_header_size,
                        name_table_size,
                        data_size,
                        mode,
                        hdr_end,
                    ),
                    crate::fsb5::sound_formats::format_for_id(mode as u8) == Some(sound_format@),
                    parse_fsb5_samples(data@, hdr_end, 0, num_samples as nat) == Some(
                        (base_views, samples_end),
                    ),
                    forall|k: int|
                        0 <= k < j ==> #[trigger] name_offsets@[k] == le32(
                            data@.subrange(samples_end + 4 * k, samples_end + 4 * k + 4),
                        ),
                decreases num_samples - j,
            {
                let off: u32 = match read_u32_le(data, &mut p) {
                    Ok(v) => v,
                    Err(e) => {
                        proof {
                            assert(samples_end + 4 * num_samples > data@.len());
                            assert(parse_fsb5(data@, pos0) is None);
                        }
                        return Err(e);
                    },
                };
                name_offsets.push(off);
                j = j + 1;
            }
            proof {
                assert(samples_end + 4 * num_samples <= data@.len());
            }
            let mut renamed: Vec<Fsb5Sample> = Vec::new();
            let n: usize = samples.len();
            let mut k: usize = 0;
            while k < n
                invariant
                    k <= n,
                    samples@.len() == n - k,
                    base_views.len() == n,
                    renamed@.len() == k,
                    n == num_samples,
                    name_offsets@.len() == n,
                    0 <= samples_end <= data@.len(),
                    nametable_start == samples_end,
                    pos0 == *old(pos) as int,
                    *pos == *old(pos),
                    name_table_size != 0,
                    samples_end + 4 * num_samples <= data@.len(),
                    fsb5_header_ctx(
                        data@,
                        pos0,
                        version,
                        num_samples,
                        sample_header_size,
                        name_table_size,
                        data_size,
                        mode,
                        hdr_end,
                    ),
                    crate::fsb5::sound_formats::format_for_id(mode as u8) == Some(sound_format@),
                    parse_fsb5_samples(data@, hdr_end, 0, num_samples as nat) == Some(
                        (base_views, samples_end),
                    ),
                    forall|q: int|
                        0 <= q < n - k ==> #[trigger] samples@[q]@ == base_views[q + k],
                    forall|q: int|
                        0 <= q < n ==> #[trigger] name_offsets@[q] == le32(
                            data@.subrange(samples_end + 4 * q, samples_end + 4 * q + 4),
                        ),
                    forall|q: int|
                        0 <= q < k ==> table_name(data@, samples_end, q) is Some,
                    forall|q: int|
                        0 <= q < k ==> #[trigger] renamed@[q]@ == (Fsb5SampleModel {
                            name: table_name(data@, samples_end, q).unwrap(),
                            ..base_views[q]
                        }),
                decreases n - k,
            {
                let name_offset: u32 = name_offsets[k];
                let target: u128 = (nametable_start as u128) + (name_offset as u128);
                if target > data.len() as u128 {
                    proof {
                        assert(first_nul_from(data@, samples_end + name_offset) == -1);
                        assert(table_name(data@, samples_end, k as int) is None);
                        assert(named_samples(data@, base_views, samples_end) is None);
                        assert(parse_fsb5(data@, pos0) is None);
                    }
                    return Err(Nups2Error::Truncated);
                }
                let mut np: usize = target as usize;
                let new_name: String = match read_string(data, &mut np) {
                    Ok(v) => v,
                    Err(e) => {
                        proof {
                            assert(table_name(data@, samples_end, k as int) is None);
                            assert(named_samples(data@, base_views, samples_end) is None);
                            assert(parse_fsb5(data@, pos0) is None);
                        }
                        return Err(e);
                    },
                };
                proof {
                    assert(table_name(data@, samples_end, k as int) == Some(new_name@));
                }
                let old_sample: Fsb5Sample = samples.remove(0);
                proof {
                    assert(old_sample@ == base_views[k as int]);
                }
                renamed.push(Fsb5Sample { name: new_name, ..old_sample });
                proof {
                    assert(renamed@.last()@ == (Fsb5SampleModel {
                        name: new_name@,
                        ..base_views[k as int]
                    }));
                }
                k = k + 1;
            }
            samples = renamed;
            proof {
                assert(named_samples(data@, base_views, samples_end) == Some(
                    samples@.map_values(|q: Fsb5Sample| q@),
                )) by {
                    assert forall|q: int| 0 <= q < n implies table_name(
                        data@,
                        samples_end,
                        q,
                    ) is Some by {}
                    assert(samples@.map_values(|q: Fsb5Sample| q@) =~= Seq::new(
                        base_views.len(),
                        |q: int|
                            Fsb5SampleModel {
                                name: table_name(data@, samples_end, q).unwrap(),
                                ..base_views[q]
                            },
                    ));
                }
            }
        }
        let ghost named_views = samples@.map_values(|q: Fsb5Sample| q@);
        let end_pos_wide: u128 = (hdr_end_exec as u128) + (sample_header_size as u128) + (
        name_table_size as u128);
        if end_pos_wide > usize::MAX as u128 {
            return Err(Nups2Error::Other("Fsb5: data region position does not fit"));
        }
        let mut data_offsets: Vec<u64> = Vec::new();
        let n2: usize = samples.len();
        let mut m: usize = 0;
        while m < n2
            invariant
                m <= n2,
                n2 == samples@.len(),
                data_offsets@.len() == m,
                named_views == samples@.map_values(|q: Fsb5Sample| q@),
                forall|q: int|
                    0 <= q < m ==> #[trigger] data_offsets@[q] == samples@[q].data_offset,
            decreases n2 - m,
        {
            data_offsets.push(samples[m].data_offset);
            m = m + 1;
        }
        let mut closed: Vec<Fsb5Sample> = Vec::new();
        let mut t: usize = 0;
        while t < n2
            invariant
                t <= n2,
                samples@.len() == n2 - t,
                named_views.len() == n2,
                closed@.len() == t,
                data_offsets@.len() == n2,
                forall|q: int|
                    0 <= q < n2 - t ==> #[trigger] samples@[q]@ == named_views[q + t],
                forall|q: int| 0 <= q < n2 ==> #[trigger] data_offsets@[q] == named_views[q].data_offset,
                forall|q: int|
                    0 <= q < t ==> #[trigger] closed@[q]@ == (Fsb5SampleModel {
                        data_end: if q == n2 - 1 {
                            named_views[q].data_offset.wrapping_add(data_size as u64)
                        } else {
                            named_views[q + 1].data_offset
                        },
                        ..named_views[q]
                    }),
            decreases n2 - t,
        {
            let data_end: u64 = if t == n2 - 1 {
                data_offsets[t].wrapping_add(data_size as u64)
            } else {
                data_offsets[t + 1]
            };
            proof {
                assert(data_end == (if t == n2 - 1 {
                    named_views[t as int].data_offset.wrapping_add(data_size as u64)
                } else {
                    named_views[t + 1].data_offset
                }));
            }
            let old_sample: Fsb5Sample = samples.remove(0);
            proof {
                assert(old_sample@ == named_views[t as int]);
            }
            closed.push(Fsb5Sample { data_end, ..old_sample });
            proof {
                assert(closed@.last()@ == (Fsb5SampleModel {
                    data_end,
                    ..named_views[t as int]
                }));
            }
            t = t + 1;
        }
        *pos = end_pos_wide as usize;
        let result = Fsb5 { samples: closed, sound_format };
        proof {
            assert(result@.samples =~= spans_closed(named_views, data_size));
            assert(parse_fsb5(data@, pos0) is Some);
            let spec_model = parse_fsb5(data@, pos0).unwrap().0;
            assert(spec_model.samples == result@.samples);
            assert(spec_model.sound_format == result@.sound_format);
            assert(parse_fsb5(data@, pos0).unwrap().1 == *pos as int);
            assert(parse_fsb5(data@, pos0) == Some((result@, *pos as int)));
        }
        Ok(result)
    }
}

} // verus!
