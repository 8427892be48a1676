//! Repacking a PCM sample into a WAV file.

use vstd::prelude::*;

use crate::bin_utils::{
    clone_big_x_bytes, u16_le_bytes, u32_be_bytes, u32_le_bytes, write_u16_le, write_u32_be,
    write_u32_le,
};
use crate::error::Nups2Error;
use crate::fsb5::sound_formats::SoundFormat;
use crate::fsb5::{Fsb5Sample, Fsb5SampleModel};
use crate::strutil::str_eq;

verus! {

/// The audio-format word for integer PCM.
pub const AUDIO_FORMAT_PCM_INTEGER: u16 = 1;

/// A WAV file around the sampled data: the RIFF framing, the format
/// description, then the data chunk. Figures past their word's range wrap
/// as the machine arithmetic does, and the format tag bytes are written as
/// the archive's sibling tools wrote them.
pub open spec fn wav_bytes(
    channel_count: u16,
    frequency: u32,
    sampled_data: Seq<u8>,
    sampwidth: u16,
    audio_format: u16,
) -> Seq<u8> {
    let data_size = sampled_data.len() as u32;
    let total_size = 44u32.wrapping_add(data_size);
    let bytes_per_block = channel_count.wrapping_mul(sampwidth);
    seq![0x52u8, 0x49u8, 0x46u8, 0x46u8] + u32_le_bytes(total_size.wrapping_sub(8)) + seq![
        0x57u8,
        0x41u8,
        0x56u8,
        0x45u8,
    ] + seq![0x66u8, 0x5Du8, 0x74u8, 0x20u8] + u32_le_bytes(16) + u16_le_bytes(audio_format)
        + u16_le_bytes(channel_count) + u32_le_bytes(frequency) + u32_be_bytes(
        frequency.wrapping_mul(bytes_per_block as u32),
    ) + u16_le_bytes(bytes_per_block) + u16_le_bytes(sampwidth.wrapping_mul(8)) + seq![
        0x64u8,
        0x61u8,
        0x74u8,
        0x61u8,
    ] + u32_le_bytes(data_size) + sampled_data
}

/// Writes a WAV file around the sampled data.
pub fn write_wav(
    channel_count: u16,
    frequency: u32,
    sampled_data: &[u8],
    sampwidth: u16,
    audio_format: u16,
) -> (r: Vec<u8>)
    ensures
        r@ == wav_bytes(channel_count, frequency, sampled_data@, sampwidth, audio_format),
{
    let data_size: u32 = sampled_data.len() as u32;
    let total_size: u32 = 44u32.wrapping_add(data_size);
    let bytes_per_block: u16 = channel_count.wrapping_mul(sampwidth);
    let mut out: Vec<u8> = Vec::new();
    out.push(0x52);
    out.push(0x49);
    out.push(0x46);
    out.push(0x46);
    write_u32_le(total_size.wrapping_sub(8), &mut out);
    out.push(0x57);
    out.push(0x41);
    out.push(0x56);
    out.push(0x45);
    out.push(0x66);
    out.push(0x5D);
    out.push(0x74);
    out.push(0x20);
    write_u32_le(16, &mut out);
    write_u16_le(audio_format, &mut out);
    write_u16_le(channel_count, &mut out);
    write_u32_le(frequency, &mut out);
    write_u32_be(frequency.wrapping_mul(bytes_per_block as u32), &mut out);
    write_u16_le(bytes_per_block, &mut out);
    write_u16_le(sampwidth.wrapping_mul(8), &mut out);
    out.push(0x64);
    out.push(0x61);
    out.push(0x74);
    out.push(0x61);
    write_u32_le(data_size, &mut out);
    let mut p: usize = 0;
    let copied: Result<(), Nups2Error> = clone_big_x_bytes(
        sampled_data,
        &mut p,
        &mut out,
        sampled_data.len(),
    );
    proof {
        assert(copied is Ok);
        assert(sampled_data@.subrange(0, sampled_data@.len() as int) =~= sampled_data@);
        assert(out@ =~= wav_bytes(channel_count, frequency, sampled_data@, sampwidth, audio_format));
    }
    out
}

/// The per-sample byte width and audio-format word for a PCM format name,
/// if the name is one this repacker knows.
pub open spec fn pcm_width(name: Seq<char>) -> Option<(u16, u16)> {
    if name == "pcm8"@ {
        Some((1u16, 1u16))
    } else if name == "pcm16"@ {
        Some((2u16, 1u16))
    } else if name == "pcm32"@ {
        Some((4u16, 1u16))
    } else {
        None
    }
}

/// The raw span a PCM sample's data occupies: from its start to its
/// recorded end, but never more than its sample count times the byte width.
pub open spec fn pcm_span(sample: Fsb5SampleModel, width: u16) -> int {
    let capped = if sample.data_end <= sample.data_offset + sample.samples * width {
        sample.data_end as int
    } else {
        sample.data_offset + sample.samples * width
    };
    capped - sample.data_offset
}

/// What repacking a PCM sample yields: the WAV file around the span of
/// bytes read from the cursor; nothing when the format name is not a known
/// PCM width, the sample's span is inverted, or the input is too short.
pub open spec fn pcm_rebuild_spec(
    sample: Fsb5SampleModel,
    format_name: Seq<char>,
    data: Seq<u8>,
    pos: int,
) -> Option<(Seq<u8>, int)> {
    match pcm_width(format_name) {
        None => None,
        Some((width, audio_format)) => {
            if sample.data_end < sample.data_offset {
                None
            } else {
                let span = pcm_span(sample, width);
                if pos < 0 || pos + span > data.len() {
                    None
                } else {
                    Some(
                        (
                            wav_bytes(
                                sample.channels as u16,
                                sample.frequency,
                                data.subrange(pos, pos + span),
                                width,
                                audio_format,
                            ),
                            pos + span,
                        ),
                    )
                }
            }
        },
    }
}

/// Repacks a PCM sample: reads its span of raw bytes from the cursor and
/// writes a WAV file around them.
pub fn rebuild(sample: &Fsb5Sample, data: &[u8], pos: &mut usize, sound_format: &SoundFormat) -> (r:
    Result<Vec<u8>, Nups2Error>)
    ensures
        match r {
            Ok(v) => pcm_rebuild_spec(sample@, sound_format.name@, data@, *old(pos) as int)
                == Some((v@, *final(pos) as int)),
            Err(_) => {
                &&& pcm_rebuild_spec(sample@, sound_format.name@, data@, *old(pos) as int) is None
                &&& *final(pos) == *old(pos)
            },
        },
{
    let width: u16;
    let audio_format: u16;
    if str_eq(sound_format.name, "pcm8") {
        width = 1;
        audio_format = AUDIO_FORMAT_PCM_INTEGER;
    } else if str_eq(sound_format.name, "pcm16") {
        width = 2;
        audio_format = AUDIO_FORMAT_PCM_INTEGER;
    } else if str_eq(sound_format.name, "pcm32") {
        width = 4;
        audio_format = AUDIO_FORMAT_PCM_INTEGER;
    } else {
        return Err(Nups2Error::Other("fsb5::pcm: unknown pcm width for sound_format"));
    }
    if sample.data_end < sample.data_offset {
        return Err(Nups2Error::Truncated);
    }
    proof {
        assert((sample.samples as int) * (width as int) <= 0xFFFFFFFF * 4) by (nonlinear_arith)
            requires
                sample.samples <= 0xFFFFFFFF,
                width <= 4,
        ;
    }
    let limit: u64 = (sample.samples as u64) * (width as u64);
    let capped: u64 = if (sample.data_end as u128) <= (sample.data_offset as u128) + (
    limit as u128) {
        sample.data_end
    } else {
        sample.data_offset + limit
    };
    let span: u64 = capped - sample.data_offset;
    if (span as u128) > (data.len() as u128) - (*pos as u128).min(data.len() as u128) {
        proof {
            assert(pcm_rebuild_spec(sample@, sound_format.name@, data@, *pos as int) is None);
        }
        return Err(Nups2Error::Truncated);
    }
    let raw: Vec<u8> = match crate::bin_utils::read_big_x_bytes(data, pos, span as usize) {
        Ok(v) => v,
        Err(e) => { return Err(e) },
    };
    Ok(write_wav(sample.channels as u16, sample.frequency, raw.as_slice(), width, audio_format))
}

} // verus!
