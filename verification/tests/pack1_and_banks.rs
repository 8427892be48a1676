use nups2::fsb5::{Fsb5, Fsb5SampleChunk};
use nups2::filename_extractor::find_text_patches;
use nups2::pack1::{Pack1, Pack1Asset, UnknownNameHandling};
use nups2::pack2::{Asset, Pack2};
use nups2::to_glb::{calc_chunk_padding_amount, Glb, GlbBinChunk, GlbChunkType};

fn pack1_asset_bytes(name: &str, offset: u32, data_length: u32, file_hash: u32) -> Vec<u8> {
    let mut out: Vec<u8> = Vec::new();
    out.extend_from_slice(&(name.len() as u32).to_be_bytes());
    out.extend_from_slice(name.as_bytes());
    out.extend_from_slice(&offset.to_be_bytes());
    out.extend_from_slice(&data_length.to_be_bytes());
    out.extend_from_slice(&file_hash.to_be_bytes());
    out
}

#[test]
fn pack1_loads_a_two_chunk_archive() {
    // Chunk 0 names the offset of chunk 1's header; a zero offset ends the
    // chain.
    let mut chunk1: Vec<u8> = Vec::new();
    chunk1.extend_from_slice(&0u32.to_be_bytes()); // no further chunks
    chunk1.extend_from_slice(&1u32.to_be_bytes()); // one entry
    chunk1.extend_from_slice(&pack1_asset_bytes("b.txt", 7, 8, 9));

    let mut chunk0: Vec<u8> = Vec::new();
    chunk0.extend_from_slice(&1u32.to_be_bytes()); // one entry
    chunk0.extend_from_slice(&pack1_asset_bytes("a.txt", 1, 2, 3));
    let chunk1_offset = (4 + chunk0.len()) as u32;

    let mut data: Vec<u8> = Vec::new();
    data.extend_from_slice(&chunk1_offset.to_be_bytes());
    data.extend_from_slice(&chunk0);
    data.extend_from_slice(&chunk1);

    let pack = Pack1::load_from_bytes(&data).unwrap();
    assert_eq!(pack.chunks.len(), 2);
    assert_eq!(pack.chunks[0].assets[0].name, "a.txt");
    assert_eq!(pack.chunks[0].assets[0].offset, 1);
    assert_eq!(pack.chunks[1].assets[0].name, "b.txt");
    assert_eq!(pack.chunks[1].assets[0].file_hash, 9);
    assert_eq!(
        pack.as_json(),
        "{\"chunks\":[{\"assets\":[{\"name\":\"a.txt\",\"offest\":1,\"data_length\":2,\
         \"file_hash\":3}]},{\"assets\":[{\"name\":\"b.txt\",\"offest\":7,\"data_length\":8,\
         \"file_hash\":9}]}]}"
    );
}

#[test]
fn pack1_rejects_a_chain_that_does_not_move_forward() {
    let mut data: Vec<u8> = Vec::new();
    data.extend_from_slice(&0u32.to_be_bytes()); // placeholder next offset
    data.extend_from_slice(&0u32.to_be_bytes()); // zero entries
    data[3] = 0; // next offset 0 ends cleanly
    assert!(Pack1::load_from_bytes(&data).is_ok());
    let mut looped = data.clone();
    looped[3] = 0; // keep four bytes of header
    looped.splice(0..4, 1u32.to_be_bytes()); // points inside itself
    assert!(Pack1::load_from_bytes(&looped).is_err());
}

fn nameless_asset(key: u64, offset: u64, data_length: u64, zipped: bool) -> Asset {
    Asset {
        name: None,
        name_hash: key,
        offset,
        data_length,
        is_zipped: zipped,
        data_hash: 0xCC,
        unzipped_length: if zipped { 6 } else { 0 },
    }
}

#[test]
fn pack2_conversion_handles_nameless_entries_per_mode() {
    let named = Asset {
        name: Some(String::from("thing.dds")),
        ..nameless_asset(0x10, 4, 5, false)
    };
    let pack = Pack2 {
        asset_count: 2,
        length: 100,
        map_offset: 24,
        assets: vec![named, nameless_asset(0x20, 8, 3, true)],
    };
    let converted = Pack1::from_pack2(pack, &UnknownNameHandling::SkipFile).unwrap();
    assert_eq!(converted.chunks.len(), 1);
    assert_eq!(converted.chunks[0].assets.len(), 1);
    assert_eq!(converted.chunks[0].assets[0].name, "thing.dds");
    assert_eq!(converted.chunks[0].assets[0].data_length, 5);

    let named2 = Asset {
        name: Some(String::from("thing.dds")),
        ..nameless_asset(0x10, 4, 5, false)
    };
    let pack2 = Pack2 {
        asset_count: 2,
        length: 100,
        map_offset: 24,
        assets: vec![named2, nameless_asset(0x20, 8, 3, true)],
    };
    assert!(Pack1::from_pack2(pack2, &UnknownNameHandling::ReturnError).is_err());

    let pack3 = Pack2 {
        asset_count: 1,
        length: 100,
        map_offset: 24,
        assets: vec![nameless_asset(0x20, 8, 3, true)],
    };
    let generated = Pack1::from_pack2(pack3, &UnknownNameHandling::GenerateName).unwrap();
    assert_eq!(generated.chunks[0].assets[0].name, "crc_64_32");
    // A compressed source entry carries its decompressed length forward.
    assert_eq!(generated.chunks[0].assets[0].data_length, 6);
    assert!(generated.chunks[0].assets[0].stream_is_pack2_zipped);
}

#[test]
fn pack1_round_trips_back_to_a_pack2_entry() {
    let asset = Pack1Asset {
        name: String::from("sound.fsb"),
        offset: 12,
        data_length: 34,
        file_hash: 56,
        stream_is_pack2_zipped: false,
    };
    let back = asset.as_pack2_asset_fast();
    assert_eq!(back.name.as_deref(), Some("sound.fsb"));
    assert_eq!(back.name_hash, nups2::crc64::convert_filename("sound.fsb"));
    assert_eq!(back.offset, 12);
    assert_eq!(back.data_length, 34);
    assert!(!back.is_zipped);
    assert_eq!(back.data_hash, 0);
    assert_eq!(asset.header_length(), Some(16 + 9));
}

fn sample_word(more: bool, frequency_number: u64, extra_channel: bool, offset_units: u64) -> u64 {
    (more as u64) | (frequency_number << 1) | ((extra_channel as u64) << 5) | (offset_units << 6)
}

#[test]
fn fsb5_bank_parses_header_samples_and_name_table() {
    let mut data: Vec<u8> = Vec::new();
    data.extend_from_slice(b"FSB5");
    data.extend_from_slice(&1u32.to_le_bytes()); // version (not 0: no extra word)
    data.extend_from_slice(&1u32.to_le_bytes()); // one sample
    data.extend_from_slice(&8u32.to_le_bytes()); // sample header size
    data.extend_from_slice(&10u32.to_le_bytes()); // name table size
    data.extend_from_slice(&32u32.to_le_bytes()); // data size
    data.extend_from_slice(&15u32.to_le_bytes()); // mode: vorbis
    data.extend_from_slice(&[0u8; 32]); // skipped header tail
    // One sample record: no chunks, frequency code 9 (48000 Hz), one channel,
    // data offset unit 2 (byte offset 32).
    data.extend_from_slice(&sample_word(false, 9, false, 2).to_le_bytes());
    // Name table: one offset word, then the name itself.
    data.extend_from_slice(&4u32.to_le_bytes());
    data.extend_from_slice(b"song\0");

    let mut pos: usize = 0;
    let bank = Fsb5::new(&data, &mut pos).unwrap();
    assert_eq!(bank.sound_format.name, "vorbis");
    assert_eq!(bank.samples.len(), 1);
    let sample = &bank.samples[0];
    assert_eq!(sample.name, "song");
    assert_eq!(sample.frequency, 48000);
    assert_eq!(sample.channels, 1);
    assert_eq!(sample.data_offset, 32);
    assert_eq!(sample.data_end, 32 + 32);
    assert!(sample.chunks.is_empty());
    // The cursor lands at header end + sample header size + name table size.
    assert_eq!(pos, 60 + 8 + 10);
}

#[test]
fn fsb5_chunk_type_bits_vanish_in_the_wrapped_shift() {
    // The 7-bit chunk-type field ends exactly at bit 32, so the wrapped
    // shift masks it away: every chunk parses as type 0 and the sample's
    // frequency falls back to its code number's table entry.
    let mut data: Vec<u8> = Vec::new();
    data.extend_from_slice(&sample_word(true, 1, true, 0).to_le_bytes());
    let chunk_header: u32 = 0 | (4 << 1) | (2 << 25);
    data.extend_from_slice(&chunk_header.to_le_bytes());
    data.extend_from_slice(&22050u32.to_le_bytes());
    let mut pos: usize = 0;
    let sample =
        nups2::fsb5::Fsb5Sample::from_stream(&data, &mut pos, String::from("0")).unwrap();
    assert_eq!(sample.frequency, 8000);
    assert_eq!(sample.channels, 2);
    assert!(matches!(
        &sample.chunks[0],
        Fsb5SampleChunk::Unknown { chunk_type_id: 0, data } if data.as_slice() == 22050u32.to_le_bytes()
    ));
}

#[test]
fn wav_repack_frames_the_sample_bytes() {
    let sample = nups2::fsb5::Fsb5Sample {
        name: String::from("0"),
        frequency: 8000,
        channels: 1,
        data_offset: 0,
        data_end: 4,
        samples: 4,
        chunks: Vec::new(),
    };
    let format = nups2::fsb5::SoundFormat::get_by_id(1).unwrap(); // pcm8
    let data: Vec<u8> = vec![1, 2, 3, 4];
    let mut pos: usize = 0;
    let wav = sample.rebuild(&data, &mut pos, &format).unwrap();
    assert_eq!(&wav[0..4], b"RIFF");
    assert_eq!(wav.len(), 44 + 4);
    assert_eq!(&wav[wav.len() - 4..], &[1, 2, 3, 4]);
    // An unsupported format is refused.
    let vorbis = nups2::fsb5::SoundFormat::get_by_id(15).unwrap();
    let mut pos2: usize = 0;
    assert!(sample.rebuild(&data, &mut pos2, &vorbis).is_err());
}

#[test]
fn text_patches_are_maximal_name_like_runs() {
    let data: Vec<u8> = b"\x00abc.txt\x01\x02x_1\xFF".to_vec();
    let patches = find_text_patches(&data);
    assert_eq!(patches, vec!["abc.txt", "x_1"]);
    assert!(find_text_patches(&Vec::new()).is_empty());
}

#[test]
fn glb_framing_constants_hold() {
    assert_eq!(calc_chunk_padding_amount(8), 0);
    assert_eq!(calc_chunk_padding_amount(9), 3);
    assert_eq!(GlbChunkType::from_u32(0x4E4F534A), Some(GlbChunkType::JSON));
    assert_eq!(GlbChunkType::from_u32(7), None);
    assert_eq!(GlbChunkType::BIN.get_u32_id(), 0x004E4942);
    assert_eq!(GlbChunkType::JSON.get_padding_byte(), 0x20);
    let glb = Glb {
        bin_head: GlbBinChunk { content: vec![1, 2, 3] },
    };
    assert_eq!(glb.get_total_length_in_bytes(), 12);
    let written = glb.write();
    assert_eq!(written.len(), 12);
    assert_eq!(&written[0..4], b"glTF");
    assert_eq!(glb.bin_head.length_in_bytes(), 12); // 8 + 3, padded to 12
}

#[test]
fn pack1_write_frames_headers_and_payloads() {
    // One chunk, two entries whose payloads sit in a small source archive.
    let source: Vec<u8> = vec![0xAA, 0xBB, 0xCC, 0xDD, 0xEE];
    let pack = Pack1 {
        chunks: vec![nups2::pack1::Pack1Chunk {
            assets: vec![
                Pack1Asset {
                    name: String::from("a"),
                    offset: 0,
                    data_length: 2,
                    file_hash: 5,
                    stream_is_pack2_zipped: false,
                },
                Pack1Asset {
                    name: String::from("bb"),
                    offset: 2,
                    data_length: 3,
                    file_hash: 6,
                    stream_is_pack2_zipped: false,
                },
            ],
        }],
    };
    let written = pack.write(&source).unwrap();
    // Header region: 8 bytes of chunk framing + (16+1) + (16+2) entry
    // headers + 4 closing bytes = 47 bytes; payloads follow.
    let header_length: u32 = 8 + 17 + 18 + 4;
    let mut expected: Vec<u8> = Vec::new();
    expected.extend_from_slice(&0u32.to_be_bytes()); // no next chunk
    expected.extend_from_slice(&2u32.to_be_bytes()); // two entries
    expected.extend_from_slice(&1u32.to_be_bytes());
    expected.extend_from_slice(b"a");
    expected.extend_from_slice(&header_length.to_be_bytes());
    expected.extend_from_slice(&2u32.to_be_bytes());
    expected.extend_from_slice(&5u32.to_be_bytes());
    expected.extend_from_slice(&2u32.to_be_bytes());
    expected.extend_from_slice(b"bb");
    expected.extend_from_slice(&(header_length + 2).to_be_bytes());
    expected.extend_from_slice(&3u32.to_be_bytes());
    expected.extend_from_slice(&6u32.to_be_bytes());
    expected.extend_from_slice(&0u32.to_be_bytes()); // end of chunk chain
    expected.extend_from_slice(&[0xAA, 0xBB]); // first payload
    expected.extend_from_slice(&[0xCC, 0xDD, 0xEE]); // second payload
    assert_eq!(written, expected);
}

#[test]
fn pack1_write_of_an_empty_archive_is_one_zero_word() {
    let pack = Pack1 { chunks: Vec::new() };
    assert_eq!(pack.write(&[]).unwrap(), vec![0, 0, 0, 0]);
    let hollow = Pack1 {
        chunks: vec![nups2::pack1::Pack1Chunk { assets: Vec::new() }],
    };
    assert_eq!(hollow.write(&[]).unwrap(), vec![0, 0, 0, 0]);
}

#[test]
fn bone_maps_shift_duplicate_global_indexes() {
    let entries: Vec<nups2::dme::DmeBoneMapEntry> = vec![
        nups2::dme::DmeBoneMapEntry { bone_index: 10, global_index: 1 },
        nups2::dme::DmeBoneMapEntry { bone_index: 11, global_index: 1 },
        nups2::dme::DmeBoneMapEntry { bone_index: 12, global_index: 2 },
    ];
    let (map1, map2) = nups2::dme::build_bonemaps(&entries);
    assert_eq!(map1.get(&1), Some(&10));
    assert_eq!(map1.get(&65), Some(&11)); // the duplicate moved up by 64
    assert_eq!(map1.get(&2), Some(&12));
    assert_eq!(map2.get(&1), Some(&11));
    assert_eq!(map2.get(&2), None);
}

#[test]
fn fsb5_sample_read_copies_its_data_span() {
    let sample = nups2::fsb5::Fsb5Sample {
        name: String::from("0"),
        frequency: 8000,
        channels: 1,
        data_offset: 2,
        data_end: 5,
        samples: 0,
        chunks: Vec::new(),
    };
    let data: Vec<u8> = vec![9, 9, 1, 2, 3, 9];
    assert_eq!(sample.read(&data), Ok(vec![1, 2, 3]));
    let inverted = nups2::fsb5::Fsb5Sample { data_end: 1, ..sample };
    assert!(inverted.read(&data).is_err());
}
