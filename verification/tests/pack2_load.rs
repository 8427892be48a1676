use nups2::crc64;
use nups2::pack2::Pack2;
use nups2::Nups2Error;

fn header(asset_count: u32, length: u64, map_offset: u64) -> Vec<u8> {
    let mut out: Vec<u8> = Vec::new();
    out.extend_from_slice(&[0x50, 0x41, 0x4B, 0x01]);
    out.extend_from_slice(&asset_count.to_le_bytes());
    out.extend_from_slice(&length.to_le_bytes());
    out.extend_from_slice(&map_offset.to_le_bytes());
    out
}

fn entry(key: u64, offset: u64, data_length: u64, flag: u32, data_hash: u32) -> Vec<u8> {
    let mut out: Vec<u8> = Vec::new();
    out.extend_from_slice(&key.to_le_bytes());
    out.extend_from_slice(&offset.to_le_bytes());
    out.extend_from_slice(&data_length.to_le_bytes());
    out.extend_from_slice(&flag.to_le_bytes());
    out.extend_from_slice(&data_hash.to_le_bytes());
    out
}

fn zlib_compress(payload: &[u8]) -> Vec<u8> {
    let mut encoder =
        flate2::write::ZlibEncoder::new(Vec::new(), flate2::Compression::default());
    std::io::Write::write_all(&mut encoder, payload).unwrap();
    encoder.finish().unwrap()
}

/// One uncompressed payload at byte 24, then the entry table.
fn single_entry_archive(key: u64, payload: &[u8], flag: u32, data_hash: u32) -> Vec<u8> {
    let map_offset = 24 + payload.len() as u64;
    let length = map_offset + 32;
    let mut data = header(1, length, map_offset);
    data.extend_from_slice(payload);
    data.extend_from_slice(&entry(key, 24, payload.len() as u64, flag, data_hash));
    data
}

#[test]
fn single_uncompressed_entry_extracts_exact_bytes() {
    let data = single_entry_archive(0x1, &[10, 20, 30, 40], 0, 7);
    let pack = Pack2::load_from_bytes(&data).unwrap();
    assert_eq!(pack.assets.len(), 1);
    assert_eq!(pack.assets[0].name_hash, 0x1);
    assert!(!pack.assets[0].is_zipped);
    let bytes = pack.assets[0].extract_bytes(&data).unwrap();
    assert_eq!(bytes, vec![10, 20, 30, 40]);
}

#[test]
fn compressed_flag_with_zero_length_is_treated_as_uncompressed() {
    let data = single_entry_archive(0x2, &[], 0x01, 0);
    let pack = Pack2::load_from_bytes(&data).unwrap();
    assert_eq!(pack.assets.len(), 1);
    assert!(!pack.assets[0].is_zipped);
    assert_eq!(pack.assets[0].unzipped_length, 0);
    let bytes = pack.assets[0].extract_bytes(&data).unwrap();
    assert_eq!(bytes, Vec::<u8>::new());
}

#[test]
fn compressed_entry_round_trips_through_decompression() {
    let payload = b"the quick brown fox jumps over the lazy dog";
    let compressed = zlib_compress(payload);
    // Sub-header at offset 24: compression magic, then the decompressed
    // length, then the zlib stream itself.
    let mut stored: Vec<u8> = Vec::new();
    stored.extend_from_slice(&0xA1B2C3D4u32.to_be_bytes());
    stored.extend_from_slice(&(payload.len() as u32).to_be_bytes());
    stored.extend_from_slice(&compressed);
    let map_offset = 24 + stored.len() as u64;
    let length = map_offset + 32;
    let mut data = header(1, length, map_offset);
    data.extend_from_slice(&stored);
    data.extend_from_slice(&entry(0x3, 24, compressed.len() as u64, 0x11, 9));
    let pack = Pack2::load_from_bytes(&data).unwrap();
    assert!(pack.assets[0].is_zipped);
    assert_eq!(pack.assets[0].unzipped_length, payload.len() as u32);
    let bytes = pack.assets[0].extract_bytes(&data).unwrap();
    assert_eq!(bytes, payload.to_vec());
}

#[test]
fn corrupt_compressed_stream_fails_extraction_only() {
    let mut stored: Vec<u8> = Vec::new();
    stored.extend_from_slice(&0xA1B2C3D4u32.to_be_bytes());
    stored.extend_from_slice(&4u32.to_be_bytes());
    stored.extend_from_slice(&[0xFF, 0xFF, 0xFF, 0xFF]);
    let map_offset = 24 + stored.len() as u64;
    let length = map_offset + 32;
    let mut data = header(1, length, map_offset);
    data.extend_from_slice(&stored);
    data.extend_from_slice(&entry(0x4, 24, 4, 0x01, 0));
    let pack = Pack2::load_from_bytes(&data).unwrap();
    assert_eq!(
        pack.assets[0].extract_bytes(&data),
        Err(Nups2Error::DecompressFailed)
    );
}

#[test]
fn bad_archive_magic_is_rejected() {
    let mut data = single_entry_archive(0x1, &[1, 2, 3, 4], 0, 0);
    data[0] = 0x51;
    assert!(matches!(
        Pack2::load_from_bytes(&data),
        Err(Nups2Error::BadMagic)
    ));
}

#[test]
fn truncated_header_is_rejected() {
    let data = header(0, 24, 24);
    assert!(matches!(
        Pack2::load_from_bytes(&data[..10]),
        Err(Nups2Error::Truncated)
    ));
}

#[test]
fn truncated_entry_table_is_rejected() {
    let data = single_entry_archive(0x1, &[1, 2, 3, 4], 0, 0);
    assert!(matches!(
        Pack2::load_from_bytes(&data[..data.len() - 1]),
        Err(Nups2Error::Truncated)
    ));
}

#[test]
fn entry_span_past_declared_length_is_rejected() {
    // The declared total length is one byte too small for the payload span.
    let map_offset = 28u64;
    let mut data = header(1, map_offset + 32 - 1, map_offset);
    data.extend_from_slice(&[9, 9, 9, 9]);
    data.extend_from_slice(&entry(0x1, 24, 36, 0, 0));
    assert!(matches!(
        Pack2::load_from_bytes(&data),
        Err(Nups2Error::EntryOutOfBounds)
    ));
}

#[test]
fn bad_compression_magic_is_rejected_at_load() {
    let mut stored: Vec<u8> = Vec::new();
    stored.extend_from_slice(&0xDEADBEEFu32.to_be_bytes());
    stored.extend_from_slice(&4u32.to_be_bytes());
    stored.extend_from_slice(&[0, 0, 0, 0]);
    let map_offset = 24 + stored.len() as u64;
    let length = map_offset + 32;
    let mut data = header(1, length, map_offset);
    data.extend_from_slice(&stored);
    data.extend_from_slice(&entry(0x5, 24, 4, 0x01, 0));
    assert!(matches!(
        Pack2::load_from_bytes(&data),
        Err(Nups2Error::BadCompressionMagic)
    ));
}

#[test]
fn empty_archive_loads_with_no_assets() {
    let data = header(0, 24, 24);
    let pack = Pack2::load_from_bytes(&data).unwrap();
    assert_eq!(pack.assets.len(), 0);
}

#[test]
fn embedded_name_list_resolves_names_at_load() {
    // Entry 0 is a plain payload keyed by a known filename's hash; entry 1 is
    // the self-describing name list naming that file.
    let payload = [1u8, 2, 3, 4];
    let names_text = b"alpha.txt\nbravo.dds\n";
    let key = crc64::convert_filename("alpha.txt");
    let map_offset = 24 + payload.len() as u64 + names_text.len() as u64;
    let length = map_offset + 64;
    let mut data = header(2, length, map_offset);
    data.extend_from_slice(&payload);
    data.extend_from_slice(names_text);
    data.extend_from_slice(&entry(key, 24, payload.len() as u64, 0, 5));
    data.extend_from_slice(&entry(
        0x4137cc65bd97fd30,
        28,
        names_text.len() as u64,
        0,
        6,
    ));
    let pack = Pack2::load_from_bytes(&data).unwrap();
    assert_eq!(pack.assets[0].name.as_deref(), Some("alpha.txt"));
    assert_eq!(pack.assets[1].name, None);
    assert_eq!(pack.find_asset_index_by_name("ALPHA.TXT"), Some(0));
}

#[test]
fn applying_a_name_list_twice_changes_nothing_more() {
    let payload = [1u8, 2, 3, 4];
    let key = crc64::convert_filename("model.dme");
    let data = single_entry_archive(key, &payload, 0, 0);
    let mut pack = Pack2::load_from_bytes(&data).unwrap();
    let names: Vec<String> = vec![String::from("model.dme"), String::from("other.txt")];
    pack.apply_filename_list(&names);
    let once: Vec<Option<String>> = pack.assets.iter().map(|a| a.name.clone()).collect();
    pack.apply_filename_list(&names);
    let twice: Vec<Option<String>> = pack.assets.iter().map(|a| a.name.clone()).collect();
    assert_eq!(once, twice);
    assert_eq!(once[0].as_deref(), Some("model.dme"));
}

#[test]
fn find_by_hash_returns_first_match_only() {
    let map_offset = 24u64;
    let length = map_offset + 64;
    let mut data = header(2, length, map_offset);
    data.extend_from_slice(&entry(0xAA, 0, 0, 0, 1));
    data.extend_from_slice(&entry(0xAA, 0, 0, 0, 2));
    let pack = Pack2::load_from_bytes(&data).unwrap();
    assert_eq!(pack.find_asset_index_by_name_hash(0xAA), Some(0));
    assert_eq!(pack.find_asset_index_by_name_hash(0xBB), None);
}

#[test]
fn asset_json_spells_every_field() {
    let data = single_entry_archive(0x10, &[1, 2, 3], 0, 77);
    let pack = Pack2::load_from_bytes(&data).unwrap();
    assert_eq!(
        pack.assets[0].to_json(),
        "{\"name\": null, \"name_hash\": 16, \"offset\": 24, \"data_length\": 3, \
         \"is_zipped\": false, \"data_hash\": 77, \"unzipped_length\": 0}"
    );
    assert_eq!(
        pack.ls_assets_as_json(),
        format!("[{}]", pack.assets[0].to_json())
    );
    assert!(pack.to_json().starts_with("{\"asset_count\": 1, "));
}
