use nups2::crc64;
use nups2::jenkins_hash;

#[test]
fn one_at_a_time() {
    assert_eq!(jenkins_hash::one_at_a_time("a".as_bytes()), 0xca2e9442);
    assert_eq!(
        jenkins_hash::one_at_a_time("The quick brown fox jumps over the lazy dog".as_bytes()),
        0x519e91f5
    );
}

#[test]
fn number_casting() {
    assert_eq!(1u32 as u64, 1u64);
}

#[test]
fn crc64_is_deterministic() {
    let a = crc64::hash(b"some archive entry name");
    let b = crc64::hash(b"some archive entry name");
    assert_eq!(a, b);
    assert_ne!(crc64::hash(b"a"), crc64::hash(b"b"));
}

#[test]
fn crc64_of_empty_input_is_zero() {
    // The all-ones initial state xored with the all-ones final mask.
    assert_eq!(crc64::hash(b""), 0);
}

#[test]
fn convert_filename_matches_namelist_sentinel_key() {
    // The reserved self-describing entry is keyed by the hash of its own
    // conventional name.
    assert_eq!(crc64::convert_filename("{NAMELIST}"), 0x4137cc65bd97fd30);
}

#[test]
fn convert_filename_is_blind_to_case() {
    assert_eq!(
        crc64::convert_filename("{namelist}"),
        crc64::convert_filename("{NAMELIST}")
    );
    assert_eq!(
        crc64::convert_filename("Assets/Model.dme"),
        crc64::convert_filename("ASSETS/MODEL.DME")
    );
}

#[test]
fn lookup_table_keys_names_by_hash_and_last_writer_wins() {
    let names: Vec<String> = vec![String::from("alpha.txt"), String::from("ALPHA.TXT")];
    let table = crc64::filename_list_to_lookup_table(&names);
    let key = crc64::convert_filename("alpha.txt");
    assert_eq!(table.len(), 1);
    assert_eq!(table.get(&key).map(String::as_str), Some("ALPHA.TXT"));
}
