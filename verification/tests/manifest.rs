use std::collections::HashMap;

use nups2::pack2::Pack2;
use nups2::pack2_manifest::{
    diff_two_manifests, read_manifest, render_for_humans, Manifest, ManifestDiffEntry,
};
use nups2::Nups2Error;

fn archive_with_pairs(pairs: &[(u64, u32)]) -> Vec<u8> {
    let map_offset = 24u64;
    let length = map_offset + 32 * pairs.len() as u64;
    let mut data: Vec<u8> = Vec::new();
    data.extend_from_slice(&[0x50, 0x41, 0x4B, 0x01]);
    data.extend_from_slice(&(pairs.len() as u32).to_le_bytes());
    data.extend_from_slice(&length.to_le_bytes());
    data.extend_from_slice(&map_offset.to_le_bytes());
    for (key, checksum) in pairs {
        data.extend_from_slice(&key.to_le_bytes());
        data.extend_from_slice(&0u64.to_le_bytes());
        data.extend_from_slice(&0u64.to_le_bytes());
        data.extend_from_slice(&0u32.to_le_bytes());
        data.extend_from_slice(&checksum.to_le_bytes());
    }
    data
}

#[test]
fn manifest_round_trips_through_bytes() {
    let data = archive_with_pairs(&[(0xAA, 1), (0xBB, 2), (0x4137cc65bd97fd31, 3)]);
    let pack = Pack2::load_from_bytes(&data).unwrap();
    let bytes = pack.write_manifest();
    assert_eq!(bytes.len(), 36);
    let manifest = read_manifest(&bytes).unwrap();
    assert_eq!(manifest, vec![(0xAA, 1), (0xBB, 2), (0x4137cc65bd97fd31, 3)]);
}

#[test]
fn manifest_records_are_big_endian() {
    let data = archive_with_pairs(&[(0x0102030405060708, 0x0A0B0C0D)]);
    let pack = Pack2::load_from_bytes(&data).unwrap();
    let bytes = pack.write_manifest();
    assert_eq!(
        bytes,
        vec![1, 2, 3, 4, 5, 6, 7, 8, 0x0A, 0x0B, 0x0C, 0x0D]
    );
}

#[test]
fn manifest_with_partial_trailing_record_is_rejected() {
    let bytes = vec![0u8; 23];
    assert_eq!(read_manifest(&bytes), Err(Nups2Error::BadManifestLength));
    assert!(read_manifest(&vec![0u8; 24]).is_ok());
    assert!(read_manifest(&[]).unwrap().is_empty());
}

#[test]
fn diff_reports_a_changed_checksum() {
    let old: Manifest = vec![(0xAA, 1)];
    let new: Manifest = vec![(0xAA, 2)];
    let diff = diff_two_manifests(&old, &new);
    assert_eq!(diff.len(), 1);
    assert_eq!(diff[0].name_hash, 0xAA);
    assert_eq!(diff[0].old_data_hash, Some(1));
    assert_eq!(diff[0].new_data_hash, Some(2));
}

#[test]
fn diff_reports_an_added_key_and_nothing_else() {
    let old: Manifest = vec![(0xAA, 1)];
    let new: Manifest = vec![(0xAA, 1), (0xBB, 2)];
    let diff = diff_two_manifests(&old, &new);
    assert_eq!(diff.len(), 1);
    assert_eq!(diff[0].name_hash, 0xBB);
    assert_eq!(diff[0].old_data_hash, None);
    assert_eq!(diff[0].new_data_hash, Some(2));
}

#[test]
fn diff_covers_every_key_exactly_once() {
    // Unchanged, changed, removed, and added keys, in one comparison.
    let old: Manifest = vec![(0x1, 10), (0x2, 20), (0x3, 30)];
    let new: Manifest = vec![(0x1, 10), (0x2, 21), (0x4, 40)];
    let diff = diff_two_manifests(&old, &new);
    assert_eq!(diff.len(), 3);
    assert_eq!(diff[0].name_hash, 0x2);
    assert_eq!((diff[0].old_data_hash, diff[0].new_data_hash), (Some(20), Some(21)));
    assert_eq!(diff[1].name_hash, 0x3);
    assert_eq!((diff[1].old_data_hash, diff[1].new_data_hash), (Some(30), None));
    assert_eq!(diff[2].name_hash, 0x4);
    assert_eq!((diff[2].old_data_hash, diff[2].new_data_hash), (None, Some(40)));
    for key in [0x1u64, 0x2, 0x3, 0x4] {
        let appearances = diff.iter().filter(|d| d.name_hash == key).count();
        assert!(appearances <= 1);
    }
    assert_eq!(diff.iter().filter(|d| d.name_hash == 0x1).count(), 0);
}

#[test]
fn diff_with_manifest_treats_the_container_as_the_new_side() {
    let data = archive_with_pairs(&[(0xAA, 2), (0xCC, 3)]);
    let pack = Pack2::load_from_bytes(&data).unwrap();
    let stored: Manifest = vec![(0xAA, 1), (0xBB, 9)];
    let diff = pack.diff_with_manifest(&stored);
    assert_eq!(diff.len(), 3);
    assert_eq!((diff[0].name_hash, diff[0].old_data_hash, diff[0].new_data_hash), (0xAA, Some(1), Some(2)));
    assert_eq!((diff[1].name_hash, diff[1].old_data_hash, diff[1].new_data_hash), (0xBB, Some(9), None));
    assert_eq!((diff[2].name_hash, diff[2].old_data_hash, diff[2].new_data_hash), (0xCC, None, Some(3)));
}

#[test]
fn render_presents_matching_removal_and_addition_as_one_rename() {
    let diff = vec![
        ManifestDiffEntry::new(0xAA, Some(5), None),
        ManifestDiffEntry::new(0xBB, None, Some(5)),
    ];
    let names: HashMap<u64, String> = HashMap::new();
    let text = render_for_humans(&diff, &names);
    assert_eq!(text, "Renamed file: 0xAA (?) -> 0xBB (?)");
}

#[test]
fn render_uses_the_lookup_table_for_names() {
    let diff = vec![
        ManifestDiffEntry::new(0xAA, Some(5), None),
        ManifestDiffEntry::new(0xBB, None, Some(5)),
    ];
    let mut names: HashMap<u64, String> = HashMap::new();
    names.insert(0xAA, String::from("old.txt"));
    names.insert(0xBB, String::from("new.txt"));
    let text = render_for_humans(&diff, &names);
    assert_eq!(text, "Renamed file: 0xAA (old.txt) -> 0xBB (new.txt)");
}

#[test]
fn render_spells_created_changed_and_deleted_lines() {
    let diff = vec![
        ManifestDiffEntry::new(0xAA, Some(1), Some(2)),
        ManifestDiffEntry::new(0xBB, None, Some(3)),
        ManifestDiffEntry::new(0xCC, Some(4), None),
    ];
    let names: HashMap<u64, String> = HashMap::new();
    let text = render_for_humans(&diff, &names);
    assert_eq!(
        text,
        "Changed file: 0xAA (?): 0x1 -> 0x2\n\
         Created file: 0xBB (?) with data_hash 0x3\n\
         Deleted file: 0xCC (?) with data_hash 0x4"
    );
}

#[test]
fn render_of_an_empty_diff_is_empty() {
    let names: HashMap<u64, String> = HashMap::new();
    assert_eq!(render_for_humans(&Vec::new(), &names), "");
}
