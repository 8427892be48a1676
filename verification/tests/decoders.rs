use nups2::dma::{D3dxparameterClass, D3dxparameterType, Dma};
use nups2::dme::{DmeBoneDrawCall, DmeBoneMapEntry, DmeMesh, DmeVertexStream};
use nups2::fsb5::sound_formats::SoundContainer;
use nups2::fsb5::{g_bits32, g_bits64, SoundFormat};

fn dma_bytes() -> Vec<u8> {
    let mut data: Vec<u8> = Vec::new();
    data.extend_from_slice(&[0x44, 0x4D, 0x41, 0x54]); // magic, big endian
    data.extend_from_slice(&4u32.to_le_bytes()); // version
    data.extend_from_slice(&2u32.to_le_bytes()); // skipped name region length
    data.extend_from_slice(&[0xEE, 0xFF]); // skipped name region
    data.extend_from_slice(&1u32.to_le_bytes()); // material count
    data.extend_from_slice(&0x11u32.to_le_bytes()); // material name hash
    data.extend_from_slice(&0u32.to_le_bytes()); // ignored length word
    data.extend_from_slice(&0x22u32.to_le_bytes()); // definition hash
    data.extend_from_slice(&1u32.to_le_bytes()); // parameter count
    data.extend_from_slice(&0x33u32.to_le_bytes()); // parameter name hash
    data.extend_from_slice(&1u32.to_le_bytes()); // class: Vector
    data.extend_from_slice(&3u32.to_le_bytes()); // type: Float
    data.extend_from_slice(&2u32.to_le_bytes()); // value length
    data.extend_from_slice(&[7, 8]); // value bytes
    data
}

#[test]
fn dma_parses_materials_and_parameters() {
    let data = dma_bytes();
    let mut pos: usize = 0;
    let dma = Dma::read(&data, &mut pos).unwrap();
    assert_eq!(pos, data.len());
    assert_eq!(dma.version, 4);
    assert_eq!(dma.materials.len(), 1);
    let material = &dma.materials[0];
    assert_eq!(material.name_hash, 0x11);
    assert_eq!(material.material_definition_hash, 0x22);
    assert_eq!(material.parameters.len(), 1);
    let parameter = &material.parameters[0];
    assert_eq!(parameter.name_hash, 0x33);
    assert_eq!(parameter.d3dx_parameter_class, D3dxparameterClass::Vector);
    assert_eq!(parameter.d3dx_parameter_type, D3dxparameterType::Float);
    assert_eq!(parameter.data, vec![7, 8]);
}

#[test]
fn dma_json_spells_the_whole_library() {
    let data = dma_bytes();
    let mut pos: usize = 0;
    let dma = Dma::read(&data, &mut pos).unwrap();
    assert_eq!(
        dma.materials[0].parameters[0].to_json(),
        "{\"name_hash\": 51, \"d3dx_parameter_class\": \"Vector\", \
         \"d3dx_parameter_type\": \"Float\", \"data\": [7, 8]}"
    );
    assert_eq!(
        dma.to_json(),
        format!(
            "{{\"version\": 4, \"materials\": [{}]}}",
            dma.materials[0].to_json()
        )
    );
}

#[test]
fn dma_rejects_a_bad_magic_and_a_bad_class() {
    let mut data = dma_bytes();
    data[0] = 0;
    let mut pos: usize = 0;
    assert!(Dma::read(&data, &mut pos).is_err());
    assert_eq!(pos, 0);
    let mut data = dma_bytes();
    data[30] = 99; // class word
    let mut pos: usize = 0;
    assert!(Dma::read(&data, &mut pos).is_err());
}

#[test]
fn class_and_type_words_decode_like_the_table() {
    assert_eq!(D3dxparameterClass::try_from(0), Ok(D3dxparameterClass::Scalar));
    assert_eq!(D3dxparameterClass::try_from(3), Ok(D3dxparameterClass::Object));
    assert_eq!(
        D3dxparameterClass::try_from(0x7fffffff),
        Ok(D3dxparameterClass::ForceDword)
    );
    assert_eq!(D3dxparameterClass::try_from(9), Err(()));
    assert_eq!(D3dxparameterType::try_from(19), Ok(D3dxparameterType::Unsupported));
    assert_eq!(D3dxparameterType::try_from(20), Err(()));
}

#[test]
fn dme_mesh_parses_streams_and_index_data() {
    let mut data: Vec<u8> = Vec::new();
    data.extend_from_slice(&5u32.to_le_bytes()); // draw call offset
    data.extend_from_slice(&6u32.to_le_bytes()); // draw call count
    data.extend_from_slice(&7u32.to_le_bytes()); // bone transformation count
    data.extend_from_slice(&0u32.to_le_bytes()); // ignored
    data.extend_from_slice(&1u32.to_le_bytes()); // vertex stream count
    data.extend_from_slice(&2u16.to_le_bytes()); // index size
    data.extend_from_slice(&0u16.to_le_bytes()); // ignored
    data.extend_from_slice(&2u32.to_le_bytes()); // index count
    data.extend_from_slice(&3u32.to_le_bytes()); // vertex count
    data.extend_from_slice(&2u32.to_le_bytes()); // bytes per vertex
    data.extend_from_slice(&[1, 2, 3, 4, 5, 6]); // 2 * 3 packed bytes
    data.extend_from_slice(&[9, 9, 8, 8]); // 2 * 2 index bytes
    let mut pos: usize = 0;
    let mesh = DmeMesh::read(&data, &mut pos).unwrap();
    assert_eq!(pos, data.len());
    assert_eq!(mesh.vertex_count, 3);
    assert_eq!(mesh.index_count, 2);
    assert_eq!(mesh.vertex_streams.len(), 1);
    assert_eq!(mesh.vertex_streams[0].bytes_per_vertex, 2);
    assert_eq!(mesh.vertex_streams[0].data, vec![1, 2, 3, 4, 5, 6]);
    assert_eq!(mesh.index_data, vec![9, 9, 8, 8]);
}

#[test]
fn dme_records_parse_field_by_field() {
    let mut data: Vec<u8> = Vec::new();
    for word in [0u32, 1, 2, 3, 4, 5, 6, 7, 8] {
        data.extend_from_slice(&word.to_le_bytes());
    }
    let mut pos: usize = 0;
    let call = DmeBoneDrawCall::read(&data, &mut pos).unwrap();
    assert_eq!(pos, 36);
    assert_eq!(call.bone_start, 1);
    assert_eq!(call.bone_count, 2);
    assert_eq!(call.delta, 3);
    assert_eq!(call.vertex_offset, 5);
    assert_eq!(call.vertex_count, 6);
    assert_eq!(call.index_offset, 7);
    assert_eq!(call.index_count, 8);

    let map_bytes: Vec<u8> = vec![0x01, 0x00, 0x02, 0x00];
    let mut pos: usize = 0;
    let entry = DmeBoneMapEntry::read(&map_bytes, &mut pos).unwrap();
    assert_eq!(entry.bone_index, 1);
    assert_eq!(entry.global_index, 2);

    let stream_bytes: Vec<u8> = vec![1, 0, 0, 0, 0xAB, 0xCD];
    let mut pos: usize = 0;
    let stream = DmeVertexStream::read(&stream_bytes, &mut pos, 2).unwrap();
    assert_eq!(stream.bytes_per_vertex, 1);
    assert_eq!(stream.data, vec![0xAB, 0xCD]);
}

#[test]
fn sound_format_table_is_keyed_by_id() {
    let vorbis = SoundFormat::get_by_id(15).unwrap();
    assert_eq!(vorbis.name, "vorbis");
    assert_eq!(vorbis.sound_container, SoundContainer::Ogg);
    assert_eq!(vorbis.sound_container.file_extension(), "ogg");
    let none = SoundFormat::get_by_id(0).unwrap();
    assert_eq!(none.sound_container.file_extension(), "bin");
    assert!(SoundFormat::get_by_id(16).is_none());
}

#[test]
fn bit_fields_extract_shifted_masked_ranges() {
    assert_eq!(g_bits64(0b1011_0100, 2, 4), 0b1101);
    assert_eq!(g_bits32(0b1011_0100, 2, 4), 0b1101);
    assert_eq!(g_bits64(u64::MAX, 0, 1), 1);
    // A field ending exactly at the top bit masks everything away, as the
    // wrapped shift amount does in the hardware.
    assert_eq!(g_bits64(u64::MAX, 34, 30), 0);
    assert_eq!(g_bits32(u32::MAX, 2, 30), 0);
}
