//! The integer-valued records of the DME model format: meshes with their
//! vertex streams and index data, bone draw calls, and bone-map entries.

use vstd::prelude::*;

use crate::bin_utils::{le16, le32, read_u16_le, read_u32_le, read_x_bytes};
use crate::error::Nups2Error;

use std::collections::HashMap;

verus! {

broadcast use vstd::std_specs::hash::group_hash_axioms;

/// The mathematical content of one vertex stream.
pub ghost struct DmeVertexStreamModel {
    pub bytes_per_vertex: u32,
    pub data: Seq<u8>,
}

/// One vertex stream: its per-vertex byte width and its packed vertex data.
#[derive(Debug)]
pub struct DmeVertexStream {
    pub bytes_per_vertex: u32,
    pub data: Vec<u8>,
}

impl View for DmeVertexStream {
    type V = DmeVertexStreamModel;

    open spec fn view(&self) -> DmeVertexStreamModel {
        DmeVertexStreamModel { bytes_per_vertex: self.bytes_per_vertex, data: self.data@ }
    }
}

/// One bone draw call.
#[derive(Debug, Clone, Copy, PartialEq, Eq, Structural)]
pub struct DmeBoneDrawCall {
    pub bone_start: u32,
    pub bone_count: u32,
    pub delta: u32,
    pub vertex_offset: u32,
    pub vertex_count: u32,
    pub index_offset: u32,
    pub index_count: u32,
}

/// One bone-map entry: a bone index filed under a global index.
#[derive(Debug, Clone, Copy, PartialEq, Eq, Structural)]
pub struct DmeBoneMapEntry {
    pub bone_index: u16,
    pub global_index: u16,
}

/// The mathematical content of one mesh.
pub ghost struct DmeMeshModel {
    pub vertex_count: u32,
    pub index_count: u32,
    pub draw_call_offset: u32,
    pub draw_call_count: u32,
    pub bone_transformation_count: u32,
    pub index_data: Seq<u8>,
    pub vertex_streams: Seq<DmeVertexStreamModel>,
}

/// One mesh: its counts, its vertex streams, and its raw index data.
#[derive(Debug)]
pub struct DmeMesh {
    pub vertex_count: u32,
    pub index_count: u32,
    pub draw_call_offset: u32,
    pub draw_call_count: u32,
    pub bone_transformation_count: u32,
    pub index_data: Vec<u8>,
    pub vertex_streams: Vec<DmeVertexStream>,
}

impl View for DmeMesh {
    type V = DmeMeshModel;

    open spec fn view(&self) -> DmeMeshModel {
        DmeMeshModel {
            vertex_count: self.vertex_count,
            index_count: self.index_count,
            draw_call_offset: self.draw_call_offset,
            draw_call_count: self.draw_call_count,
            bone_transformation_count: self.bone_transformation_count,
            index_data: self.index_data@,
            vertex_streams: self.vertex_streams@.map_values(|v: DmeVertexStream| v@),
        }
    }
}

/// Parses one vertex stream at `pos`: the per-vertex width, then width times
/// `vertex_count` bytes of packed data.
pub open spec fn parse_vertex_stream(data: Seq<u8>, pos: int, vertex_count: u32) -> Option<(
    DmeVertexStreamModel,
    int,
)> {
    if pos < 0 || pos + 4 > data.len() {
        None
    } else {
        let bytes_per_vertex = le32(data.subrange(pos, pos + 4));
        let span = bytes_per_vertex * vertex_count;
        if pos + 4 + span > data.len() {
            None
        } else {
            Some(
                (
                    DmeVertexStreamModel {
                        bytes_per_vertex,
                        data: data.subrange(pos + 4, pos + 4 + span),
                    },
                    pos + 4 + span,
                ),
            )
        }
    }
}

/// Parses `n` vertex streams in a row starting at `pos`.
pub open spec fn parse_vertex_streams(data: Seq<u8>, pos: int, vertex_count: u32, n: nat) -> Option<
    (Seq<DmeVertexStreamModel>, int),
>
    decreases n,
{
    if n == 0 {
        Some((Seq::empty(), pos))
    } else {
        match parse_vertex_stream(data, pos, vertex_count) {
            None => None,
            Some((v, pos2)) => match parse_vertex_streams(data, pos2, vertex_count, (n - 1) as nat) {
                None => None,
                Some((rest, pos3)) => Some((seq![v] + rest, pos3)),
            },
        }
    }
}

/// Parses one bone draw call at `pos`: nine 4-byte words, two of them
/// ignored.
pub open spec fn parse_bone_draw_call(data: Seq<u8>, pos: int) -> Option<(DmeBoneDrawCall, int)> {
    if pos < 0 || pos + 36 > data.len() {
        None
    } else {
        Some(
            (
                DmeBoneDrawCall {
                    bone_start: le32(data.subrange(pos + 4, pos + 8)),
                    bone_count: le32(data.subrange(pos + 8, pos + 12)),
                    delta: le32(data.subrange(pos + 12, pos + 16)),
                    vertex_offset: le32(data.subrange(pos + 20, pos + 24)),
                    vertex_count: le32(data.subrange(pos + 24, pos + 28)),
                    index_offset: le32(data.subrange(pos + 28, pos + 32)),
                    index_count: le32(data.subrange(pos + 32, pos + 36)),
                },
                pos + 36,
            ),
        )
    }
}

/// Parses one bone-map entry at `pos`: two 2-byte words.
pub open spec fn parse_bone_map_entry(data: Seq<u8>, pos: int) -> Option<(DmeBoneMapEntry, int)> {
    if pos < 0 || pos + 4 > data.len() {
        None
    } else {
        Some(
            (
                DmeBoneMapEntry {
                    bone_index: le16(data.subrange(pos, pos + 2)),
                    global_index: le16(data.subrange(pos + 2, pos + 4)),
                },
                pos + 4,
            ),
        )
    }
}

/// Parses one mesh at `pos`: the fixed 32-byte header (two words of it
/// ignored), then the vertex streams, then the raw index data, whose span is
/// the per-index byte width times the index count.
pub open spec fn parse_mesh(data: Seq<u8>, pos: int) -> Option<(DmeMeshModel, int)> {
    if pos < 0 || pos + 32 > data.len() {
        None
    } else {
        let draw_call_offset = le32(data.subrange(pos, pos + 4));
        let draw_call_count = le32(data.subrange(pos + 4, pos + 8));
        let bone_transformation_count = le32(data.subrange(pos + 8, pos + 12));
        let vertex_stream_count = le32(data.subrange(pos + 16, pos + 20));
        let index_size = le16(data.subrange(pos + 20, pos + 22));
        let index_count = le32(data.subrange(pos + 24, pos + 28));
        let vertex_count = le32(data.subrange(pos + 28, pos + 32));
        match parse_vertex_streams(data, pos + 32, vertex_count, vertex_stream_count as nat) {
            None => None,
            Some((streams, pos2)) => {
                let index_span = index_size * index_count;
                if pos2 + index_span > data.len() {
                    None
                } else {
                    Some(
                        (
                            DmeMeshModel {
                                vertex_count,
                                index_count,
                                draw_call_offset,
                                draw_call_count,
                                bone_transformation_count,
                                index_data: data.subrange(pos2, pos2 + index_span),
                                vertex_streams: streams,
                            },
                            pos2 + index_span,
                        ),
                    )
                }
            },
        }
    }
}

impl DmeVertexStream {
    /// Reads one vertex stream from the cursor: the per-vertex byte width,
    /// then that width times `vertex_count` bytes of packed data.
    pub fn read(data: &[u8], pos: &mut usize, vertex_count: u32) -> (r: Result<
        DmeVertexStream,
        Nups2Error,
    >)
        ensures
            match r {
                Ok(v) => parse_vertex_stream(data@, *old(pos) as int, vertex_count) == Some(
                    (v@, *final(pos) as int),
                ),
                Err(_) => {
                    &&& parse_vertex_stream(data@, *old(pos) as int, vertex_count) is None
                    &&& *final(pos) == *old(pos)
                },
            },
    {
        let mut p: usize = *pos;
        let bytes_per_vertex: u32 = match read_u32_le(data, &mut p) {
            Ok(v) => v,
            Err(e) => { return Err(e) },
        };
        proof {
            assert((bytes_per_vertex as int) * (vertex_count as int) <= 0xFFFFFFFF * 0xFFFFFFFF)
                by (nonlinear_arith)
                requires
                    bytes_per_vertex <= 0xFFFFFFFF,
                    vertex_count <= 0xFFFFFFFF,
            ;
        }
        let span: u64 = (bytes_per_vertex as u64) * (vertex_count as u64);
        if span > (data.len() - p) as u64 {
            return Err(Nups2Error::Truncated);
        }
        let stream_data: Vec<u8> = match read_x_bytes(data, &mut p, span as usize) {
            Ok(v) => v,
            Err(e) => { return Err(e) },
        };
        *pos = p;
        Ok(DmeVertexStream { bytes_per_vertex, data: stream_data })
    }
}

impl DmeBoneDrawCall {
    /// Reads one bone draw call from the cursor.
    pub fn read(data: &[u8], pos: &mut usize) -> (r: Result<DmeBoneDrawCall, Nups2Error>)
        ensures
            match r {
                Ok(v) => parse_bone_draw_call(data@, *old(pos) as int) == Some(
                    (v, *final(pos) as int),
                ),
                Err(e) => {
                    &&& parse_bone_draw_call(data@, *old(pos) as int) is None
                    &&& *final(pos) == *old(pos)
                    &&& e is Truncated
                },
            },
    {
        let mut p: usize = *pos;
        let _unknown_a: u32 = match read_u32_le(data, &mut p) {
            Ok(v) => v,
            Err(e) => { return Err(e) },
        };
        let bone_start: u32 = match read_u32_le(data, &mut p) {
            Ok(v) => v,
            Err(e) => { return Err(e) },
        };
        let bone_count: u32 = match read_u32_le(data, &mut p) {
            Ok(v) => v,
            Err(e) => { return Err(e) },
        };
        let delta: u32 = match read_u32_le(data, &mut p) {
            Ok(v) => v,
            Err(e) => { return Err(e) },
        };
        let _unknown_b: u32 = match read_u32_le(data, &mut p) {
            Ok(v) => v,
            Err(e) => { return Err(e) },
        };
        let vertex_offset: u32 = match read_u32_le(data, &mut p) {
            Ok(v) => v,
            Err(e) => { return Err(e) },
        };
        let vertex_count: u32 = match read_u32_le(data, &mut p) {
            Ok(v) => v,
            Err(e) => { return Err(e) },
        };
        let index_offset: u32 = match read_u32_le(data, &mut p) {
            Ok(v) => v,
            Err(e) => { return Err(e) },
        };
        let index_count: u32 = match read_u32_le(data, &mut p) {
            Ok(v) => v,
            Err(e) => { return Err(e) },
        };
        *pos = p;
        Ok(
            DmeBoneDrawCall {
                bone_start,
                bone_count,
                delta,
                vertex_offset,
                vertex_count,
                index_offset,
                index_count,
            },
        )
    }
}

impl DmeBoneMapEntry {
    /// Reads one bone-map entry from the cursor.
    pub fn read(data: &[u8], pos: &mut usize) -> (r: Result<DmeBoneMapEntry, Nups2Error>)
        ensures
            match r {
                Ok(v) => parse_bone_map_entry(data@, *old(pos) as int) == Some(
                    (v, *final(pos) as int),
                ),
                Err(e) => {
                    &&& parse_bone_map_entry(data@, *old(pos) as int) is None
                    &&& *final(pos) == *old(pos)
                    &&& e is Truncated
                },
            },
    {
        let mut p: usize = *pos;
        let bone_index: u16 = match read_u16_le(data, &mut p) {
            Ok(v) => v,
            Err(e) => { return Err(e) },
        };
        let global_index: u16 = match read_u16_le(data, &mut p) {
            Ok(v) => v,
            Err(e) => { return Err(e) },
        };
        *pos = p;
        Ok(DmeBoneMapEntry { bone_index, global_index })
    }
}

impl DmeMesh {
    /// Reads one mesh from the cursor: the fixed header, the vertex streams,
    /// and the raw index data.
    #[verifier::rlimit(50)]
    pub fn read(data: &[u8], pos: &mut usize) -> (r: Result<DmeMesh, Nups2Error>)
        ensures
            match r {
                Ok(m) => parse_mesh(data@, *old(pos) as int) == Some((m@, *final(pos) as int)),
                Err(_) => parse_mesh(data@, *old(pos) as int) is None && *final(pos) == *old(pos),
            },
    {
        let ghost pos0: int = *pos as int;
        let mut p: usize = *pos;
        let draw_call_offset: u32 = match read_u32_le(data, &mut p) {
            Ok(v) => v,
            Err(e) => { return Err(e) },
        };
        let draw_call_count: u32 = match read_u32_le(data, &mut p) {
            Ok(v) => v,
            Err(e) => { return Err(e) },
        };
        let bone_transformation_count: u32 = match read_u32_le(data, &mut p) {
            Ok(v) => v,
            Err(e) => { return Err(e) },
        };
        let _unknown_a: u32 = match read_u32_le(data, &mut p) {
            Ok(v) => v,
            Err(e) => { return Err(e) },
        };
        let vertex_stream_count: u32 = match read_u32_le(data, &mut p) {
            Ok(v) => v,
            Err(e) => { return Err(e) },
        };
        let index_size: u16 = match read_u16_le(data, &mut p) {
            Ok(v) => v,
            Err(e) => { return Err(e) },
        };
        let _unknown_b: u16 = match read_u16_le(data, &mut p) {
            Ok(v) => v,
            Err(e) => { return Err(e) },
        };
        let index_count: u32 = match read_u32_le(data, &mut p) {
            Ok(v) => v,
            Err(e) => { return Err(e) },
        };
        let vertex_count: u32 = match read_u32_le(data, &mut p) {
            Ok(v) => v,
            Err(e) => { return Err(e) },
        };
        let mut vertex_streams: Vec<DmeVertexStream> = Vec::new();
        let mut i: u32 = 0;
        while i < vertex_stream_count
            invariant
                i <= vertex_stream_count,
                vertex_streams@.len() == i,
                p <= data@.len(),
                0 <= pos0,
                pos0 == *old(pos) as int,
                *pos == *old(pos),
                pos0 + 32 <= data@.len(),
                draw_call_offset == le32(data@.subrange(pos0, pos0 + 4)),
                draw_call_count == le32(data@.subrange(pos0 + 4, pos0 + 8)),
                bone_transformation_count == le32(data@.subrange(pos0 + 8, pos0 + 12)),
                vertex_stream_count == le32(data@.subrange(pos0 + 16, pos0 + 20)),
                index_size == le16(data@.subrange(pos0 + 20, pos0 + 22)),
                index_count == le32(data@.subrange(pos0 + 24, pos0 + 28)),
                vertex_count == le32(data@.subrange(pos0 + 28, pos0 + 32)),
                parse_vertex_streams(data@, pos0 + 32, vertex_count, vertex_stream_count as nat)
                    == (match parse_vertex_streams(
                    data@,
                    p as int,
                    vertex_count,
                    (vertex_stream_count - i) as nat,
                ) {
                    None => None::<(Seq<DmeVertexStreamModel>, int)>,
                    Some((rest, end)) => Some(
                        (vertex_streams@.map_values(|q: DmeVertexStream| q@) + rest, end),
                    ),
                }),
            decreases vertex_stream_count - i,
        {
            let ghost old_views = vertex_streams@.map_values(|q: DmeVertexStream| q@);
            let stream: DmeVertexStream = match DmeVertexStream::read(data, &mut p, vertex_count) {
                Ok(v) => v,
                Err(e) => {
                    proof {
                        assert(parse_vertex_streams(
                            data@,
                            p as int,
                            vertex_count,
                            (vertex_stream_count - i) as nat,
                        ) is None);
                        assert(parse_mesh(data@, pos0) is None);
                    }
                    return Err(e);
                },
            };
            vertex_streams.push(stream);
            i = i + 1;
            proof {
                let new_views = vertex_streams@.map_values(|q: DmeVertexStream| q@);
                assert(new_views =~= old_views.push(vertex_streams@.last()@));
                match parse_vertex_streams(
                    data@,
                    p as int,
                    vertex_count,
                    (vertex_stream_count - i) as nat,
                ) {
                    None => {},
                    Some((rest, end)) => {
                        assert(old_views + (seq![vertex_streams@.last()@] + rest) =~= new_views
                            + rest);
                    },
                }
            }
        }
        proof {
            assert(vertex_streams@.map_values(|q: DmeVertexStream| q@) + Seq::<
                DmeVertexStreamModel,
            >::empty() =~= vertex_streams@.map_values(|q: DmeVertexStream| q@));
        }
        proof {
            assert((index_size as int) * (index_count as int) <= 0xFFFF * 0xFFFFFFFF)
                by (nonlinear_arith)
                requires
                    index_size <= 0xFFFF,
                    index_count <= 0xFFFFFFFF,
            ;
        }
        let index_span: u64 = (index_size as u64) * (index_count as u64);
        if index_span > (data.len() - p) as u64 {
            return Err(Nups2Error::Truncated);
        }
        let index_data: Vec<u8> = match read_x_bytes(data, &mut p, index_span as usize) {
            Ok(v) => v,
            Err(e) => { return Err(e) },
        };
        *pos = p;
        let result = DmeMesh {
            vertex_count,
            index_count,
            draw_call_offset,
            draw_call_count,
            bone_transformation_count,
            index_data,
            vertex_streams,
        };
        proof {
            assert(parse_mesh(data@, pos0) is Some);
            assert(result@.vertex_streams =~= parse_mesh(data@, pos0).unwrap().0.vertex_streams);
            assert(parse_mesh(data@, pos0) == Some((result@, p as int)));
        }
        Ok(result)
    }
}

} // verus!

verus! {

/// The pair of bone maps the first `n` entries build: an entry whose
/// global index is already mapped files its bone index under the global
/// index plus 64 (wrapped) in the first map and under the plain global
/// index in the second; otherwise it files plainly in the first map alone.
pub open spec fn bone_maps_of(entries: Seq<DmeBoneMapEntry>, n: int) -> (
    Map<u16, u16>,
    Map<u16, u16>,
)
    decreases n,
{
    if n <= 0 {
        (Map::empty(), Map::empty())
    } else {
        let (m1, m2) = bone_maps_of(entries, n - 1);
        let e = entries[n - 1];
        if m1.dom().contains(e.global_index) {
            (m1.insert(e.global_index.wrapping_add(64), e.bone_index), m2.insert(
                e.global_index,
                e.bone_index,
            ))
        } else {
            (m1.insert(e.global_index, e.bone_index), m2)
        }
    }
}

/// Builds the two bone maps from a model's bone-map entries.
pub fn build_bonemaps(entries: &Vec<DmeBoneMapEntry>) -> (r: (HashMap<u16, u16>, HashMap<u16, u16>))
    ensures
        r.0@ == bone_maps_of(entries@, entries@.len() as int).0,
        r.1@ == bone_maps_of(entries@, entries@.len() as int).1,
{
    let mut bone_map_1: HashMap<u16, u16> = HashMap::new();
    let mut bone_map_2: HashMap<u16, u16> = HashMap::new();
    let n: usize = entries.len();
    let mut i: usize = 0;
    while i < n
        invariant
            i <= n,
            n == entries@.len(),
            bone_map_1@ == bone_maps_of(entries@, i as int).0,
            bone_map_2@ == bone_maps_of(entries@, i as int).1,
        decreases n - i,
    {
        let entry: DmeBoneMapEntry = entries[i];
        if bone_map_1.contains_key(&entry.global_index) {
            bone_map_1.insert(entry.global_index.wrapping_add(64), entry.bone_index);
            bone_map_2.insert(entry.global_index, entry.bone_index);
        } else {
            bone_map_1.insert(entry.global_index, entry.bone_index);
        }
        i = i + 1;
    }
    (bone_map_1, bone_map_2)
}

} // verus!
