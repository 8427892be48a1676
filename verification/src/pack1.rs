//! The older pack1 archive format: a linked list of chunks, each a counted
//! run of named entries, and the conversion of a pack2 container into it.

use vstd::prelude::*;

use crate::bin_utils::{be32, read_u32_be, read_x_bytes, u32_be_bytes};
use crate::crc64::filename_key;
use crate::error::Nups2Error;
use crate::json_utils::{escape_chars, escape_string};
use crate::pack2;
use crate::strutil::{dec_chars, push_dec_u64, string_from_utf8};
use vstd::string::{StringExecFns, StringSliceAdditionalSpecFns};
use vstd::utf8::{decode_utf8, valid_utf8};

verus! {

/// How converting a pack2 entry with no resolved name is handled.
#[derive(PartialEq, Eq, Clone, Copy, Debug, Structural)]
pub enum UnknownNameHandling {
    ReturnError,
    GenerateName,
    SkipFile,
}

/// The mathematical content of one pack1 entry.
pub ghost struct Pack1AssetModel {
    pub name: Seq<char>,
    pub offset: u32,
    pub data_length: u32,
    pub file_hash: u32,
    pub stream_is_pack2_zipped: bool,
}

/// One pack1 entry: its name, the location and span of its payload, and its
/// checksum. An entry converted from a compressed pack2 entry remembers that
/// its source bytes still need decompressing.
#[derive(Debug)]
pub struct Pack1Asset {
    pub name: String,
    pub offset: u32,
    pub data_length: u32,
    pub file_hash: u32,
    pub stream_is_pack2_zipped: bool,
}

impl View for Pack1Asset {
    type V = Pack1AssetModel;

    open spec fn view(&self) -> Pack1AssetModel {
        Pack1AssetModel {
            name: self.name@,
            offset: self.offset,
            data_length: self.data_length,
            file_hash: self.file_hash,
            stream_is_pack2_zipped: self.stream_is_pack2_zipped,
        }
    }
}

/// One pack1 chunk: a run of entries.
#[derive(Debug)]
pub struct Pack1Chunk {
    pub assets: Vec<Pack1Asset>,
}

impl View for Pack1Chunk {
    type V = Seq<Pack1AssetModel>;

    open spec fn view(&self) -> Seq<Pack1AssetModel> {
        self.assets@.map_values(|a: Pack1Asset| a@)
    }
}

/// A pack1 archive: its chunks, in file order.
#[derive(Debug)]
pub struct Pack1 {
    pub chunks: Vec<Pack1Chunk>,
}

impl View for Pack1 {
    type V = Seq<Seq<Pack1AssetModel>>;

    open spec fn view(&self) -> Seq<Seq<Pack1AssetModel>> {
        self.chunks@.map_values(|c: Pack1Chunk| c@)
    }
}

/// Parses one pack1 entry at `pos`: a big-endian name length, that many
/// bytes of UTF-8 name, then offset, length, and checksum words.
pub open spec fn parse_pack1_asset(data: Seq<u8>, pos: int) -> Option<(Pack1AssetModel, int)> {
    if pos < 0 || pos + 4 > data.len() {
        None
    } else {
        let name_length = be32(data.subrange(pos, pos + 4));
        if pos + 4 + name_length + 12 > data.len() {
            None
        } else {
            let name_bytes = data.subrange(pos + 4, pos + 4 + name_length);
            if !valid_utf8(name_bytes) {
                None
            } else {
                Some(
                    (
                        Pack1AssetModel {
                            name: decode_utf8(name_bytes),
                            offset: be32(
                                data.subrange(pos + 4 + name_length, pos + 8 + name_length),
                            ),
                            data_length: be32(
                                data.subrange(pos + 8 + name_length, pos + 12 + name_length),
                            ),
                            file_hash: be32(
                                data.subrange(pos + 12 + name_length, pos + 16 + name_length),
                            ),
                            stream_is_pack2_zipped: false,
                        },
                        pos + 16 + name_length,
                    ),
                )
            }
        }
    }
}

/// Parses `n` pack1 entries in a row starting at `pos`.
pub open spec fn parse_pack1_assets(data: Seq<u8>, pos: int, n: nat) -> Option<(
    Seq<Pack1AssetModel>,
    int,
)>
    decreases n,
{
    if n == 0 {
        Some((Seq::empty(), pos))
    } else {
        match parse_pack1_asset(data, pos) {
            None => None,
            Some((a, pos2)) => match parse_pack1_assets(data, pos2, (n - 1) as nat) {
                None => None,
                Some((rest, pos3)) => Some((seq![a] + rest, pos3)),
            },
        }
    }
}

/// Parses one pack1 chunk at `pos`: a big-endian entry count, then that many
/// entries.
pub open spec fn parse_pack1_chunk(data: Seq<u8>, pos: int) -> Option<(Seq<Pack1AssetModel>, int)> {
    if pos < 0 || pos + 4 > data.len() {
        None
    } else {
        parse_pack1_assets(data, pos + 4, be32(data.subrange(pos, pos + 4)) as nat)
    }
}

/// Parses the chunk list starting at `pos`: each chunk is preceded by the
/// offset of the next chunk's header, and a zero offset ends the list. An
/// offset that does not move forward would loop for ever, and one past the
/// input could not hold a header; both are rejected.
pub open spec fn parse_pack1_chunks(data: Seq<u8>, pos: int) -> Option<Seq<Seq<Pack1AssetModel>>>
    decreases data.len() - pos,
{
    if pos < 0 || pos + 4 > data.len() {
        None
    } else {
        let next = be32(data.subrange(pos, pos + 4));
        match parse_pack1_chunk(data, pos + 4) {
            None => None,
            Some((chunk, _)) => {
                if next == 0 {
                    Some(seq![chunk])
                } else if next <= pos || next >= data.len() {
                    None
                } else {
                    match parse_pack1_chunks(data, next as int) {
                        None => None,
                        Some(rest) => Some(seq![chunk] + rest),
                    }
                }
            },
        }
    }
}

impl Pack1Asset {
    /// Reads one entry from the cursor.
    pub fn load_from_br(data: &[u8], pos: &mut usize) -> (r: Result<Pack1Asset, Nups2Error>)
        ensures
            match r {
                Ok(a) => parse_pack1_asset(data@, *old(pos) as int) == Some(
                    (a@, *final(pos) as int),
                ),
                Err(_) => {
                    &&& parse_pack1_asset(data@, *old(pos) as int) is None
                    &&& *final(pos) == *old(pos)
                },
            },
    {
        let mut p: usize = *pos;
        let name_length: u32 = match read_u32_be(data, &mut p) {
            Ok(v) => v,
            Err(e) => { return Err(e) },
        };
        if (name_length as u64) + 12 > (data.len() - p) as u64 {
            return Err(Nups2Error::Truncated);
        }
        let name_bytes: Vec<u8> = match read_x_bytes(data, &mut p, name_length as usize) {
            Ok(v) => v,
            Err(e) => { return Err(e) },
        };
        let name: String = match string_from_utf8(name_bytes) {
            Ok(v) => v,
            Err(e) => { return Err(e) },
        };
        let offset: u32 = match read_u32_be(data, &mut p) {
            Ok(v) => v,
            Err(e) => { return Err(e) },
        };
        let data_length: u32 = match read_u32_be(data, &mut p) {
            Ok(v) => v,
            Err(e) => { return Err(e) },
        };
        let file_hash: u32 = match read_u32_be(data, &mut p) {
            Ok(v) => v,
            Err(e) => { return Err(e) },
        };
        *pos = p;
        Ok(Pack1Asset { name, offset, data_length, file_hash, stream_is_pack2_zipped: false })
    }

    /// The byte length of this entry's header record: four fixed words plus
    /// the name's bytes.
    pub fn header_length(&self) -> (r: Option<u32>)
        ensures
            match r {
                Some(v) => v == 16 + unicode_byte_len_of(self.name@),
                None => 16 + unicode_byte_len_of(self.name@) > u32::MAX,
            },
    {
        let name_str: &str = self.name.as_str();
        let name_len: usize = name_str.len();
        proof {
            assert(name_str.spec_bytes() == vstd::utf8::encode_utf8(self.name@));
        }
        if name_len as u64 > (u32::MAX as u64) - 16 {
            return None;
        }
        Some(16 + (name_len as u32))
    }

    /// Appends this entry's extracted payload: a plain copy of its span from
    /// the source archive, or, for an entry converted from a compressed
    /// pack2 entry, the first `data_length` bytes the source span
    /// decompresses to.
    pub fn clone_data(&self, pack_data: &[u8], out: &mut Vec<u8>) -> (r: Result<(), Nups2Error>)
        ensures
            match r {
                Ok(_) => pack1_payload(pack_data@, self@) is Some && final(out)@ == old(out)@
                    + pack1_payload(pack_data@, self@).unwrap(),
                Err(_) => pack1_payload(pack_data@, self@) is None && final(out)@ == old(out)@,
            },
    {
        if self.stream_is_pack2_zipped {
            if (self.offset as u64) + 8 > pack_data.len() as u64 {
                return Err(Nups2Error::Truncated);
            }
            let start: usize = self.offset as usize + 8;
            let mut p: usize = start;
            let raw: Vec<u8> = match read_x_bytes(pack_data, &mut p, pack_data.len() - start) {
                Ok(v) => v,
                Err(e) => { return Err(e) },
            };
            let inflated: Vec<u8> = match crate::zlib::inflate(raw.as_slice()) {
                Ok(v) => v,
                Err(e) => { return Err(e) },
            };
            if inflated.len() < self.data_length as usize {
                return Err(Nups2Error::Truncated);
            }
            let mut q: usize = 0;
            match crate::bin_utils::clone_big_x_bytes(
                inflated.as_slice(),
                &mut q,
                out,
                self.data_length as usize,
            ) {
                Ok(_) => {},
                Err(e) => { return Err(e) },
            }
            Ok(())
        } else {
            if (self.offset as u64) + (self.data_length as u64) > pack_data.len() as u64 {
                return Err(Nups2Error::Truncated);
            }
            let mut p: usize = self.offset as usize;
            match crate::bin_utils::clone_big_x_bytes(pack_data, &mut p, out, self.data_length as usize) {
                Ok(_) => {},
                Err(e) => { return Err(e) },
            }
            Ok(())
        }
    }

    /// Renders this entry as one JSON object. The field spellings follow the
    /// archive's own headers, including the historical `offest` key.
    pub fn as_json(&self) -> (r: String)
        ensures
            r@ == pack1_asset_json(self@),
    {
        let mut out: String = String::new();
        out.append("{\"name\":");
        let escaped: String = escape_string(self.name.as_str());
        out.append(escaped.as_str());
        out.append(",\"offest\":");
        push_dec_u64(&mut out, self.offset as u64);
        out.append(",\"data_length\":");
        push_dec_u64(&mut out, self.data_length as u64);
        out.append(",\"file_hash\":");
        push_dec_u64(&mut out, self.file_hash as u64);
        out.append("}");
        out
    }

    /// Rebuilds a pack2 entry from this one, quickly: the key is rehashed
    /// from the name, and the content checksum is left unset.
    pub fn as_pack2_asset_fast(&self) -> (r: pack2::Asset)
        ensures
            r@.name == Some(self.name@),
            r@.name_hash == filename_key(self.name@),
            r@.offset == self.offset,
            r@.data_length == self.data_length,
            !r@.is_zipped,
            r@.data_hash == 0,
            r@.unzipped_length == 0,
    {
        pack2::Asset {
            name: Some(self.name.clone()),
            name_hash: crate::crc64::convert_filename(self.name.as_str()),
            offset: self.offset as u64,
            data_length: self.data_length as u64,
            is_zipped: false,
            data_hash: 0,
            unzipped_length: 0,
        }
    }

    /// Converts one pack2 entry. An entry with no resolved name is an error,
    /// is skipped by the caller, or gets a generated name, as the handling
    /// mode says; an entry whose figures exceed what pack1's 32-bit words
    /// can carry is always an error.
    pub fn from_pack2_asset(p2a: pack2::Asset, unknown_name_handling: &UnknownNameHandling) -> (r:
        Result<Pack1Asset, &'static str>)
        ensures
            match r {
                Ok(a) => converted_asset(p2a@, *unknown_name_handling) == Some(a@),
                Err(_) => converted_asset(p2a@, *unknown_name_handling) is None,
            },
    {
        let name: String = match p2a.name {
            Some(p2a_name) => p2a_name,
            None => {
                match unknown_name_handling {
                    UnknownNameHandling::ReturnError | UnknownNameHandling::SkipFile => {
                        return Err("Can't convert a pack2 asset with a unknown name to pack1");
                    },
                    UnknownNameHandling::GenerateName => {
                        let mut generated: String = String::new();
                        generated.append("crc_64_");
                        push_dec_u64(&mut generated, p2a.name_hash);
                        generated
                    },
                }
            },
        };
        if p2a.offset > (u32::MAX as u64) || p2a.data_length > (u32::MAX as u64) {
            return Err(
                "Can't convert a pack2 asset to a pack1 asset due to pack1 limitations (u32::MAX < u64::MAX)",
            );
        }
        Ok(
            Pack1Asset {
                name,
                offset: p2a.offset as u32,
                data_length: if p2a.is_zipped {
                    p2a.unzipped_length
                } else {
                    p2a.data_length as u32
                },
                file_hash: p2a.data_hash,
                stream_is_pack2_zipped: p2a.is_zipped,
            },
        )
    }
}

/// What cloning a pack1 entry's payload from a source archive yields: the
/// entry's span, decompressed and cut to length first when the entry came
/// from a compressed pack2 entry.
pub open spec fn pack1_payload(pack_data: Seq<u8>, a: Pack1AssetModel) -> Option<Seq<u8>> {
    if a.stream_is_pack2_zipped {
        if a.offset + 8 > pack_data.len() {
            None
        } else {
            match crate::zlib::zlib_inflate(
                pack_data.subrange(a.offset + 8, pack_data.len() as int),
            ) {
                None => None,
                Some(inflated) => if inflated.len() < a.data_length {
                    None
                } else {
                    Some(inflated.subrange(0, a.data_length as int))
                },
            }
        }
    } else {
        if a.offset + a.data_length > pack_data.len() {
            None
        } else {
            Some(pack_data.subrange(a.offset as int, a.offset + a.data_length))
        }
    }
}

/// The byte length of a character sequence's UTF-8 encoding, as the machine
/// word holds it.
pub open spec fn unicode_byte_len_of(s: Seq<char>) -> usize {
    vstd::utf8::encode_utf8(s).len() as usize
}

/// The JSON rendering of one pack1 entry.
pub open spec fn pack1_asset_json(a: Pack1AssetModel) -> Seq<char> {
    "{\"name\":"@ + seq!['"'] + escape_chars(a.name) + seq!['"'] + ",\"offest\":"@ + dec_chars(
        a.offset as nat,
    ) + ",\"data_length\":"@ + dec_chars(a.data_length as nat) + ",\"file_hash\":"@ + dec_chars(
        a.file_hash as nat,
    ) + "}"@
}

/// The generated fallback name for a pack2 entry with no resolved name.
pub open spec fn generated_name(name_hash: u64) -> Seq<char> {
    "crc_64_"@ + dec_chars(name_hash as nat)
}

/// What converting one pack2 entry yields, or nothing where the conversion
/// fails: a nameless entry under the error-returning or skipping modes, or
/// an entry whose offset or length does not fit pack1's 32-bit words.
pub open spec fn converted_asset(
    a: crate::pack2::AssetModel,
    handling: UnknownNameHandling,
) -> Option<Pack1AssetModel> {
    let name = match a.name {
        Some(n) => Some(n),
        None => match handling {
            UnknownNameHandling::GenerateName => Some(generated_name(a.name_hash)),
            _ => None,
        },
    };
    match name {
        None => None,
        Some(n) => if a.offset > u32::MAX || a.data_length > u32::MAX {
            None
        } else {
            Some(
                Pack1AssetModel {
                    name: n,
                    offset: a.offset as u32,
                    data_length: if a.is_zipped {
                        a.unzipped_length
                    } else {
                        a.data_length as u32
                    },
                    file_hash: a.data_hash,
                    stream_is_pack2_zipped: a.is_zipped,
                },
            )
        },
    }
}

/// What converting a whole pack2 container yields under the given handling
/// mode: under the skipping mode nameless entries are dropped first; any
/// other failure fails the whole conversion.
pub open spec fn converted_assets(
    assets: Seq<crate::pack2::AssetModel>,
    handling: UnknownNameHandling,
) -> Option<Seq<Pack1AssetModel>>
    decreases assets.len(),
{
    if assets.len() == 0 {
        Some(Seq::empty())
    } else {
        match converted_assets(assets.drop_last(), handling) {
            None => None,
            Some(rest) => {
                let a = assets.last();
                if handling is SkipFile && a.name is None {
                    Some(rest)
                } else {
                    match converted_asset(a, handling) {
                        None => None,
                        Some(c) => Some(rest.push(c)),
                    }
                }
            },
        }
    }
}

impl Pack1 {
    /// Parses a whole pack1 archive from its bytes: chunks chained by
    /// next-header offsets, ending at a zero offset.
    pub fn load_from_bytes(data: &[u8]) -> (r: Result<Pack1, Nups2Error>)
        ensures
            match r {
                Ok(p) => parse_pack1_chunks(data@, 0) == Some(p@),
                Err(_) => parse_pack1_chunks(data@, 0) is None,
            },
    {
        let mut chunks: Vec<Pack1Chunk> = Vec::new();
        let mut pos: usize = 0;
        loop
            invariant_except_break
                pos <= data@.len(),
                parse_pack1_chunks(data@, 0) == (match parse_pack1_chunks(data@, pos as int) {
                    None => None::<Seq<Seq<Pack1AssetModel>>>,
                    Some(rest) => Some(chunks@.map_values(|c: Pack1Chunk| c@) + rest),
                }),
            ensures
                parse_pack1_chunks(data@, 0) == Some(chunks@.map_values(|c: Pack1Chunk| c@)),
            decreases data@.len() - pos,
        {
            let ghost old_views = chunks@.map_values(|c: Pack1Chunk| c@);
            let mut p: usize = pos;
            let next_chunk: u32 = match read_u32_be(data, &mut p) {
                Ok(v) => v,
                Err(e) => { return Err(e) },
            };
            let chunk: Pack1Chunk = match Pack1Chunk::load_from_br(data, &mut p) {
                Ok(v) => v,
                Err(e) => { return Err(e) },
            };
            chunks.push(chunk);
            proof {
                assert(chunks@.map_values(|c: Pack1Chunk| c@) =~= old_views.push(
                    chunks@.last()@,
                ));
            }
            if next_chunk == 0 {
                proof {
                    assert(parse_pack1_chunks(data@, pos as int) == Some(
                        seq![chunks@.last()@],
                    ));
                    assert(old_views + seq![chunks@.last()@] =~= chunks@.map_values(
                        |c: Pack1Chunk| c@,
                    ));
                }
                break;
            }
            if next_chunk as usize <= pos {
                return Err(Nups2Error::Other("pack1 chunk chain does not move forward"));
            }
            if next_chunk as usize >= data.len() {
                return Err(Nups2Error::Truncated);
            }
            proof {
                match parse_pack1_chunks(data@, next_chunk as int) {
                    None => {},
                    Some(rest) => {
                        assert(old_views + (seq![chunks@.last()@] + rest) =~= chunks@.map_values(
                            |c: Pack1Chunk| c@,
                        ) + rest);
                    },
                }
            }
            pos = next_chunk as usize;
        }
        Ok(Pack1 { chunks })
    }
}

impl Pack1Chunk {
    /// Reads one chunk from the cursor: a big-endian entry count, then that
    /// many entries.
    pub fn load_from_br(data: &[u8], pos: &mut usize) -> (r: Result<Pack1Chunk, Nups2Error>)
        ensures
            match r {
                Ok(c) => parse_pack1_chunk(data@, *old(pos) as int) == Some(
                    (c@, *final(pos) as int),
                ),
                Err(_) => {
                    &&& parse_pack1_chunk(data@, *old(pos) as int) is None
                    &&& *final(pos) == *old(pos)
                },
            },
    {
        let ghost pos0: int = *pos as int;
        let mut p: usize = *pos;
        let asset_count: u32 = match read_u32_be(data, &mut p) {
            Ok(v) => v,
            Err(e) => { return Err(e) },
        };
        let mut assets: Vec<Pack1Asset> = Vec::new();
        let mut i: u32 = 0;
        while i < asset_count
            invariant
                i <= asset_count,
                assets@.len() == i,
                0 <= pos0,
                pos0 == *old(pos) as int,
                *pos == *old(pos),
                pos0 + 4 <= data@.len(),
                asset_count == be32(data@.subrange(pos0, pos0 + 4)),
                parse_pack1_assets(data@, pos0 + 4, asset_count as nat) == (match parse_pack1_assets(
                    data@,
                    p as int,
                    (asset_count - i) as nat,
                ) {
                    None => None::<(Seq<Pack1AssetModel>, int)>,
                    Some((rest, end)) => Some(
                        (assets@.map_values(|q: Pack1Asset| q@) + rest, end),
                    ),
                }),
            decreases asset_count - i,
        {
            let ghost old_views = assets@.map_values(|q: Pack1Asset| q@);
            let asset: Pack1Asset = match Pack1Asset::load_from_br(data, &mut p) {
                Ok(v) => v,
                Err(e) => {
                    proof {
                        assert(parse_pack1_assets(
                            data@,
                            p as int,
                            (asset_count - i) as nat,
                        ) is None);
                        assert(parse_pack1_chunk(data@, pos0) is None);
                    }
                    return Err(e);
                },
            };
            assets.push(asset);
            i = i + 1;
            proof {
                let new_views = assets@.map_values(|q: Pack1Asset| q@);
                assert(new_views =~= old_views.push(assets@.last()@));
                match parse_pack1_assets(data@, p as int, (asset_count - i) as nat) {
                    None => {},
                    Some((rest, end)) => {
                        assert(old_views + (seq![assets@.last()@] + rest) =~= new_views + rest);
                    },
                }
            }
        }
        *pos = p;
        proof {
            assert(assets@.map_values(|q: Pack1Asset| q@) + Seq::<
                Pack1AssetModel,
            >::empty() =~= assets@.map_values(|q: Pack1Asset| q@));
        }
        let result = Pack1Chunk { assets };
        proof {
            assert(parse_pack1_chunk(data@, pos0) is Some);
            assert(result@ =~= parse_pack1_chunk(data@, pos0).unwrap().0);
            assert(parse_pack1_chunk(data@, pos0) == Some((result@, p as int)));
        }
        Ok(result)
    }

    /// Renders this chunk as one JSON object.
    pub fn as_json(&self) -> (r: String)
        ensures
            r@ == pack1_chunk_json(self@),
    {
        let mut out: String = String::new();
        out.append("{\"assets\":[");
        let ghost models = self@;
        let n: usize = self.assets.len();
        let mut i: usize = 0;
        while i < n
            invariant
                i <= n,
                n == self.assets@.len(),
                models == self@,
                models.len() == n,
                forall|j: int| 0 <= j < n ==> #[trigger] self.assets@[j]@ == models[j],
                out@ == "{\"assets\":["@ + pack1_assets_json_list(models, i as int),
            decreases n - i,
        {
            if i > 0 {
                out.append(",");
                proof {
                    reveal_strlit(",");
                    assert(","@ =~= seq![',']);
                }
            }
            let piece: String = self.assets[i].as_json();
            out.append(piece.as_str());
            i = i + 1;
        }
        out.append("]}");
        out
    }
}

/// The first `n` entries' JSON renderings, joined by commas.
pub open spec fn pack1_assets_json_list(assets: Seq<Pack1AssetModel>, n: int) -> Seq<char>
    decreases n,
{
    if n <= 0 {
        Seq::empty()
    } else if n == 1 {
        pack1_asset_json(assets[0])
    } else {
        pack1_assets_json_list(assets, n - 1) + seq![','] + pack1_asset_json(assets[n - 1])
    }
}

/// The JSON rendering of one chunk.
pub open spec fn pack1_chunk_json(assets: Seq<Pack1AssetModel>) -> Seq<char> {
    "{\"assets\":["@ + pack1_assets_json_list(assets, assets.len() as int) + "]}"@
}

/// The first `n` chunks' JSON renderings, joined by commas.
pub open spec fn pack1_chunks_json_list(chunks: Seq<Seq<Pack1AssetModel>>, n: int) -> Seq<char>
    decreases n,
{
    if n <= 0 {
        Seq::empty()
    } else if n == 1 {
        pack1_chunk_json(chunks[0])
    } else {
        pack1_chunks_json_list(chunks, n - 1) + seq![','] + pack1_chunk_json(chunks[n - 1])
    }
}

/// The JSON rendering of a whole pack1 archive.
pub open spec fn pack1_json(chunks: Seq<Seq<Pack1AssetModel>>) -> Seq<char> {
    "{\"chunks\":["@ + pack1_chunks_json_list(chunks, chunks.len() as int) + "]}"@
}

impl Pack1 {
    /// Renders this archive as one JSON object.
    pub fn as_json(&self) -> (r: String)
        ensures
            r@ == pack1_json(self@),
    {
        let mut out: String = String::new();
        out.append("{\"chunks\":[");
        let ghost models = self@;
        let n: usize = self.chunks.len();
        let mut i: usize = 0;
        while i < n
            invariant
                i <= n,
                n == self.chunks@.len(),
                models == self@,
                models.len() == n,
                forall|j: int| 0 <= j < n ==> #[trigger] self.chunks@[j]@ == models[j],
                out@ == "{\"chunks\":["@ + pack1_chunks_json_list(models, i as int),
            decreases n - i,
        {
            if i > 0 {
                out.append(",");
                proof {
                    reveal_strlit(",");
                    assert(","@ =~= seq![',']);
                }
            }
            let piece: String = self.chunks[i].as_json();
            out.append(piece.as_str());
            i = i + 1;
        }
        out.append("]}");
        out
    }

    /// Converts a whole pack2 container into a single-chunk pack1 archive.
    /// Under the skipping mode, nameless entries are dropped; under the
    /// other modes a nameless entry fails the conversion, as does any entry
    /// whose figures exceed pack1's 32-bit words.
    pub fn from_pack2(p2: pack2::Pack2, unknown_name_handling: &UnknownNameHandling) -> (r: Result<
        Pack1,
        &'static str,
    >)
        ensures
            match r {
                Ok(p) => {
                    &&& p@.len() == 1
                    &&& converted_assets(p2@.assets, *unknown_name_handling) == Some(p@[0])
                },
                Err(_) => converted_assets(p2@.assets, *unknown_name_handling) is None,
            },
    {
        let handling: UnknownNameHandling = *unknown_name_handling;
        let mut assets: Vec<Pack1Asset> = Vec::new();
        let mut source: Vec<pack2::Asset> = p2.assets;
        let n: usize = source.len();
        let ghost source_models = source@.map_values(|a: pack2::Asset| a@);
        let mut i: usize = 0;
        while i < n
            invariant
                i <= n,
                source@.len() == n - i,
                source_models.len() == n,
                source_models == p2@.assets,
                handling == *unknown_name_handling,
                forall|j: int|
                    0 <= j < n - i ==> #[trigger] source@[j]@ == source_models[j + i],
                converted_assets(source_models.take(i as int), handling) == Some(
                    assets@.map_values(|q: Pack1Asset| q@),
                ),
            decreases n - i,
        {
            let ghost old_views = assets@.map_values(|q: Pack1Asset| q@);
            let skip: bool = match (&handling, &source[0].name) {
                (UnknownNameHandling::SkipFile, None) => true,
                _ => false,
            };
            let asset: pack2::Asset = source.remove(0);
            proof {
                assert(asset@ == source_models[i as int]);
            }
            if !skip {
                let converted: Pack1Asset = match Pack1Asset::from_pack2_asset(asset, &handling) {
                    Ok(v) => v,
                    Err(e) => {
                        proof {
                            lemma_converted_assets_failure(source_models, handling, i as int);
                        }
                        return Err(e);
                    },
                };
                assets.push(converted);
            }
            i = i + 1;
            proof {
                let cur = source_models.take(i as int);
                assert(cur.drop_last() =~= source_models.take(i - 1));
                assert(cur.last() == source_models[i - 1]);
                assert(assets@.map_values(|q: Pack1Asset| q@) =~= (
                if skip {
                    old_views
                } else {
                    old_views.push(assets@.last()@)
                }));
            }
        }
        proof {
            assert(source_models.take(n as int) =~= source_models);
        }
        let result = Pack1 { chunks: vec![Pack1Chunk { assets }] };
        proof {
            assert(result@.len() == 1);
            assert(result@[0] =~= assets@.map_values(|q: Pack1Asset| q@));
        }
        Ok(result)
    }
}

/// A conversion that fails on the entry at `i` fails for the whole prefix
/// beyond it.
proof fn lemma_converted_assets_failure(
    models: Seq<crate::pack2::AssetModel>,
    handling: UnknownNameHandling,
    i: int,
)
    requires
        0 <= i < models.len(),
        converted_asset(models[i], handling) is None,
        !(handling is SkipFile && models[i].name is None),
    ensures
        converted_assets(models, handling) is None,
{
    lemma_converted_assets_failure_from(models, handling, i, models.len() as int);
    assert(models.take(models.len() as int) =~= models);
}

/// Helper induction for [`lemma_converted_assets_failure`].
proof fn lemma_converted_assets_failure_from(
    models: Seq<crate::pack2::AssetModel>,
    handling: UnknownNameHandling,
    i: int,
    n: int,
)
    requires
        0 <= i < n <= models.len(),
        converted_asset(models[i], handling) is None,
        !(handling is SkipFile && models[i].name is None),
    ensures
        converted_assets(models.take(n), handling) is None,
    decreases n,
{
    if n == i + 1 {
        assert(models.take(n).drop_last() =~= models.take(n - 1));
        assert(models.take(n).last() == models[i]);
    } else {
        lemma_converted_assets_failure_from(models, handling, i, n - 1);
        assert(models.take(n).drop_last() =~= models.take(n - 1));
    }
}

} // verus!

verus! {

/// The wrapped sum of the first `n` entry-header lengths: 16 fixed bytes
/// plus the name's bytes, each.
pub open spec fn assets_hdr_len(assets: Seq<Pack1AssetModel>, n: int) -> u32
    decreases n,
{
    if n <= 0 {
        0u32
    } else {
        assets_hdr_len(assets, n - 1).wrapping_add(
            16u32.wrapping_add(unicode_byte_len_of(assets[n - 1].name) as u32),
        )
    }
}

/// The wrapped sum of the first `n` chunk-header lengths: 8 bytes of chunk
/// framing plus the entry headers, each.
pub open spec fn chunks_hdr_len(chunks: Seq<Seq<Pack1AssetModel>>, n: int) -> u32
    decreases n,
{
    if n <= 0 {
        0u32
    } else {
        chunks_hdr_len(chunks, n - 1).wrapping_add(
            8u32.wrapping_add(assets_hdr_len(chunks[n - 1], chunks[n - 1].len() as int)),
        )
    }
}

/// The whole header region's length: every chunk header plus the closing
/// zero word.
pub open spec fn pack1_header_length(chunks: Seq<Seq<Pack1AssetModel>>) -> u32 {
    chunks_hdr_len(chunks, chunks.len() as int).wrapping_add(4)
}

/// The header offset of chunk `i`: the historical starting value of one,
/// advanced past the earlier chunk headers.
pub open spec fn chunk_hdr_offset(chunks: Seq<Seq<Pack1AssetModel>>, i: int) -> u32
    decreases i,
{
    if i <= 0 {
        1u32
    } else {
        chunk_hdr_offset(chunks, i - 1).wrapping_add(
            8u32.wrapping_add(assets_hdr_len(chunks[i - 1], chunks[i - 1].len() as int)),
        )
    }
}

/// The wrapped sum of the first `n` entries' payload lengths.
pub open spec fn chunk_data_len(assets: Seq<Pack1AssetModel>, n: int) -> u32
    decreases n,
{
    if n <= 0 {
        0u32
    } else {
        chunk_data_len(assets, n - 1).wrapping_add(assets[n - 1].data_length)
    }
}

/// The payload cursor at the start of chunk `i`: the header region, then
/// every earlier chunk's payloads.
pub open spec fn data_cursor(chunks: Seq<Seq<Pack1AssetModel>>, i: int) -> u32
    decreases i,
{
    if i <= 0 {
        pack1_header_length(chunks)
    } else {
        data_cursor(chunks, i - 1).wrapping_add(
            chunk_data_len(chunks[i - 1], chunks[i - 1].len() as int),
        )
    }
}

/// One entry's header record: the name's length and bytes, then the
/// payload offset, payload length, and checksum words, all big-endian.
pub open spec fn asset_record(a: Pack1AssetModel, offset: u32) -> Seq<u8> {
    u32_be_bytes(unicode_byte_len_of(a.name) as u32) + vstd::utf8::encode_utf8(a.name)
        + u32_be_bytes(offset) + u32_be_bytes(a.data_length) + u32_be_bytes(a.file_hash)
}

/// The first `n` entry records of chunk `i`, each carrying its payload
/// offset.
pub open spec fn chunk_records(
    chunks: Seq<Seq<Pack1AssetModel>>,
    assets: Seq<Pack1AssetModel>,
    i: int,
    n: int,
) -> Seq<u8>
    decreases n,
{
    if n <= 0 {
        Seq::empty()
    } else {
        chunk_records(chunks, assets, i, n - 1) + asset_record(
            assets[n - 1],
            data_cursor(chunks, i).wrapping_add(chunk_data_len(assets, n - 1)),
        )
    }
}

/// The first `n` chunk headers: each names the next chunk's header offset
/// (zero for the last), its entry count, and its entry records.
pub open spec fn chunks_header_bytes(chunks: Seq<Seq<Pack1AssetModel>>, n: int) -> Seq<u8>
    decreases n,
{
    if n <= 0 {
        Seq::empty()
    } else {
        chunks_header_bytes(chunks, n - 1) + u32_be_bytes(
            if n < chunks.len() {
                chunk_hdr_offset(chunks, n)
            } else {
                0u32
            },
        ) + u32_be_bytes(chunks[n - 1].len() as u32) + chunk_records(
            chunks,
            chunks[n - 1],
            n - 1,
            chunks[n - 1].len() as int,
        )
    }
}

/// The first `n` payloads of one chunk, cloned from the source archive;
/// nothing when any clone fails.
pub open spec fn chunk_payload_bytes(
    pack_data: Seq<u8>,
    assets: Seq<Pack1AssetModel>,
    n: int,
) -> Option<Seq<u8>>
    decreases n,
{
    if n <= 0 {
        Some(Seq::empty())
    } else {
        match chunk_payload_bytes(pack_data, assets, n - 1) {
            None => None,
            Some(acc) => match pack1_payload(pack_data, assets[n - 1]) {
                None => None,
                Some(payload) => Some(acc + payload),
            },
        }
    }
}

/// The first `n` chunks' payloads, cloned from the source archive.
pub open spec fn chunks_payload_bytes(
    pack_data: Seq<u8>,
    chunks: Seq<Seq<Pack1AssetModel>>,
    n: int,
) -> Option<Seq<u8>>
    decreases n,
{
    if n <= 0 {
        Some(Seq::empty())
    } else {
        match chunks_payload_bytes(pack_data, chunks, n - 1) {
            None => None,
            Some(acc) => match chunk_payload_bytes(
                pack_data,
                chunks[n - 1],
                chunks[n - 1].len() as int,
            ) {
                None => None,
                Some(payload) => Some(acc + payload),
            },
        }
    }
}

/// Whether every chunk is empty of entries.
pub open spec fn all_chunks_empty(chunks: Seq<Seq<Pack1AssetModel>>) -> bool {
    forall|i: int| 0 <= i < chunks.len() ==> (#[trigger] chunks[i]).len() == 0
}

/// What serializing a pack1 archive yields: a lone zero word for an archive
/// with nothing in it; otherwise the chunk headers, the closing zero word,
/// and every payload cloned from the source archive in order. Nothing when
/// any payload cannot be cloned.
pub open spec fn pack1_write_spec(
    chunks: Seq<Seq<Pack1AssetModel>>,
    pack_data: Seq<u8>,
) -> Option<Seq<u8>> {
    if chunks.len() == 0 || all_chunks_empty(chunks) {
        Some(u32_be_bytes(0))
    } else {
        match chunks_payload_bytes(pack_data, chunks, chunks.len() as int) {
            None => None,
            Some(payloads) => Some(
                chunks_header_bytes(chunks, chunks.len() as int) + u32_be_bytes(0) + payloads,
            ),
        }
    }
}

} // verus!

verus! {

/// Wrapped addition is associative.
proof fn lemma_wadd_assoc(a: u32, b: u32, c: u32)
    ensures
        a.wrapping_add(b).wrapping_add(c) == a.wrapping_add(b.wrapping_add(c)),
{
}

/// A payload that cannot be cloned fails its whole chunk.
proof fn lemma_chunk_payload_failure(
    pack_data: Seq<u8>,
    assets: Seq<Pack1AssetModel>,
    j: int,
    n: int,
)
    requires
        0 <= j < n <= assets.len(),
        pack1_payload(pack_data, assets[j]) is None,
    ensures
        chunk_payload_bytes(pack_data, assets, n) is None,
    decreases n,
{
    if n > j + 1 {
        lemma_chunk_payload_failure(pack_data, assets, j, n - 1);
    }
}

/// A chunk whose payloads fail fails the whole archive's payload region.
proof fn lemma_chunks_payload_failure(
    pack_data: Seq<u8>,
    chunks: Seq<Seq<Pack1AssetModel>>,
    i: int,
    n: int,
)
    requires
        0 <= i < n <= chunks.len(),
        chunk_payload_bytes(pack_data, chunks[i], chunks[i].len() as int) is None,
    ensures
        chunks_payload_bytes(pack_data, chunks, n) is None,
    decreases n,
{
    if n > i + 1 {
        lemma_chunks_payload_failure(pack_data, chunks, i, n - 1);
    }
}

impl Pack1 {
    /// The wrapped header length of one chunk's entries, as written.
    fn chunk_assets_header_len(&self, i: usize) -> (r: u32)
        requires
            i < self.chunks@.len(),
        ensures
            r == assets_hdr_len(self@[i as int], self@[i as int].len() as int),
    {
        let ghost assets_v = self@[i as int];
        let count: usize = self.chunks[i].assets.len();
        let mut total: u32 = 0;
        let mut j: usize = 0;
        while j < count
            invariant
                j <= count,
                i < self.chunks@.len(),
                assets_v == self@[i as int],
                count == assets_v.len(),
                total == assets_hdr_len(assets_v, j as int),
            decreases count - j,
        {
            proof {
                assert(self.chunks@[i as int]@[j as int] == assets_v[j as int]);
            }
            let name_len: u32 = self.chunks[i].assets[j].name.as_str().len() as u32;
            total = total.wrapping_add(16u32.wrapping_add(name_len));
            j = j + 1;
        }
        total
    }

    /// Serializes this archive against the source archive its payloads
    /// still live in: every chunk header with its forward offsets, the
    /// closing zero word, then every payload cloned in order. An archive
    /// with nothing in it is written as the lone zero word.
    #[verifier::rlimit(100)]
    pub fn write(&self, old_pack_data: &[u8]) -> (r: Result<Vec<u8>, Nups2Error>)
        ensures
            match r {
                Ok(v) => pack1_write_spec(self@, old_pack_data@) == Some(v@),
                Err(_) => pack1_write_spec(self@, old_pack_data@) is None,
            },
    {
        let ghost chunks_v = self@;
        let n: usize = self.chunks.len();
        let mut all_empty: bool = true;
        let mut e: usize = 0;
        while e < n
            invariant
                e <= n,
                n == chunks_v.len(),
                chunks_v == self@,
                all_empty == (forall|q: int| 0 <= q < e ==> (#[trigger] chunks_v[q]).len() == 0),
            decreases n - e,
        {
            proof {
                assert(self.chunks@[e as int]@ == chunks_v[e as int]);
            }
            if self.chunks[e].assets.len() > 0 {
                all_empty = false;
            } else {
                all_empty = all_empty && true;
            }
            e = e + 1;
        }
        if n == 0 || all_empty {
            let mut out: Vec<u8> = Vec::new();
            crate::bin_utils::write_u32_be(0, &mut out);
            proof {
                assert(out@ =~= u32_be_bytes(0));
            }
            return Ok(out);
        }
        let mut hl: u32 = 0;
        let mut i: usize = 0;
        while i < n
            invariant
                i <= n,
                n == chunks_v.len(),
                chunks_v == self@,
                hl == chunks_hdr_len(chunks_v, i as int),
            decreases n - i,
        {
            let ca: u32 = self.chunk_assets_header_len(i);
            hl = hl.wrapping_add(8u32.wrapping_add(ca));
            i = i + 1;
        }
        let header_length: u32 = hl.wrapping_add(4);
        proof {
            assert(header_length == pack1_header_length(chunks_v));
        }
        let mut offsets: Vec<u32> = Vec::new();
        let mut current: u32 = 1;
        let mut k: usize = 0;
        while k < n
            invariant
                k <= n,
                n == chunks_v.len(),
                chunks_v == self@,
                offsets@.len() == k,
                current == chunk_hdr_offset(chunks_v, k as int),
                forall|q: int|
                    0 <= q < k ==> #[trigger] offsets@[q] == chunk_hdr_offset(chunks_v, q),
            decreases n - k,
        {
            offsets.push(current);
            let ca: u32 = self.chunk_assets_header_len(k);
            current = current.wrapping_add(8u32.wrapping_add(ca));
            k = k + 1;
        }
        let mut out: Vec<u8> = Vec::new();
        let mut data_off: u32 = header_length;
        let mut i2: usize = 0;
        while i2 < n
            invariant
                i2 <= n,
                n == chunks_v.len(),
                chunks_v == self@,
                offsets@.len() == n,
                header_length == pack1_header_length(chunks_v),
                forall|q: int|
                    0 <= q < n ==> #[trigger] offsets@[q] == chunk_hdr_offset(chunks_v, q),
                data_off == data_cursor(chunks_v, i2 as int),
                out@ == chunks_header_bytes(chunks_v, i2 as int),
            decreases n - i2,
        {
            let next_off: u32 = if i2 + 1 < n {
                offsets[i2 + 1]
            } else {
                0
            };
            crate::bin_utils::write_u32_be(next_off, &mut out);
            let count: usize = self.chunks[i2].assets.len();
            crate::bin_utils::write_u32_be(count as u32, &mut out);
            let ghost assets_v = chunks_v[i2 as int];
            let ghost after_frame = chunks_header_bytes(chunks_v, i2 as int) + u32_be_bytes(
                next_off,
            ) + u32_be_bytes(assets_v.len() as u32);
            proof {
                assert(self.chunks@[i2 as int]@ == assets_v);
                assert(out@ =~= after_frame + chunk_records(chunks_v, assets_v, i2 as int, 0));
            }
            let mut j: usize = 0;
            while j < count
                invariant
                    j <= count,
                    i2 < n,
                    n == chunks_v.len(),
                    chunks_v == self@,
                    assets_v == chunks_v[i2 as int],
                    count == assets_v.len(),
                    after_frame == chunks_header_bytes(chunks_v, i2 as int) + u32_be_bytes(
                        next_off,
                    ) + u32_be_bytes(assets_v.len() as u32),
                    data_off == data_cursor(chunks_v, i2 as int).wrapping_add(
                        chunk_data_len(assets_v, j as int),
                    ),
                    out@ == after_frame + chunk_records(chunks_v, assets_v, i2 as int, j as int),
                decreases count - j,
            {
                proof {
                    assert(self.chunks@[i2 as int]@[j as int] == assets_v[j as int]);
                }
                let name_str: &str = self.chunks[i2].assets[j].name.as_str();
                let name_bytes: &[u8] = name_str.as_bytes();
                crate::bin_utils::write_u32_be(name_bytes.len() as u32, &mut out);
                let mut nb_pos: usize = 0;
                let copied: Result<(), Nups2Error> = crate::bin_utils::clone_big_x_bytes(
                    name_bytes,
                    &mut nb_pos,
                    &mut out,
                    name_bytes.len(),
                );
                proof {
                    assert(copied is Ok);
                    assert(name_bytes@.subrange(0, name_bytes@.len() as int) =~= name_bytes@);
                }
                crate::bin_utils::write_u32_be(data_off, &mut out);
                crate::bin_utils::write_u32_be(self.chunks[i2].assets[j].data_length, &mut out);
                crate::bin_utils::write_u32_be(self.chunks[i2].assets[j].file_hash, &mut out);
                proof {
                    lemma_wadd_assoc(
                        data_cursor(chunks_v, i2 as int),
                        chunk_data_len(assets_v, j as int),
                        assets_v[j as int].data_length,
                    );
                }
                data_off = data_off.wrapping_add(self.chunks[i2].assets[j].data_length);
                j = j + 1;
                proof {
                    assert(out@ =~= after_frame + chunk_records(
                        chunks_v,
                        assets_v,
                        i2 as int,
                        j as int,
                    ));
                }
            }
            i2 = i2 + 1;
            proof {
                assert(out@ =~= chunks_header_bytes(chunks_v, i2 as int));
            }
        }
        crate::bin_utils::write_u32_be(0, &mut out);
        let ghost all_headers = chunks_header_bytes(chunks_v, n as int) + u32_be_bytes(0);
        proof {
            assert(out@ =~= all_headers);
            assert(out@ =~= all_headers + Seq::<u8>::empty());
        }
        let mut i3: usize = 0;
        while i3 < n
            invariant
                i3 <= n,
                n == chunks_v.len(),
                chunks_v == self@,
                n > 0,
                !all_chunks_empty(chunks_v),
                all_headers == chunks_header_bytes(chunks_v, n as int) + u32_be_bytes(0),
                match chunks_payload_bytes(old_pack_data@, chunks_v, i3 as int) {
                    Some(acc) => out@ == all_headers + acc,
                    None => false,
                },
            decreases n - i3,
        {
            let count: usize = self.chunks[i3].assets.len();
            let ghost assets_v = chunks_v[i3 as int];
            let ghost chunk_base = out@;
            proof {
                assert(self.chunks@[i3 as int]@ == assets_v);
                assert(chunk_base + Seq::<u8>::empty() =~= chunk_base);
            }
            let mut j3: usize = 0;
            while j3 < count
                invariant
                    j3 <= count,
                    i3 < n,
                    n == chunks_v.len(),
                    chunks_v == self@,
                    n > 0,
                    !all_chunks_empty(chunks_v),
                    assets_v == chunks_v[i3 as int],
                    count == assets_v.len(),
                    all_headers == chunks_header_bytes(chunks_v, n as int) + u32_be_bytes(0),
                    match chunks_payload_bytes(old_pack_data@, chunks_v, i3 as int) {
                        Some(acc) => chunk_base == all_headers + acc,
                        None => false,
                    },
                    match chunk_payload_bytes(old_pack_data@, assets_v, j3 as int) {
                        Some(acc) => out@ == chunk_base + acc,
                        None => false,
                    },
                decreases count - j3,
            {
                proof {
                    assert(self.chunks@[i3 as int]@[j3 as int] == assets_v[j3 as int]);
                }
                match self.chunks[i3].assets[j3].clone_data(old_pack_data, &mut out) {
                    Ok(_) => {},
                    Err(e2) => {
                        proof {
                            lemma_chunk_payload_failure(
                                old_pack_data@,
                                assets_v,
                                j3 as int,
                                assets_v.len() as int,
                            );
                            lemma_chunks_payload_failure(
                                old_pack_data@,
                                chunks_v,
                                i3 as int,
                                chunks_v.len() as int,
                            );
                            assert(pack1_write_spec(self@, old_pack_data@) is None);
                        }
                        return Err(e2);
                    },
                }
                j3 = j3 + 1;
                proof {
                    match chunk_payload_bytes(old_pack_data@, assets_v, j3 as int) {
                        Some(acc) => {
                            assert(out@ =~= chunk_base + acc);
                        },
                        None => {},
                    }
                }
            }
            i3 = i3 + 1;
            proof {
                match chunks_payload_bytes(old_pack_data@, chunks_v, i3 as int) {
                    Some(acc) => {
                        assert(out@ =~= all_headers + acc);
                    },
                    None => {},
                }
            }
        }
        proof {
            assert(pack1_write_spec(self@, old_pack_data@) == Some(out@));
        }
        Ok(out)
    }
}

} // verus!
