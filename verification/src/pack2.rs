//! The pack2 archive container: parsing the header and entry table from the
//! archive's bytes, resolving entry names from candidate-name lists, and
//! extracting entry payloads (raw or zlib-compressed).

use vstd::prelude::*;

use std::collections::HashMap;

use crate::bin_utils::{
    be32, le32, le64, read_u32_be, read_u32_le, read_u64_le, read_x_bytes, u32_be_bytes,
    u64_be_bytes,
};
use crate::crc64::{filename_key, map_chars, names_chars, table_of};
use crate::error::Nups2Error;
use crate::strutil::split_lines;
use crate::zlib::{inflate, zlib_inflate};
use vstd::utf8::{decode_utf8, valid_utf8};

verus! {

broadcast use vstd::std_specs::hash::group_hash_axioms;

/// The big-endian magic value that opens every pack2 archive.
pub const PACK2_MAGIC: u32 = 0x50414B01;

/// The big-endian magic value that opens every compressed payload's
/// sub-header.
pub const ZIP_MAGIC: u32 = 0xA1B2C3D4;

/// The reserved key of the self-describing entry whose payload is a
/// newline-separated list of the archive's own filenames.
pub const NAMELIST_KEY: u64 = 0x4137CC65BD97FD30;

/// The mathematical content of one archive entry.
pub ghost struct AssetModel {
    pub name: Option<Seq<char>>,
    pub name_hash: u64,
    pub offset: u64,
    pub data_length: u64,
    pub is_zipped: bool,
    pub data_hash: u32,
    pub unzipped_length: u32,
}

/// The mathematical content of a loaded archive container.
pub ghost struct Pack2Model {
    pub asset_count: u32,
    pub length: u64,
    pub map_offset: u64,
    pub assets: Seq<AssetModel>,
}

/// One archive entry: its key, the location and span of its payload within
/// the archive, its compression state, and its resolved name once one is
/// known.
#[derive(Debug)]
pub struct Asset {
    pub name: Option<String>,
    pub name_hash: u64,
    pub offset: u64,
    pub data_length: u64,
    pub is_zipped: bool,
    pub data_hash: u32,
    pub unzipped_length: u32,
}

impl View for Asset {
    type V = AssetModel;

    open spec fn view(&self) -> AssetModel {
        AssetModel {
            name: match self.name {
                Some(s) => Some(s@),
                None => None,
            },
            name_hash: self.name_hash,
            offset: self.offset,
            data_length: self.data_length,
            is_zipped: self.is_zipped,
            data_hash: self.data_hash,
            unzipped_length: self.unzipped_length,
        }
    }
}

/// A loaded archive container: the header's declared figures and the parsed
/// entry table, in table order.
#[derive(Debug)]
pub struct Pack2 {
    pub asset_count: u32,
    pub length: u64,
    pub map_offset: u64,
    pub assets: Vec<Asset>,
}

impl View for Pack2 {
    type V = Pack2Model;

    open spec fn view(&self) -> Pack2Model {
        Pack2Model {
            asset_count: self.asset_count,
            length: self.length,
            map_offset: self.map_offset,
            assets: self.assets@.map_values(|a: Asset| a@),
        }
    }
}

/// Whether the 4-byte compression-flag word marks an entry as compressed.
pub open spec fn zipped_flag_set(flag: u32) -> bool {
    flag == 0x01 || flag == 0x11
}

/// The entry encoded by the 32-byte record at `base`, before any name is
/// resolved. An entry is compressed only when its flag word says so and its
/// stored length is positive; a compressed flag with zero length means
/// uncompressed.
pub open spec fn parsed_asset(data: Seq<u8>, base: int) -> AssetModel {
    let name_hash = le64(data.subrange(base, base + 8));
    let offset = le64(data.subrange(base + 8, base + 16));
    let data_length = le64(data.subrange(base + 16, base + 24));
    let flag = le32(data.subrange(base + 24, base + 28));
    let data_hash = le32(data.subrange(base + 28, base + 32));
    let is_zipped = zipped_flag_set(flag) && data_length > 0;
    AssetModel {
        name: None,
        name_hash,
        offset,
        data_length,
        is_zipped,
        data_hash,
        unzipped_length: if is_zipped {
            be32(data.subrange(offset + 4, offset + 8))
        } else {
            0
        },
    }
}

/// Whether the 32-byte record at `base` lies within the input.
pub open spec fn record_fits(data: Seq<u8>, base: int) -> bool {
    base + 32 <= data.len()
}

/// Whether a compressed entry's 8-byte sub-header lies within the input.
pub open spec fn zip_sub_fits(data: Seq<u8>, base: int) -> bool {
    parsed_asset(data, base).is_zipped ==> parsed_asset(data, base).offset + 8 <= data.len()
}

/// Whether a compressed entry's sub-header starts with the compression magic
/// value.
pub open spec fn zip_magic_ok(data: Seq<u8>, base: int) -> bool {
    parsed_asset(data, base).is_zipped ==> be32(
        data.subrange(
            parsed_asset(data, base).offset as int,
            parsed_asset(data, base).offset + 4,
        ),
    ) == ZIP_MAGIC
}

/// Whether the record at `base` parses without error.
pub open spec fn asset_parse_ok(data: Seq<u8>, base: int) -> bool {
    record_fits(data, base) && zip_sub_fits(data, base) && zip_magic_ok(data, base)
}

/// The error with which the record at `base` fails to parse.
pub open spec fn asset_error(data: Seq<u8>, base: int) -> Nups2Error {
    if !record_fits(data, base) || !zip_sub_fits(data, base) {
        Nups2Error::Truncated
    } else {
        Nups2Error::BadCompressionMagic
    }
}

/// The archive header's declared entry count.
pub open spec fn h_asset_count(data: Seq<u8>) -> u32 {
    le32(data.subrange(4, 8))
}

/// The archive header's declared total byte length.
pub open spec fn h_length(data: Seq<u8>) -> u64 {
    le64(data.subrange(8, 16))
}

/// The archive header's declared entry-table offset.
pub open spec fn h_map_offset(data: Seq<u8>) -> u64 {
    le64(data.subrange(16, 24))
}

/// The position of the `i`th entry record.
pub open spec fn record_base(data: Seq<u8>, i: int) -> int {
    h_map_offset(data) + 32 * i
}

/// The entries encoded by the entry table, in table order, names unresolved.
pub open spec fn raw_assets(data: Seq<u8>) -> Seq<AssetModel> {
    Seq::new(h_asset_count(data) as nat, |i: int| parsed_asset(data, record_base(data, i)))
}

/// Whether an entry's payload span stays within the archive's declared total
/// length: a compressed payload occupies its 8-byte sub-header plus its
/// stored bytes, an uncompressed one just its stored bytes.
pub open spec fn span_within_declared(data: Seq<u8>, a: AssetModel) -> bool {
    if a.is_zipped {
        a.offset + 8 + a.data_length <= h_length(data)
    } else {
        a.offset + a.data_length <= h_length(data)
    }
}

/// Whether an entry's stored bytes lie within the input.
pub open spec fn payload_span_ok(data: Seq<u8>, a: AssetModel) -> bool {
    if a.is_zipped {
        a.offset + 8 + a.data_length <= data.len()
    } else {
        a.offset + a.data_length <= data.len()
    }
}

/// An entry's stored bytes: the payload after the sub-header for a compressed
/// entry, the payload itself otherwise.
pub open spec fn raw_payload(data: Seq<u8>, a: AssetModel) -> Seq<u8> {
    if a.is_zipped {
        data.subrange(a.offset + 8, a.offset + 8 + a.data_length)
    } else {
        data.subrange(a.offset as int, a.offset + a.data_length)
    }
}

/// What extracting an entry yields: its stored bytes, decompressed first when
/// the entry is compressed; nothing when the span is out of bounds or the
/// compressed stream is malformed.
pub open spec fn extracted_bytes(data: Seq<u8>, a: AssetModel) -> Option<Seq<u8>> {
    if !payload_span_ok(data, a) {
        None
    } else if a.is_zipped {
        zlib_inflate(raw_payload(data, a))
    } else {
        Some(raw_payload(data, a))
    }
}

/// What extracting an entry as text yields: its extracted bytes decoded as
/// UTF-8, or nothing when extraction or decoding fails.
pub open spec fn extracted_text(data: Seq<u8>, a: AssetModel) -> Option<Seq<char>> {
    match extracted_bytes(data, a) {
        Some(b) => if valid_utf8(b) {
            Some(decode_utf8(b))
        } else {
            None
        },
        None => None,
    }
}

/// The error with which extracting an entry as text fails.
pub open spec fn text_error(data: Seq<u8>, a: AssetModel) -> Nups2Error {
    if !payload_span_ok(data, a) {
        Nups2Error::Truncated
    } else if a.is_zipped && zlib_inflate(raw_payload(data, a)) is None {
        Nups2Error::DecompressFailed
    } else {
        Nups2Error::InvalidUtf8
    }
}

/// The index of the last entry carrying the reserved name-list key, or -1
/// when there is none.
pub open spec fn last_sentinel(assets: Seq<AssetModel>) -> int
    decreases assets.len(),
{
    if assets.len() == 0 {
        -1
    } else if assets.last().name_hash == NAMELIST_KEY {
        assets.len() - 1
    } else {
        last_sentinel(assets.drop_last())
    }
}

/// Whether some entry carries the reserved name-list key.
pub open spec fn has_sentinel(assets: Seq<AssetModel>) -> bool {
    last_sentinel(assets) >= 0
}

/// An entry with its name resolved from the lookup table, when the table
/// knows its key.
pub open spec fn resolved(a: AssetModel, t: Map<u64, Seq<char>>) -> AssetModel {
    if t.dom().contains(a.name_hash) {
        AssetModel { name: Some(t[a.name_hash]), ..a }
    } else {
        a
    }
}

/// All entries with their names resolved from the lookup table.
pub open spec fn apply_names(assets: Seq<AssetModel>, t: Map<u64, Seq<char>>) -> Seq<AssetModel> {
    assets.map_values(|a: AssetModel| resolved(a, t))
}

/// The entries of a fully loaded archive: the parsed entry table, with names
/// resolved from the embedded name list when the archive carries one.
pub open spec fn loaded_assets(data: Seq<u8>) -> Seq<AssetModel> {
    let raw = raw_assets(data);
    if has_sentinel(raw) {
        let text = extracted_text(data, raw[last_sentinel(raw)]).unwrap();
        apply_names(raw, table_of(crate::strutil::lines_of(text)))
    } else {
        raw
    }
}

/// Whether the whole archive loads without error: the header is complete and
/// carries the magic value, every entry record parses, every entry's span
/// stays within the declared total length, and every embedded name list
/// extracts as text.
pub open spec fn load_ok(data: Seq<u8>) -> bool {
    &&& data.len() >= 24
    &&& be32(data.subrange(0, 4)) == PACK2_MAGIC
    &&& forall|i: int|
        0 <= i < h_asset_count(data) ==> asset_parse_ok(data, #[trigger] record_base(data, i))
    &&& forall|i: int|
        0 <= i < raw_assets(data).len() ==> {
            &&& span_within_declared(data, #[trigger] raw_assets(data)[i])
            &&& raw_assets(data)[i].name_hash == NAMELIST_KEY ==> extracted_text(
                data,
                raw_assets(data)[i],
            ) is Some
        }
}

/// The error of the first entry, in table order, that fails to parse, lies
/// out of bounds, or carries a name list that does not extract.
pub open spec fn load_error_from(data: Seq<u8>, i: int) -> Nups2Error
    decreases h_asset_count(data) - i,
{
    if i < 0 || i >= h_asset_count(data) {
        Nups2Error::Other("")
    } else if !asset_parse_ok(data, record_base(data, i)) {
        asset_error(data, record_base(data, i))
    } else if !span_within_declared(data, raw_assets(data)[i]) {
        Nups2Error::EntryOutOfBounds
    } else if raw_assets(data)[i].name_hash == NAMELIST_KEY && extracted_text(
        data,
        raw_assets(data)[i],
    ) is None {
        text_error(data, raw_assets(data)[i])
    } else {
        load_error_from(data, i + 1)
    }
}

/// The error with which loading the archive fails.
pub open spec fn load_error(data: Seq<u8>) -> Nups2Error {
    if data.len() < 4 {
        Nups2Error::Truncated
    } else if be32(data.subrange(0, 4)) != PACK2_MAGIC {
        Nups2Error::BadMagic
    } else if data.len() < 24 {
        Nups2Error::Truncated
    } else {
        load_error_from(data, 0)
    }
}

/// The `(key, content checksum)` pairs of a run of entries, in entry order.
pub open spec fn pairs_of(assets: Seq<AssetModel>) -> Seq<(u64, u32)> {
    assets.map_values(|a: AssetModel| (a.name_hash, a.data_hash))
}

/// The serialized manifest of a run of `(key, checksum)` pairs: one 12-byte
/// record per pair, an 8-byte big-endian key then a 4-byte big-endian
/// checksum, concatenated with no separator.
pub open spec fn manifest_bytes(pairs: Seq<(u64, u32)>) -> Seq<u8>
    decreases pairs.len(),
{
    if pairs.len() == 0 {
        Seq::empty()
    } else {
        manifest_bytes(pairs.drop_last()) + u64_be_bytes(pairs.last().0) + u32_be_bytes(
            pairs.last().1,
        )
    }
}

impl Asset {
    /// Parses the 32-byte entry record at the cursor; for a compressed entry
    /// it also reads the decompressed length from the payload's sub-header,
    /// after checking the sub-header's magic value.
    pub fn load_from_br(data: &[u8], pos: &mut usize) -> (r: Result<Asset, Nups2Error>)
        ensures
            match r {
                Ok(a) => {
                    &&& asset_parse_ok(data@, *old(pos) as int)
                    &&& *final(pos) == *old(pos) + 32
                    &&& a@ == parsed_asset(data@, *old(pos) as int)
                },
                Err(e) => {
                    &&& *final(pos) == *old(pos)
                    &&& !asset_parse_ok(data@, *old(pos) as int)
                    &&& e == asset_error(data@, *old(pos) as int)
                },
            },
    {
        let ghost base: int = *pos as int;
        let mut p: usize = *pos;
        let name_hash: u64 = match read_u64_le(data, &mut p) {
            Ok(v) => v,
            Err(e) => { return Err(e) },
        };
        let offset: u64 = match read_u64_le(data, &mut p) {
            Ok(v) => v,
            Err(e) => { return Err(e) },
        };
        let data_length: u64 = match read_u64_le(data, &mut p) {
            Ok(v) => v,
            Err(e) => { return Err(e) },
        };
        let zipped_flag: u32 = match read_u32_le(data, &mut p) {
            Ok(v) => v,
            Err(e) => { return Err(e) },
        };
        let data_hash: u32 = match read_u32_le(data, &mut p) {
            Ok(v) => v,
            Err(e) => { return Err(e) },
        };
        let is_zipped: bool = (zipped_flag == 0x01 || zipped_flag == 0x11) && data_length > 0;
        proof {
            assert(data@.subrange(base, base + 8) =~= data@.subrange(base, base + 32).subrange(
                0,
                8,
            ));
            assert(parsed_asset(data@, base).name_hash == name_hash);
            assert(parsed_asset(data@, base).offset == offset);
            assert(parsed_asset(data@, base).data_length == data_length);
            assert(parsed_asset(data@, base).is_zipped == is_zipped);
            assert(parsed_asset(data@, base).data_hash == data_hash);
        }
        let unzipped_length: u32 = if is_zipped {
            if (data.len() as u64) < 8 || offset > (data.len() as u64) - 8 {
                return Err(Nups2Error::Truncated);
            }
            let mut zp: usize = offset as usize;
            let zip_magic: u32 = match read_u32_be(data, &mut zp) {
                Ok(v) => v,
                Err(e) => { return Err(e) },
            };
            if zip_magic != ZIP_MAGIC {
                return Err(Nups2Error::BadCompressionMagic);
            }
            match read_u32_be(data, &mut zp) {
                Ok(v) => v,
                Err(e) => { return Err(e) },
            }
        } else {
            0
        };
        *pos = p;
        Ok(
            Asset {
                name: None,
                name_hash,
                offset,
                data_length,
                is_zipped,
                data_hash,
                unzipped_length,
            },
        )
    }

    /// Copies an entry's stored bytes out of the archive, without
    /// decompressing them; for a compressed entry the sub-header is skipped.
    pub fn raw_bytes(&self, data: &[u8]) -> (r: Result<Vec<u8>, Nups2Error>)
        ensures
            match r {
                Ok(v) => payload_span_ok(data@, self@) && v@ == raw_payload(data@, self@),
                Err(e) => !payload_span_ok(data@, self@) && e is Truncated,
            },
    {
        let skip: u64 = if self.is_zipped {
            8
        } else {
            0
        };
        if (self.offset as u128) + (skip as u128) + (self.data_length as u128) > (
        data.len() as u128) {
            return Err(Nups2Error::Truncated);
        }
        let mut p: usize = (self.offset + skip) as usize;
        match read_x_bytes(data, &mut p, self.data_length as usize) {
            Ok(v) => Ok(v),
            Err(e) => Err(e),
        }
    }

    /// Extracts an entry's payload: a plain copy of its stored bytes for an
    /// uncompressed entry, the decompressed stream for a compressed one.
    pub fn extract_bytes(&self, data: &[u8]) -> (r: Result<Vec<u8>, Nups2Error>)
        ensures
            match r {
                Ok(v) => extracted_bytes(data@, self@) == Some(v@),
                Err(e) => {
                    &&& extracted_bytes(data@, self@) is None
                    &&& if !payload_span_ok(data@, self@) {
                        e is Truncated
                    } else {
                        e is DecompressFailed
                    }
                },
            },
    {
        let raw: Vec<u8> = match self.raw_bytes(data) {
            Ok(v) => v,
            Err(e) => { return Err(e) },
        };
        if !self.is_zipped {
            return Ok(raw);
        }
        inflate(raw.as_slice())
    }

    /// Extracts an entry's payload and decodes it as UTF-8 text.
    pub fn extract_text(&self, data: &[u8]) -> (r: Result<String, Nups2Error>)
        ensures
            match r {
                Ok(s) => extracted_text(data@, self@) == Some(s@),
                Err(e) => {
                    &&& extracted_text(data@, self@) is None
                    &&& e == text_error(data@, self@)
                },
            },
    {
        let bytes: Vec<u8> = match self.extract_bytes(data) {
            Ok(v) => v,
            Err(e) => { return Err(e) },
        };
        crate::strutil::string_from_utf8(bytes)
    }
}

impl Pack2 {
    /// Parses a whole archive: the fixed header, then exactly the declared
    /// number of 32-byte entry records at the declared table offset. An entry
    /// whose span reaches past the declared total length aborts the load, and
    /// when an entry carries the reserved name-list key its payload is
    /// extracted as text and applied as this archive's candidate-name list.
    /// Either the whole archive loads, or the first failure's error is
    /// returned and no container is.
    pub fn load_from_bytes(data: &[u8]) -> (r: Result<Pack2, Nups2Error>)
        ensures
            match r {
                Ok(p) => {
                    &&& load_ok(data@)
                    &&& p@.asset_count == h_asset_count(data@)
                    &&& p@.length == h_length(data@)
                    &&& p@.map_offset == h_map_offset(data@)
                    &&& p@.assets == loaded_assets(data@)
                },
                Err(e) => !load_ok(data@) && e == load_error(data@),
            },
    {
        let mut pos: usize = 0;
        let magic: u32 = match read_u32_be(data, &mut pos) {
            Ok(v) => v,
            Err(e) => { return Err(e) },
        };
        if magic != PACK2_MAGIC {
            return Err(Nups2Error::BadMagic);
        }
        let asset_count: u32 = match read_u32_le(data, &mut pos) {
            Ok(v) => v,
            Err(e) => { return Err(e) },
        };
        let length: u64 = match read_u64_le(data, &mut pos) {
            Ok(v) => v,
            Err(e) => { return Err(e) },
        };
        let map_offset: u64 = match read_u64_le(data, &mut pos) {
            Ok(v) => v,
            Err(e) => { return Err(e) },
        };
        if asset_count > 0 && map_offset > data.len() as u64 {
            proof {
                assert(!record_fits(data@, record_base(data@, 0)));
                assert(!load_ok(data@));
            }
            return Err(Nups2Error::Truncated);
        }
        let mut p: usize = if asset_count == 0 {
            0
        } else {
            map_offset as usize
        };
        let mut assets: Vec<Asset> = Vec::new();
        let mut namelist_text: Option<String> = None;
        let mut i: u32 = 0;
        while i < asset_count
            invariant
                i <= asset_count,
                data@.len() >= 24,
                be32(data@.subrange(0, 4)) == PACK2_MAGIC,
                asset_count == h_asset_count(data@),
                length == h_length(data@),
                map_offset == h_map_offset(data@),
                asset_count > 0 ==> map_offset <= data@.len(),
                asset_count > 0 ==> p as int == record_base(data@, i as int),
                assets@.len() == i,
                forall|j: int|
                    0 <= j < i ==> asset_parse_ok(data@, #[trigger] record_base(data@, j)),
                forall|j: int|
                    0 <= j < i ==> {
                        &&& span_within_declared(data@, #[trigger] raw_assets(data@)[j])
                        &&& raw_assets(data@)[j].name_hash == NAMELIST_KEY ==> extracted_text(
                            data@,
                            raw_assets(data@)[j],
                        ) is Some
                    },
                forall|j: int| 0 <= j < i ==> #[trigger] assets@[j]@ == raw_assets(data@)[j],
                match namelist_text {
                    Some(s) => {
                        &&& has_sentinel(raw_assets(data@).take(i as int))
                        &&& Some(s@) == extracted_text(
                            data@,
                            raw_assets(data@)[last_sentinel(raw_assets(data@).take(i as int))],
                        )
                    },
                    None => !has_sentinel(raw_assets(data@).take(i as int)),
                },
            decreases asset_count - i,
        {
            let ghost prev_assets = raw_assets(data@).take(i as int);
            let asset: Asset = match Asset::load_from_br(data, &mut p) {
                Ok(a) => a,
                Err(e) => {
                    proof {
                        lemma_load_error_skip(data@, i as int);
                        assert(!load_ok(data@));
                    }
                    return Err(e);
                },
            };
            proof {
                assert(asset@ == raw_assets(data@)[i as int]);
            }
            let span_ok: bool = if asset.is_zipped {
                (asset.offset as u128) + 8 + (asset.data_length as u128) <= (length as u128)
            } else {
                (asset.offset as u128) + (asset.data_length as u128) <= (length as u128)
            };
            if !span_ok {
                proof {
                    assert(!span_within_declared(data@, raw_assets(data@)[i as int]));
                    lemma_load_error_skip(data@, i as int);
                    assert(!load_ok(data@));
                }
                return Err(Nups2Error::EntryOutOfBounds);
            }
            if asset.name_hash == NAMELIST_KEY {
                let text: String = match asset.extract_text(data) {
                    Ok(t) => t,
                    Err(e) => {
                        proof {
                            lemma_load_error_skip(data@, i as int);
                            assert(!load_ok(data@));
                        }
                        return Err(e);
                    },
                };
                namelist_text = Some(text);
            }
            assets.push(asset);
            i = i + 1;
            proof {
                let cur = raw_assets(data@).take(i as int);
                assert(cur.drop_last() =~= prev_assets);
                assert(cur.last() == raw_assets(data@)[i - 1]);
            }
        }
        proof {
            assert(raw_assets(data@).take(i as int) =~= raw_assets(data@));
            assert(load_ok(data@));
        }
        let mut result = Pack2 { asset_count, length, map_offset, assets };
        proof {
            assert(result@.assets =~= raw_assets(data@));
        }
        match namelist_text {
            Some(text) => {
                let filenames: Vec<String> = split_lines(text.as_str());
                result.apply_filename_list(&filenames);
                proof {
                    assert(result@.assets =~= loaded_assets(data@));
                }
            },
            None => {
                proof {
                    assert(result@.assets =~= loaded_assets(data@));
                }
            },
        }
        Ok(result)
    }

    /// Resolves entry names in place: every entry whose key the table knows
    /// gets the table's name for that key; all other entries are untouched.
    pub fn apply_filename_lookup_table(&mut self, filename_lookup_table: &HashMap<u64, String>)
        ensures
            final(self)@.assets == apply_names(
                old(self)@.assets,
                map_chars(filename_lookup_table@),
            ),
            final(self)@.asset_count == old(self)@.asset_count,
            final(self)@.length == old(self)@.length,
            final(self)@.map_offset == old(self)@.map_offset,
    {
        let ghost t = map_chars(filename_lookup_table@);
        let n: usize = self.assets.len();
        let mut i: usize = 0;
        while i < n
            invariant
                i <= n,
                n == self.assets@.len(),
                self.assets@.len() == old(self).assets@.len(),
                self.asset_count == old(self).asset_count,
                self.length == old(self).length,
                self.map_offset == old(self).map_offset,
                t == map_chars(filename_lookup_table@),
                forall|j: int|
                    i <= j < n ==> #[trigger] self.assets@[j]@ == old(self).assets@[j]@,
                forall|j: int|
                    0 <= j < i ==> #[trigger] self.assets@[j]@ == resolved(
                        old(self).assets@[j]@,
                        t,
                    ),
            decreases n - i,
        {
            let key: u64 = self.assets[i].name_hash;
            let ghost old_model = self.assets@[i as int]@;
            match filename_lookup_table.get(&key) {
                Some(name) => {
                    proof {
                        assert(filename_lookup_table@.contains_key(key));
                        assert(t.dom().contains(key));
                        assert(t[key] == filename_lookup_table@[key]@);
                    }
                    let new_name: String = name.clone();
                    proof {
                        assert(new_name@ == t[key]);
                    }
                    let offset: u64 = self.assets[i].offset;
                    let data_length: u64 = self.assets[i].data_length;
                    let is_zipped: bool = self.assets[i].is_zipped;
                    let data_hash: u32 = self.assets[i].data_hash;
                    let unzipped_length: u32 = self.assets[i].unzipped_length;
                    self.assets.set(
                        i,
                        Asset {
                            name: Some(new_name),
                            name_hash: key,
                            offset,
                            data_length,
                            is_zipped,
                            data_hash,
                            unzipped_length,
                        },
                    );
                },
                None => {
                    let offset: u64 = self.assets[i].offset;
                    let data_length: u64 = self.assets[i].data_length;
                    let is_zipped: bool = self.assets[i].is_zipped;
                    let data_hash: u32 = self.assets[i].data_hash;
                    let unzipped_length: u32 = self.assets[i].unzipped_length;
                    let name: Option<String> = match &self.assets[i].name {
                        Some(s) => Some(s.clone()),
                        None => None,
                    };
                    self.assets.set(
                        i,
                        Asset {
                            name,
                            name_hash: key,
                            offset,
                            data_length,
                            is_zipped,
                            data_hash,
                            unzipped_length,
                        },
                    );
                },
            }
            proof {
                assert(self.assets@[i as int]@ == resolved(old_model, t));
                assert(old_model == old(self).assets@[i as int]@);
            }
            i = i + 1;
        }
        proof {
            assert(final(self)@.assets =~= apply_names(old(self)@.assets, t));
        }
    }

    /// Resolves entry names from a candidate-name list: the list is turned
    /// into a key-to-name lookup table and applied in place.
    pub fn apply_filename_list(&mut self, filename_list: &Vec<String>)
        ensures
            final(self)@.assets == apply_names(
                old(self)@.assets,
                table_of(names_chars(filename_list@)),
            ),
            final(self)@.asset_count == old(self)@.asset_count,
            final(self)@.length == old(self)@.length,
            final(self)@.map_offset == old(self)@.map_offset,
    {
        let table: HashMap<u64, String> = crate::crc64::filename_list_to_lookup_table(
            filename_list,
        );
        self.apply_filename_lookup_table(&table);
    }

    /// Finds the first entry whose key is the hash of the given name, after
    /// case folding; a linear scan in table order.
    pub fn find_asset_index_by_name(&self, name: &str) -> (r: Option<usize>)
        ensures
            match r {
                Some(i) => {
                    &&& i < self@.assets.len()
                    &&& self@.assets[i as int].name_hash == filename_key(name@)
                    &&& forall|j: int|
                        0 <= j < i ==> (#[trigger] self@.assets[j]).name_hash != filename_key(
                            name@,
                        )
                },
                None => forall|j: int|
                    0 <= j < self@.assets.len() ==> (#[trigger] self@.assets[j]).name_hash
                        != filename_key(name@),
            },
    {
        let hash: u64 = crate::crc64::convert_filename(name);
        self.find_asset_index_by_name_hash(hash)
    }

    /// Finds the first entry with the given key; a linear scan in table
    /// order.
    pub fn find_asset_index_by_name_hash(&self, hash: u64) -> (r: Option<usize>)
        ensures
            match r {
                Some(i) => {
                    &&& i < self@.assets.len()
                    &&& self@.assets[i as int].name_hash == hash
                    &&& forall|j: int|
                        0 <= j < i ==> (#[trigger] self@.assets[j]).name_hash != hash
                },
                None => forall|j: int|
                    0 <= j < self@.assets.len() ==> (#[trigger] self@.assets[j]).name_hash != hash,
            },
    {
        let n: usize = self.assets.len();
        let mut i: usize = 0;
        while i < n
            invariant
                i <= n,
                n == self@.assets.len(),
                forall|j: int| 0 <= j < i ==> (#[trigger] self@.assets[j]).name_hash != hash,
            decreases n - i,
        {
            if self.assets[i].name_hash == hash {
                return Some(i);
            }
            i = i + 1;
        }
        None
    }

    /// Serializes this archive's manifest: one 12-byte record per entry, in
    /// table order.
    pub fn write_manifest(&self) -> (r: Vec<u8>)
        ensures
            r@ == manifest_bytes(pairs_of(self@.assets)),
    {
        let mut out: Vec<u8> = Vec::new();
        let n: usize = self.assets.len();
        let mut i: usize = 0;
        while i < n
            invariant
                i <= n,
                n == self@.assets.len(),
                out@ == manifest_bytes(pairs_of(self@.assets.take(i as int))),
            decreases n - i,
        {
            crate::bin_utils::write_u64_be(self.assets[i].name_hash, &mut out);
            crate::bin_utils::write_u32_be(self.assets[i].data_hash, &mut out);
            i = i + 1;
            proof {
                let cur = pairs_of(self@.assets.take(i as int));
                assert(cur.drop_last() =~= pairs_of(self@.assets.take(i - 1)));
                assert(cur.last() == (self@.assets[i - 1].name_hash, self@.assets[i - 1].data_hash));
            }
        }
        proof {
            assert(self@.assets.take(n as int) =~= self@.assets);
        }
        out
    }
}

/// Steps the first-failure error search past an entry that is known good.
proof fn lemma_load_error_skip(data: Seq<u8>, i: int)
    requires
        0 <= i < h_asset_count(data),
        forall|j: int| 0 <= j < i ==> asset_parse_ok(data, #[trigger] record_base(data, j)),
        forall|j: int|
            0 <= j < i ==> {
                &&& span_within_declared(data, #[trigger] raw_assets(data)[j])
                &&& raw_assets(data)[j].name_hash == NAMELIST_KEY ==> extracted_text(
                    data,
                    raw_assets(data)[j],
                ) is Some
            },
    ensures
        load_error_from(data, 0) == load_error_from(data, i),
    decreases i,
{
    if i > 0 {
        lemma_load_error_skip(data, i - 1);
        assert(load_error_from(data, i - 1) == load_error_from(data, i));
    }
}

} // verus!

verus! {

/// Resolving names is idempotent entry by entry: a second application of the
/// same table changes nothing, because resolution never changes an entry's
/// key.
proof fn lemma_resolved_idempotent(a: AssetModel, t: Map<u64, Seq<char>>)
    ensures
        resolved(resolved(a, t), t) == resolved(a, t),
{
}

/// Applying one candidate-name list to a container twice resolves exactly
/// the names that applying it once does: name application is idempotent.
pub proof fn lemma_apply_filename_list_idempotent(
    assets: Seq<AssetModel>,
    filename_list: Seq<String>,
)
    ensures
        apply_names(
            apply_names(assets, table_of(names_chars(filename_list))),
            table_of(names_chars(filename_list)),
        ) == apply_names(assets, table_of(names_chars(filename_list))),
{
    let t = table_of(names_chars(filename_list));
    assert forall|i: int| 0 <= i < assets.len() implies #[trigger] apply_names(
        apply_names(assets, t),
        t,
    )[i] == apply_names(assets, t)[i] by {
        lemma_resolved_idempotent(assets[i], t);
    }
    assert(apply_names(apply_names(assets, t), t) =~= apply_names(assets, t));
}

/// A loaded container is faithful to its header: it holds exactly the
/// declared number of entries, and every entry's payload span (sub-header
/// included, for a compressed entry) stays within the archive's declared
/// total length.
pub proof fn lemma_load_bounds(data: Seq<u8>)
    requires
        load_ok(data),
    ensures
        loaded_assets(data).len() == h_asset_count(data),
        forall|i: int|
            0 <= i < loaded_assets(data).len() ==> span_within_declared(
                data,
                #[trigger] loaded_assets(data)[i],
            ),
{
    let raw = raw_assets(data);
    assert forall|i: int| 0 <= i < loaded_assets(data).len() implies span_within_declared(
        data,
        #[trigger] loaded_assets(data)[i],
    ) by {
        assert(span_within_declared(data, raw[i]));
        assert(loaded_assets(data)[i].offset == raw[i].offset);
        assert(loaded_assets(data)[i].data_length == raw[i].data_length);
        assert(loaded_assets(data)[i].is_zipped == raw[i].is_zipped);
    }
}

} // verus!

verus! {

/// The JSON rendering of an optional name: the quoted, escaped name, or
/// `null`.
pub open spec fn json_opt_name(name: Option<Seq<char>>) -> Seq<char> {
    match name {
        Some(s) => seq!['"'] + crate::json_utils::escape_chars(s) + seq!['"'],
        None => "null"@,
    }
}

/// The JSON rendering of one entry.
pub open spec fn asset_json(a: AssetModel) -> Seq<char> {
    "{\"name\": "@ + json_opt_name(a.name) + ", \"name_hash\": "@ + crate::strutil::dec_chars(
        a.name_hash as nat,
    ) + ", \"offset\": "@ + crate::strutil::dec_chars(a.offset as nat) + ", \"data_length\": "@
        + crate::strutil::dec_chars(a.data_length as nat) + ", \"is_zipped\": "@ + (
    if a.is_zipped {
        "true"@
    } else {
        "false"@
    }) + ", \"data_hash\": "@ + crate::strutil::dec_chars(a.data_hash as nat)
        + ", \"unzipped_length\": "@ + crate::strutil::dec_chars(a.unzipped_length as nat) + "}"@
}

/// The first `n` entries' JSON renderings, joined by comma and space.
pub open spec fn assets_json_list(assets: Seq<AssetModel>, n: int) -> Seq<char>
    decreases n,
{
    if n <= 0 {
        Seq::empty()
    } else if n == 1 {
        asset_json(assets[0])
    } else {
        assets_json_list(assets, n - 1) + ", "@ + asset_json(assets[n - 1])
    }
}

/// The JSON rendering of a whole entry list.
pub open spec fn assets_json(assets: Seq<AssetModel>) -> Seq<char> {
    seq!['['] + assets_json_list(assets, assets.len() as int) + seq![']']
}

/// The JSON rendering of a whole container.
pub open spec fn pack2_json(m: Pack2Model) -> Seq<char> {
    "{\"asset_count\": "@ + crate::strutil::dec_chars(m.asset_count as nat) + ", \"length\": "@
        + crate::strutil::dec_chars(m.length as nat) + ", \"map_offset\": "@
        + crate::strutil::dec_chars(m.map_offset as nat) + ", \"assets\": "@ + assets_json(
        m.assets,
    ) + "}"@
}

impl Asset {
    /// Renders this entry as one JSON object.
    pub fn to_json(&self) -> (r: String)
        ensures
            r@ == asset_json(self@),
    {
        let mut out: String = String::new();
        out.append("{\"name\": ");
        match &self.name {
            Some(s) => {
                let escaped: String = crate::json_utils::escape_string(s.as_str());
                out.append(escaped.as_str());
            },
            None => {
                out.append("null");
            },
        }
        out.append(", \"name_hash\": ");
        crate::strutil::push_dec_u64(&mut out, self.name_hash);
        out.append(", \"offset\": ");
        crate::strutil::push_dec_u64(&mut out, self.offset);
        out.append(", \"data_length\": ");
        crate::strutil::push_dec_u64(&mut out, self.data_length);
        out.append(", \"is_zipped\": ");
        if self.is_zipped {
            out.append("true");
        } else {
            out.append("false");
        }
        out.append(", \"data_hash\": ");
        crate::strutil::push_dec_u64(&mut out, self.data_hash as u64);
        out.append(", \"unzipped_length\": ");
        crate::strutil::push_dec_u64(&mut out, self.unzipped_length as u64);
        out.append("}");
        out
    }
}

impl Pack2 {
    /// Renders the entry list as one JSON array, in table order.
    pub fn ls_assets_as_json(&self) -> (r: String)
        ensures
            r@ == assets_json(self@.assets),
    {
        let mut out: String = String::new();
        out.append("[");
        proof {
            reveal_strlit("[");
            assert("["@ =~= seq!['[']);
        }
        let n: usize = self.assets.len();
        let mut i: usize = 0;
        while i < n
            invariant
                i <= n,
                n == self@.assets.len(),
                out@ == seq!['['] + assets_json_list(self@.assets, i as int),
            decreases n - i,
        {
            if i > 0 {
                out.append(", ");
            }
            let piece: String = self.assets[i].to_json();
            out.append(piece.as_str());
            i = i + 1;
        }
        out.append("]");
        proof {
            reveal_strlit("]");
            assert("]"@ =~= seq![']']);
        }
        out
    }

    /// Renders the whole container as one JSON object.
    pub fn to_json(&self) -> (r: String)
        ensures
            r@ == pack2_json(self@),
    {
        let mut out: String = String::new();
        out.append("{\"asset_count\": ");
        crate::strutil::push_dec_u64(&mut out, self.asset_count as u64);
        out.append(", \"length\": ");
        crate::strutil::push_dec_u64(&mut out, self.length);
        out.append(", \"map_offset\": ");
        crate::strutil::push_dec_u64(&mut out, self.map_offset);
        out.append(", \"assets\": ");
        let assets_piece: String = self.ls_assets_as_json();
        out.append(assets_piece.as_str());
        out.append("}");
        out
    }
}

} // verus!
