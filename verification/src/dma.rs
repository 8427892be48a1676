//! The DMA material-library format: a magic value and version, a skipped
//! name region, then a counted run of materials, each with a counted run of
//! typed parameters.

use vstd::prelude::*;

use crate::bin_utils::{be32, le32, read_u32_be, read_u32_le, read_x_bytes};
use crate::error::Nups2Error;
use crate::strutil::dec_chars;
use vstd::string::StringExecFns;

verus! {

/// The big-endian magic value that opens a DMA stream.
pub const DMA_MAGIC: u32 = 0x444D4154;

/// The class of one material parameter.
#[derive(Debug, Clone, Copy, PartialEq, Eq, Structural)]
pub enum D3dxparameterClass {
    Scalar,
    Vector,
    MatrixRows,
    MatrixColumns,
    Object,
    Struct,
    ForceDword,
}

/// The element type of one material parameter.
#[derive(Debug, Clone, Copy, PartialEq, Eq, Structural)]
pub enum D3dxparameterType {
    Void,
    Bool,
    Int,
    Float,
    String,
    Texture,
    Texture1d,
    Texture2d,
    Texture3d,
    Texturecube,
    Sampler,
    Sampler1d,
    Sampler2d,
    Sampler3d,
    Samplercube,
    Pixelshader,
    Vertexshader,
    Pixelfragment,
    Vertexfragment,
    Unsupported,
    ForceDword,
}

/// The class a code word decodes to, if any.
pub open spec fn class_of_u32(v: u32) -> Option<D3dxparameterClass> {
    if v == 0 {
        Some(D3dxparameterClass::Scalar)
    } else if v == 1 {
        Some(D3dxparameterClass::Vector)
    } else if v == 2 {
        Some(D3dxparameterClass::MatrixRows)
    } else if v == 3 {
        Some(D3dxparameterClass::Object)
    } else if v == 4 {
        Some(D3dxparameterClass::Struct)
    } else if v == 0x7fffffff {
        Some(D3dxparameterClass::ForceDword)
    } else {
        None
    }
}

/// The type a code word decodes to, if any.
pub open spec fn type_of_u32(v: u32) -> Option<D3dxparameterType> {
    if v == 0 {
        Some(D3dxparameterType::Void)
    } else if v == 1 {
        Some(D3dxparameterType::Bool)
    } else if v == 2 {
        Some(D3dxparameterType::Int)
    } else if v == 3 {
        Some(D3dxparameterType::Float)
    } else if v == 4 {
        Some(D3dxparameterType::String)
    } else if v == 5 {
        Some(D3dxparameterType::Texture)
    } else if v == 6 {
        Some(D3dxparameterType::Texture1d)
    } else if v == 7 {
        Some(D3dxparameterType::Texture2d)
    } else if v == 8 {
        Some(D3dxparameterType::Texture3d)
    } else if v == 9 {
        Some(D3dxparameterType::Texturecube)
    } else if v == 10 {
        Some(D3dxparameterType::Sampler)
    } else if v == 11 {
        Some(D3dxparameterType::Sampler1d)
    } else if v == 12 {
        Some(D3dxparameterType::Sampler2d)
    } else if v == 13 {
        Some(D3dxparameterType::Sampler3d)
    } else if v == 14 {
        Some(D3dxparameterType::Samplercube)
    } else if v == 15 {
        Some(D3dxparameterType::Pixelshader)
    } else if v == 16 {
        Some(D3dxparameterType::Vertexshader)
    } else if v == 17 {
        Some(D3dxparameterType::Pixelfragment)
    } else if v == 18 {
        Some(D3dxparameterType::Vertexfragment)
    } else if v == 19 {
        Some(D3dxparameterType::Unsupported)
    } else if v == 0x7fffffff {
        Some(D3dxparameterType::ForceDword)
    } else {
        None
    }
}

impl D3dxparameterClass {
    /// Decodes a class code word.
    pub fn try_from(v: u32) -> (r: Result<D3dxparameterClass, ()>)
        ensures
            match r {
                Ok(c) => class_of_u32(v) == Some(c),
                Err(_) => class_of_u32(v) is None,
            },
    {
        match v {
            0 => Ok(D3dxparameterClass::Scalar),
            1 => Ok(D3dxparameterClass::Vector),
            2 => Ok(D3dxparameterClass::MatrixRows),
            3 => Ok(D3dxparameterClass::Object),
            4 => Ok(D3dxparameterClass::Struct),
            0x7fffffff => Ok(D3dxparameterClass::ForceDword),
            _ => Err(()),
        }
    }
}

impl D3dxparameterType {
    /// Decodes a type code word.
    pub fn try_from(v: u32) -> (r: Result<D3dxparameterType, ()>)
        ensures
            match r {
                Ok(c) => type_of_u32(v) == Some(c),
                Err(_) => type_of_u32(v) is None,
            },
    {
        match v {
            0 => Ok(D3dxparameterType::Void),
            1 => Ok(D3dxparameterType::Bool),
            2 => Ok(D3dxparameterType::Int),
            3 => Ok(D3dxparameterType::Float),
            4 => Ok(D3dxparameterType::String),
            5 => Ok(D3dxparameterType::Texture),
            6 => Ok(D3dxparameterType::Texture1d),
            7 => Ok(D3dxparameterType::Texture2d),
            8 => Ok(D3dxparameterType::Texture3d),
            9 => Ok(D3dxparameterType::Texturecube),
            10 => Ok(D3dxparameterType::Sampler),
            11 => Ok(D3dxparameterType::Sampler1d),
            12 => Ok(D3dxparameterType::Sampler2d),
            13 => Ok(D3dxparameterType::Sampler3d),
            14 => Ok(D3dxparameterType::Samplercube),
            15 => Ok(D3dxparameterType::Pixelshader),
            16 => Ok(D3dxparameterType::Vertexshader),
            17 => Ok(D3dxparameterType::Pixelfragment),
            18 => Ok(D3dxparameterType::Vertexfragment),
            19 => Ok(D3dxparameterType::Unsupported),
            0x7fffffff => Ok(D3dxparameterType::ForceDword),
            _ => Err(()),
        }
    }
}

/// The mathematical content of one material parameter.
pub ghost struct DmaParameterModel {
    pub name_hash: u32,
    pub d3dx_parameter_class: D3dxparameterClass,
    pub d3dx_parameter_type: D3dxparameterType,
    pub data: Seq<u8>,
}

/// One material parameter: its key, class, type, and raw value bytes.
#[derive(Debug)]
pub struct DmaParameter {
    pub name_hash: u32,
    pub d3dx_parameter_class: D3dxparameterClass,
    pub d3dx_parameter_type: D3dxparameterType,
    pub data: Vec<u8>,
}

impl View for DmaParameter {
    type V = DmaParameterModel;

    open spec fn view(&self) -> DmaParameterModel {
        DmaParameterModel {
            name_hash: self.name_hash,
            d3dx_parameter_class: self.d3dx_parameter_class,
            d3dx_parameter_type: self.d3dx_parameter_type,
            data: self.data@,
        }
    }
}

/// The mathematical content of one material.
pub ghost struct DmaMaterialModel {
    pub name_hash: u32,
    pub material_definition_hash: u32,
    pub parameters: Seq<DmaParameterModel>,
}

/// One material: its key, its definition's key, and its parameters.
#[derive(Debug)]
pub struct DmaMaterial {
    pub name_hash: u32,
    pub material_definition_hash: u32,
    pub parameters: Vec<DmaParameter>,
}

impl View for DmaMaterial {
    type V = DmaMaterialModel;

    open spec fn view(&self) -> DmaMaterialModel {
        DmaMaterialModel {
            name_hash: self.name_hash,
            material_definition_hash: self.material_definition_hash,
            parameters: self.parameters@.map_values(|p: DmaParameter| p@),
        }
    }
}

/// The mathematical content of a material library.
pub ghost struct DmaModel {
    pub version: u32,
    pub materials: Seq<DmaMaterialModel>,
}

/// A material library: its format version and its materials.
#[derive(Debug)]
pub struct Dma {
    pub version: u32,
    pub materials: Vec<DmaMaterial>,
}

impl View for Dma {
    type V = DmaModel;

    open spec fn view(&self) -> DmaModel {
        DmaModel {
            version: self.version,
            materials: self.materials@.map_values(|m: DmaMaterial| m@),
        }
    }
}

/// Parses one parameter at `pos`: key, class word, type word, value length,
/// then that many value bytes.
pub open spec fn parse_parameter(data: Seq<u8>, pos: int) -> Option<(DmaParameterModel, int)> {
    if pos < 0 || pos + 16 > data.len() {
        None
    } else {
        let name_hash = le32(data.subrange(pos, pos + 4));
        let class_word = le32(data.subrange(pos + 4, pos + 8));
        let type_word = le32(data.subrange(pos + 8, pos + 12));
        let data_length = le32(data.subrange(pos + 12, pos + 16));
        if pos + 16 + data_length > data.len() {
            None
        } else {
            match (class_of_u32(class_word), type_of_u32(type_word)) {
                (Some(c), Some(t)) => Some(
                    (
                        DmaParameterModel {
                            name_hash: name_hash,
                            d3dx_parameter_class: c,
                            d3dx_parameter_type: t,
                            data: data.subrange(pos + 16, pos + 16 + data_length),
                        },
                        pos + 16 + data_length,
                    ),
                ),
                _ => None,
            }
        }
    }
}

/// Parses `n` parameters in a row starting at `pos`.
pub open spec fn parse_parameters(data: Seq<u8>, pos: int, n: nat) -> Option<(
    Seq<DmaParameterModel>,
    int,
)>
    decreases n,
{
    if n == 0 {
        Some((Seq::empty(), pos))
    } else {
        match parse_parameter(data, pos) {
            None => None,
            Some((p, pos2)) => match parse_parameters(data, pos2, (n - 1) as nat) {
                None => None,
                Some((rest, pos3)) => Some((seq![p] + rest, pos3)),
            },
        }
    }
}

/// Parses one material at `pos`: key, an ignored length word, the
/// definition's key, a parameter count, then that many parameters.
pub open spec fn parse_material(data: Seq<u8>, pos: int) -> Option<(DmaMaterialModel, int)> {
    if pos < 0 || pos + 16 > data.len() {
        None
    } else {
        let name_hash = le32(data.subrange(pos, pos + 4));
        let material_definition_hash = le32(data.subrange(pos + 8, pos + 12));
        let parameter_count = le32(data.subrange(pos + 12, pos + 16));
        match parse_parameters(data, pos + 16, parameter_count as nat) {
            None => None,
            Some((parameters, pos2)) => Some(
                (DmaMaterialModel { name_hash, material_definition_hash, parameters }, pos2),
            ),
        }
    }
}

/// Parses `n` materials in a row starting at `pos`.
pub open spec fn parse_materials(data: Seq<u8>, pos: int, n: nat) -> Option<(
    Seq<DmaMaterialModel>,
    int,
)>
    decreases n,
{
    if n == 0 {
        Some((Seq::empty(), pos))
    } else {
        match parse_material(data, pos) {
            None => None,
            Some((m, pos2)) => match parse_materials(data, pos2, (n - 1) as nat) {
                None => None,
                Some((rest, pos3)) => Some((seq![m] + rest, pos3)),
            },
        }
    }
}

/// Parses a whole material library at `pos`: the magic value, the version, a
/// skipped name region, a material count, then that many materials.
pub open spec fn parse_dma(data: Seq<u8>, pos: int) -> Option<(DmaModel, int)> {
    if pos < 0 || pos + 12 > data.len() {
        None
    } else if be32(data.subrange(pos, pos + 4)) != DMA_MAGIC {
        None
    } else {
        let version = le32(data.subrange(pos + 4, pos + 8));
        let skip_length = le32(data.subrange(pos + 8, pos + 12));
        if pos + 12 + skip_length + 4 > data.len() {
            None
        } else {
            let material_count = le32(
                data.subrange(pos + 12 + skip_length, pos + 12 + skip_length + 4),
            );
            match parse_materials(data, pos + 12 + skip_length + 4, material_count as nat) {
                None => None,
                Some((materials, pos2)) => Some((DmaModel { version, materials }, pos2)),
            }
        }
    }
}

impl DmaParameter {
    /// Reads one parameter record from the cursor.
    pub fn read(data: &[u8], pos: &mut usize) -> (r: Result<DmaParameter, Nups2Error>)
        ensures
            match r {
                Ok(p) => parse_parameter(data@, *old(pos) as int) == Some((p@, *final(pos) as int)),
                Err(_) => parse_parameter(data@, *old(pos) as int) is None && *final(pos) == *old(
                    pos,
                ),
            },
    {
        let mut p: usize = *pos;
        let name_hash: u32 = match read_u32_le(data, &mut p) {
            Ok(v) => v,
            Err(e) => { return Err(e) },
        };
        let class_word: u32 = match read_u32_le(data, &mut p) {
            Ok(v) => v,
            Err(e) => { return Err(e) },
        };
        let type_word: u32 = match read_u32_le(data, &mut p) {
            Ok(v) => v,
            Err(e) => { return Err(e) },
        };
        let data_length: u32 = match read_u32_le(data, &mut p) {
            Ok(v) => v,
            Err(e) => { return Err(e) },
        };
        let d3dx_parameter_class: D3dxparameterClass = match D3dxparameterClass::try_from(
            class_word,
        ) {
            Ok(v) => v,
            Err(_) => { return Err(Nups2Error::Other("Invalid D3dxparameterClass in dma")) },
        };
        let d3dx_parameter_type: D3dxparameterType = match D3dxparameterType::try_from(type_word) {
            Ok(v) => v,
            Err(_) => { return Err(Nups2Error::Other("Invalid D3dxparameterType in dma")) },
        };
        let value: Vec<u8> = match read_x_bytes(data, &mut p, data_length as usize) {
            Ok(v) => v,
            Err(e) => { return Err(e) },
        };
        *pos = p;
        Ok(DmaParameter { name_hash, d3dx_parameter_class, d3dx_parameter_type, data: value })
    }
}

impl DmaMaterial {
    /// Reads one material record from the cursor.
    #[verifier::rlimit(50)]
    pub fn read(data: &[u8], pos: &mut usize) -> (r: Result<DmaMaterial, Nups2Error>)
        ensures
            match r {
                Ok(m) => parse_material(data@, *old(pos) as int) == Some((m@, *final(pos) as int)),
                Err(_) => parse_material(data@, *old(pos) as int) is None && *final(pos) == *old(
                    pos,
                ),
            },
    {
        let ghost pos0: int = *pos as int;
        let mut p: usize = *pos;
        let name_hash: u32 = match read_u32_le(data, &mut p) {
            Ok(v) => v,
            Err(e) => { return Err(e) },
        };
        let _data_length: u32 = match read_u32_le(data, &mut p) {
            Ok(v) => v,
            Err(e) => { return Err(e) },
        };
        let material_definition_hash: u32 = match read_u32_le(data, &mut p) {
            Ok(v) => v,
            Err(e) => { return Err(e) },
        };
        let parameter_count: u32 = match read_u32_le(data, &mut p) {
            Ok(v) => v,
            Err(e) => { return Err(e) },
        };
        let mut parameters: Vec<DmaParameter> = Vec::new();
        let mut i: u32 = 0;
        while i < parameter_count
            invariant
                i <= parameter_count,
                parameters@.len() == i,
                0 <= pos0,
                pos0 == *old(pos) as int,
                *pos == *old(pos),
                pos0 + 16 <= data@.len(),
                parameter_count == le32(data@.subrange(pos0 + 12, pos0 + 16)),
                parse_parameters(data@, pos0 + 16, parameter_count as nat) == (match parse_parameters(
                    data@,
                    p as int,
                    (parameter_count - i) as nat,
                ) {
                    None => None::<(Seq<DmaParameterModel>, int)>,
                    Some((rest, end)) => Some(
                        (parameters@.map_values(|q: DmaParameter| q@) + rest, end),
                    ),
                }),
            decreases parameter_count - i,
        {
            let ghost old_views = parameters@.map_values(|q: DmaParameter| q@);
            let param: DmaParameter = match DmaParameter::read(data, &mut p) {
                Ok(v) => v,
                Err(e) => {
                    proof {
                        assert(parse_parameters(
                            data@,
                            p as int,
                            (parameter_count - i) as nat,
                        ) is None);
                        assert(parse_parameters(data@, pos0 + 16, parameter_count as nat) is None);
                        assert(parse_material(data@, pos0) is None);
                    }
                    return Err(e);
                },
            };
            parameters.push(param);
            i = i + 1;
            proof {
                let new_views = parameters@.map_values(|q: DmaParameter| q@);
                assert(new_views =~= old_views.push(parameters@.last()@));
                match parse_parameters(data@, p as int, (parameter_count - i) as nat) {
                    None => {},
                    Some((rest, end)) => {
                        assert(old_views + (seq![parameters@.last()@] + rest) =~= new_views + rest);
                    },
                }
            }
        }
        *pos = p;
        proof {
            assert(parameters@.map_values(|q: DmaParameter| q@) + Seq::<
                DmaParameterModel,
            >::empty() =~= parameters@.map_values(|q: DmaParameter| q@));
            assert(parse_parameters(data@, pos0 + 16, parameter_count as nat) == Some((
                parameters@.map_values(|q: DmaParameter| q@),
                p as int,
            )));
            assert(parse_material(data@, pos0) is Some);
            assert(parse_material(data@, pos0).unwrap().1 == p as int);
            assert(parse_material(data@, pos0).unwrap().0.name_hash == name_hash);
            assert(parse_material(data@, pos0).unwrap().0.material_definition_hash
                == material_definition_hash);
            assert(parse_material(data@, pos0).unwrap().0.parameters == parameters@.map_values(
                |q: DmaParameter| q@,
            ));
        }
        let result = DmaMaterial { name_hash, material_definition_hash, parameters };
        proof {
            assert(result@.parameters =~= parse_material(data@, pos0).unwrap().0.parameters);
            assert(parse_material(data@, pos0) == Some((result@, p as int)));
        }
        Ok(result)
    }
}

impl Dma {
    /// Reads a whole material library from the cursor. A stream that does
    /// not open with the magic value, or that ends early, is rejected.
    #[verifier::rlimit(50)]
    pub fn read(data: &[u8], pos: &mut usize) -> (r: Result<Dma, Nups2Error>)
        ensures
            match r {
                Ok(m) => parse_dma(data@, *old(pos) as int) == Some((m@, *final(pos) as int)),
                Err(_) => parse_dma(data@, *old(pos) as int) is None && *final(pos) == *old(pos),
            },
    {
        let ghost pos0: int = *pos as int;
        let mut p: usize = *pos;
        let magic: u32 = match read_u32_be(data, &mut p) {
            Ok(v) => v,
            Err(e) => { return Err(e) },
        };
        if magic != DMA_MAGIC {
            return Err(Nups2Error::BadMagic);
        }
        let version: u32 = match read_u32_le(data, &mut p) {
            Ok(v) => v,
            Err(e) => { return Err(e) },
        };
        let skip_length: u32 = match read_u32_le(data, &mut p) {
            Ok(v) => v,
            Err(e) => { return Err(e) },
        };
        let _skipped: Vec<u8> = match read_x_bytes(data, &mut p, skip_length as usize) {
            Ok(v) => v,
            Err(e) => { return Err(e) },
        };
        let material_count: u32 = match read_u32_le(data, &mut p) {
            Ok(v) => v,
            Err(e) => { return Err(e) },
        };
        let mut materials: Vec<DmaMaterial> = Vec::new();
        let mut i: u32 = 0;
        while i < material_count
            invariant
                i <= material_count,
                materials@.len() == i,
                0 <= pos0,
                pos0 == *old(pos) as int,
                *pos == *old(pos),
                pos0 + 12 + skip_length + 4 <= data@.len(),
                be32(data@.subrange(pos0, pos0 + 4)) == DMA_MAGIC,
                skip_length == le32(data@.subrange(pos0 + 8, pos0 + 12)),
                material_count == le32(
                    data@.subrange(pos0 + 12 + skip_length, pos0 + 12 + skip_length + 4),
                ),
                parse_materials(data@, pos0 + 12 + skip_length + 4, material_count as nat) == (
                match parse_materials(data@, p as int, (material_count - i) as nat) {
                    None => None::<(Seq<DmaMaterialModel>, int)>,
                    Some((rest, end)) => Some(
                        (materials@.map_values(|q: DmaMaterial| q@) + rest, end),
                    ),
                }),
            decreases material_count - i,
        {
            let ghost old_views = materials@.map_values(|q: DmaMaterial| q@);
            let material: DmaMaterial = match DmaMaterial::read(data, &mut p) {
                Ok(v) => v,
                Err(e) => {
                    proof {
                        assert(parse_materials(
                            data@,
                            p as int,
                            (material_count - i) as nat,
                        ) is None);
                        assert(parse_materials(
                            data@,
                            pos0 + 12 + skip_length + 4,
                            material_count as nat,
                        ) is None);
                        assert(parse_dma(data@, pos0) is None);
                    }
                    return Err(e);
                },
            };
            materials.push(material);
            i = i + 1;
            proof {
                let new_views = materials@.map_values(|q: DmaMaterial| q@);
                assert(new_views =~= old_views.push(materials@.last()@));
                match parse_materials(data@, p as int, (material_count - i) as nat) {
                    None => {},
                    Some((rest, end)) => {
                        assert(old_views + (seq![materials@.last()@] + rest) =~= new_views + rest);
                    },
                }
            }
        }
        *pos = p;
        proof {
            assert(materials@.map_values(|q: DmaMaterial| q@) + Seq::<
                DmaMaterialModel,
            >::empty() =~= materials@.map_values(|q: DmaMaterial| q@));
        }
        let result = Dma { version, materials };
        proof {
            assert(parse_dma(data@, pos0) is Some);
            assert(result@.materials =~= parse_dma(data@, pos0).unwrap().0.materials);
            assert(parse_dma(data@, pos0) == Some((result@, p as int)));
        }
        Ok(result)
    }
}

} // verus!

verus! {

/// The name of a parameter class, as debug output spells it.
pub open spec fn parameter_class_name(c: D3dxparameterClass) -> Seq<char> {
    match c {
        D3dxparameterClass::Scalar => "Scalar"@,
        D3dxparameterClass::Vector => "Vector"@,
        D3dxparameterClass::MatrixRows => "MatrixRows"@,
        D3dxparameterClass::MatrixColumns => "MatrixColumns"@,
        D3dxparameterClass::Object => "Object"@,
        D3dxparameterClass::Struct => "Struct"@,
        D3dxparameterClass::ForceDword => "ForceDword"@,
    }
}

/// The name of a parameter type, as debug output spells it.
pub open spec fn parameter_type_name(t: D3dxparameterType) -> Seq<char> {
    match t {
        D3dxparameterType::Void => "Void"@,
        D3dxparameterType::Bool => "Bool"@,
        D3dxparameterType::Int => "Int"@,
        D3dxparameterType::Float => "Float"@,
        D3dxparameterType::String => "String"@,
        D3dxparameterType::Texture => "Texture"@,
        D3dxparameterType::Texture1d => "Texture1d"@,
        D3dxparameterType::Texture2d => "Texture2d"@,
        D3dxparameterType::Texture3d => "Texture3d"@,
        D3dxparameterType::Texturecube => "Texturecube"@,
        D3dxparameterType::Sampler => "Sampler"@,
        D3dxparameterType::Sampler1d => "Sampler1d"@,
        D3dxparameterType::Sampler2d => "Sampler2d"@,
        D3dxparameterType::Sampler3d => "Sampler3d"@,
        D3dxparameterType::Samplercube => "Samplercube"@,
        D3dxparameterType::Pixelshader => "Pixelshader"@,
        D3dxparameterType::Vertexshader => "Vertexshader"@,
        D3dxparameterType::Pixelfragment => "Pixelfragment"@,
        D3dxparameterType::Vertexfragment => "Vertexfragment"@,
        D3dxparameterType::Unsupported => "Unsupported"@,
        D3dxparameterType::ForceDword => "ForceDword"@,
    }
}

/// The first `n` bytes rendered in decimal, joined by comma and space.
pub open spec fn bytes_json_list(data: Seq<u8>, n: int) -> Seq<char>
    decreases n,
{
    if n <= 0 {
        Seq::empty()
    } else if n == 1 {
        dec_chars(data[0] as nat)
    } else {
        bytes_json_list(data, n - 1) + ", "@ + dec_chars(data[n - 1] as nat)
    }
}

/// The JSON rendering of one parameter.
pub open spec fn parameter_json(p: DmaParameterModel) -> Seq<char> {
    "{\"name_hash\": "@ + dec_chars(p.name_hash as nat) + ", \"d3dx_parameter_class\": \""@
        + parameter_class_name(p.d3dx_parameter_class) + "\", \"d3dx_parameter_type\": \""@ + parameter_type_name(
        p.d3dx_parameter_type,
    ) + "\", \"data\": ["@ + bytes_json_list(p.data, p.data.len() as int) + "]}"@
}

/// The first `n` parameters' JSON renderings, joined by comma and space.
pub open spec fn parameters_json_list(ps: Seq<DmaParameterModel>, n: int) -> Seq<char>
    decreases n,
{
    if n <= 0 {
        Seq::empty()
    } else if n == 1 {
        parameter_json(ps[0])
    } else {
        parameters_json_list(ps, n - 1) + ", "@ + parameter_json(ps[n - 1])
    }
}

/// The JSON rendering of one material.
pub open spec fn material_json(m: DmaMaterialModel) -> Seq<char> {
    "{\"name_hash\": "@ + dec_chars(m.name_hash as nat) + ", \"material_definition_hash\": "@
        + dec_chars(m.material_definition_hash as nat) + ", \"parameters\": ["@
        + parameters_json_list(m.parameters, m.parameters.len() as int) + "]}"@
}

/// The first `n` materials' JSON renderings, joined by comma and space.
pub open spec fn materials_json_list(ms: Seq<DmaMaterialModel>, n: int) -> Seq<char>
    decreases n,
{
    if n <= 0 {
        Seq::empty()
    } else if n == 1 {
        material_json(ms[0])
    } else {
        materials_json_list(ms, n - 1) + ", "@ + material_json(ms[n - 1])
    }
}

/// The JSON rendering of a whole material library.
pub open spec fn dma_json(d: DmaModel) -> Seq<char> {
    "{\"version\": "@ + dec_chars(d.version as nat) + ", \"materials\": ["@
        + materials_json_list(d.materials, d.materials.len() as int) + "]}"@
}

impl DmaParameter {
    /// Renders this parameter as one JSON object.
    pub fn to_json(&self) -> (r: String)
        ensures
            r@ == parameter_json(self@),
    {
        let mut out: String = String::new();
        out.append("{\"name_hash\": ");
        crate::strutil::push_dec_u64(&mut out, self.name_hash as u64);
        out.append(", \"d3dx_parameter_class\": \"");
        match self.d3dx_parameter_class {
            D3dxparameterClass::Scalar => out.append("Scalar"),
            D3dxparameterClass::Vector => out.append("Vector"),
            D3dxparameterClass::MatrixRows => out.append("MatrixRows"),
            D3dxparameterClass::MatrixColumns => out.append("MatrixColumns"),
            D3dxparameterClass::Object => out.append("Object"),
            D3dxparameterClass::Struct => out.append("Struct"),
            D3dxparameterClass::ForceDword => out.append("ForceDword"),
        }
        out.append("\", \"d3dx_parameter_type\": \"");
        match self.d3dx_parameter_type {
            D3dxparameterType::Void => out.append("Void"),
            D3dxparameterType::Bool => out.append("Bool"),
            D3dxparameterType::Int => out.append("Int"),
            D3dxparameterType::Float => out.append("Float"),
            D3dxparameterType::String => out.append("String"),
            D3dxparameterType::Texture => out.append("Texture"),
            D3dxparameterType::Texture1d => out.append("Texture1d"),
            D3dxparameterType::Texture2d => out.append("Texture2d"),
            D3dxparameterType::Texture3d => out.append("Texture3d"),
            D3dxparameterType::Texturecube => out.append("Texturecube"),
            D3dxparameterType::Sampler => out.append("Sampler"),
            D3dxparameterType::Sampler1d => out.append("Sampler1d"),
            D3dxparameterType::Sampler2d => out.append("Sampler2d"),
            D3dxparameterType::Sampler3d => out.append("Sampler3d"),
            D3dxparameterType::Samplercube => out.append("Samplercube"),
            D3dxparameterType::Pixelshader => out.append("Pixelshader"),
            D3dxparameterType::Vertexshader => out.append("Vertexshader"),
            D3dxparameterType::Pixelfragment => out.append("Pixelfragment"),
            D3dxparameterType::Vertexfragment => out.append("Vertexfragment"),
            D3dxparameterType::Unsupported => out.append("Unsupported"),
            D3dxparameterType::ForceDword => out.append("ForceDword"),
        }
        out.append("\", \"data\": [");
        let n: usize = self.data.len();
        let mut i: usize = 0;
        while i < n
            invariant
                i <= n,
                n == self.data@.len(),
                out@ == "{\"name_hash\": "@ + dec_chars(self.name_hash as nat)
                    + ", \"d3dx_parameter_class\": \""@ + parameter_class_name(self.d3dx_parameter_class)
                    + "\", \"d3dx_parameter_type\": \""@ + parameter_type_name(self.d3dx_parameter_type)
                    + "\", \"data\": ["@ + bytes_json_list(self.data@, i as int),
            decreases n - i,
        {
            if i > 0 {
                out.append(", ");
            }
            crate::strutil::push_dec_u64(&mut out, self.data[i] as u64);
            i = i + 1;
        }
        out.append("]}");
        out
    }
}

impl DmaMaterial {
    /// Renders this material as one JSON object.
    pub fn to_json(&self) -> (r: String)
        ensures
            r@ == material_json(self@),
    {
        let mut out: String = String::new();
        out.append("{\"name_hash\": ");
        crate::strutil::push_dec_u64(&mut out, self.name_hash as u64);
        out.append(", \"material_definition_hash\": ");
        crate::strutil::push_dec_u64(&mut out, self.material_definition_hash as u64);
        out.append(", \"parameters\": [");
        let ghost ps = self@.parameters;
        let n: usize = self.parameters.len();
        let mut i: usize = 0;
        while i < n
            invariant
                i <= n,
                n == self.parameters@.len(),
                ps == self@.parameters,
                ps.len() == n,
                forall|j: int| 0 <= j < n ==> #[trigger] self.parameters@[j]@ == ps[j],
                out@ == "{\"name_hash\": "@ + dec_chars(self.name_hash as nat)
                    + ", \"material_definition_hash\": "@ + dec_chars(
                    self.material_definition_hash as nat,
                ) + ", \"parameters\": ["@ + parameters_json_list(ps, i as int),
            decreases n - i,
        {
            if i > 0 {
                out.append(", ");
            }
            let piece: String = self.parameters[i].to_json();
            out.append(piece.as_str());
            i = i + 1;
        }
        out.append("]}");
        out
    }
}

impl Dma {
    /// Renders this material library as one JSON object.
    pub fn to_json(&self) -> (r: String)
        ensures
            r@ == dma_json(self@),
    {
        let mut out: String = String::new();
        out.append("{\"version\": ");
        crate::strutil::push_dec_u64(&mut out, self.version as u64);
        out.append(", \"materials\": [");
        let ghost ms = self@.materials;
        let n: usize = self.materials.len();
        let mut i: usize = 0;
        while i < n
            invariant
                i <= n,
                n == self.materials@.len(),
                ms == self@.materials,
                ms.len() == n,
                forall|j: int| 0 <= j < n ==> #[trigger] self.materials@[j]@ == ms[j],
                out@ == "{\"version\": "@ + dec_chars(self.version as nat)
                    + ", \"materials\": ["@ + materials_json_list(ms, i as int),
            decreases n - i,
        {
            if i > 0 {
                out.append(", ");
            }
            let piece: String = self.materials[i].to_json();
            out.append(piece.as_str());
            i = i + 1;
        }
        out.append("]}");
        out
    }
}

} // verus!
