//! The 64-bit name-hashing scheme that keys every archive entry.
//!
//! An entry's key is the CRC-64 digest (Jones polynomial, bit-reflected,
//! initial value all ones) of its filename after ASCII case folding to upper
//! case. The digest is the archive format's only intrinsic join key: it links
//! entries, candidate-name lists, and manifests.

use vstd::prelude::*;

use std::collections::HashMap;
use vstd::utf8::encode_utf8;

verus! {

broadcast use vstd::std_specs::hash::group_hash_axioms;

/// The bit-reflected form of the Jones CRC-64 polynomial.
pub const CRC64_POLYNOMIAL: u64 = 0x95AC9329AC4BC9B5;

/// One shift-and-conditionally-xor round of the bitwise CRC computation.
pub open spec fn crc64_round(x: u64) -> u64 {
    if x & 1 == 1 {
        (x >> 1) ^ CRC64_POLYNOMIAL
    } else {
        x >> 1
    }
}

/// `k` rounds of [`crc64_round`], applied to `x`.
pub open spec fn crc64_rounds(x: u64, k: int) -> u64
    decreases k,
{
    if k <= 0 {
        x
    } else {
        crc64_round(crc64_rounds(x, k - 1))
    }
}

/// Folds one input byte into the running CRC state.
pub open spec fn crc64_step(crc: u64, b: u8) -> u64 {
    crc64_rounds(crc ^ (b as u64), 8)
}

/// The CRC state after the first `n` bytes of `s`.
pub open spec fn crc64_prefix(s: Seq<u8>, n: int) -> u64
    decreases n,
{
    if n <= 0 {
        0xFFFFFFFFFFFFFFFFu64
    } else {
        crc64_step(crc64_prefix(s, n - 1), s[n - 1])
    }
}

/// The CRC-64 digest of a byte sequence: the folded state over all bytes,
/// complemented.
pub open spec fn crc64_of(s: Seq<u8>) -> u64 {
    crc64_prefix(s, s.len() as int) ^ 0xFFFFFFFFFFFFFFFFu64
}

/// ASCII case folding of one byte: a lower-case letter becomes upper case,
/// every other byte is unchanged.
pub open spec fn ascii_upper(b: u8) -> u8 {
    if 97 <= b <= 122 {
        (b - 32) as u8
    } else {
        b
    }
}

/// ASCII case folding of a whole byte sequence.
pub open spec fn upper_bytes(s: Seq<u8>) -> Seq<u8> {
    s.map_values(|b: u8| ascii_upper(b))
}

/// The key under which a filename is looked up: the digest of its case-folded
/// UTF-8 bytes.
pub open spec fn filename_key(s: Seq<char>) -> u64 {
    crc64_of(upper_bytes(encode_utf8(s)))
}

/// The lookup table built from a candidate-name list: each name is filed
/// under its key, and when two names share a key the later one wins.
pub open spec fn table_of(names: Seq<Seq<char>>) -> Map<u64, Seq<char>>
    decreases names.len(),
{
    if names.len() == 0 {
        Map::empty()
    } else {
        table_of(names.drop_last()).insert(filename_key(names.last()), names.last())
    }
}

/// The character sequences of a list of strings.
pub open spec fn names_chars(l: Seq<String>) -> Seq<Seq<char>> {
    l.map_values(|s: String| s@)
}

/// The character-level contents of a string-valued lookup table.
pub open spec fn map_chars(m: Map<u64, String>) -> Map<u64, Seq<char>> {
    Map::new(|k: u64| m.dom().contains(k), |k: u64| m[k]@)
}

/// The CRC-64 digest of a byte sequence.
pub fn hash(input_bytes: &[u8]) -> (r: u64)
    ensures
        r == crc64_of(input_bytes@),
{
    let mut crc: u64 = 0xFFFFFFFFFFFFFFFF;
    let mut i: usize = 0;
    while i < input_bytes.len()
        invariant
            i <= input_bytes@.len(),
            crc == crc64_prefix(input_bytes@, i as int),
        decreases input_bytes@.len() - i,
    {
        let mut x: u64 = crc ^ (input_bytes[i] as u64);
        let ghost x0: u64 = x;
        let mut j: usize = 0;
        while j < 8
            invariant
                j <= 8,
                x == crc64_rounds(x0, j as int),
            decreases 8 - j,
        {
            if x & 1 == 1 {
                x = (x >> 1) ^ CRC64_POLYNOMIAL;
            } else {
                x = x >> 1;
            }
            j = j + 1;
        }
        crc = x;
        i = i + 1;
    }
    crc ^ 0xFFFFFFFFFFFFFFFF
}

/// The lookup key of a filename: the name is ASCII-folded to upper case and
/// hashed, so lookups are blind to the case the caller wrote the name in.
pub fn convert_filename(name: &str) -> (r: u64)
    ensures
        r == filename_key(name@),
{
    let bytes: &[u8] = name.as_bytes();
    let mut upper: Vec<u8> = Vec::new();
    let mut i: usize = 0;
    while i < bytes.len()
        invariant
            i <= bytes@.len(),
            upper@.len() == i,
            forall|j: int| 0 <= j < i ==> upper@[j] == ascii_upper(bytes@[j]),
        decreases bytes@.len() - i,
    {
        let b: u8 = bytes[i];
        if 97 <= b && b <= 122 {
            upper.push(b - 32);
        } else {
            upper.push(b);
        }
        i = i + 1;
    }
    proof {
        assert(upper@ =~= upper_bytes(bytes@));
    }
    hash(upper.as_slice())
}

/// Builds the key-to-name lookup table for a candidate-name list. When two
/// names collide on one key, the name later in the list silently wins; no
/// diagnostic is raised.
pub fn filename_list_to_lookup_table(filename_list: &Vec<String>) -> (r: HashMap<u64, String>)
    ensures
        map_chars(r@) == table_of(names_chars(filename_list@)),
{
    let mut table: HashMap<u64, String> = HashMap::new();
    let mut i: usize = 0;
    while i < filename_list.len()
        invariant
            i <= filename_list@.len(),
            map_chars(table@) == table_of(names_chars(filename_list@.take(i as int))),
        decreases filename_list@.len() - i,
    {
        let name: &String = &filename_list[i];
        let key: u64 = convert_filename(name.as_str());
        table.insert(key, name.clone());
        i = i + 1;
        proof {
            let taken = names_chars(filename_list@.take(i as int));
            assert(taken.drop_last() =~= names_chars(filename_list@.take(i - 1)));
            assert(map_chars(table@) =~= table_of(taken));
        }
    }
    proof {
        assert(filename_list@.take(filename_list@.len() as int) =~= filename_list@);
    }
    table
}

} // verus!
