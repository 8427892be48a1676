//! The manifest engine: serializing an archive's `(key, checksum)` pairs to
//! the compact 12-byte-record form, reading such a manifest back, computing
//! the set-difference of two manifests, and rendering a difference for
//! humans, with best-effort rename inference.

use vstd::prelude::*;

use std::collections::HashMap;

use crate::bin_utils::{be32, be64, read_u32_be, read_u64_be};
use crate::crc64::map_chars;
use crate::error::Nups2Error;
use crate::pack2::{manifest_bytes, pairs_of, Pack2};
use crate::strutil::{hex_chars, push_hex_u64};
use vstd::string::StringExecFns;

verus! {

broadcast use vstd::std_specs::hash::group_hash_axioms;

/// An archive fingerprint: one `(key, content checksum)` pair per entry, in
/// archive entry order.
pub type Manifest = Vec<(u64, u32)>;

/// The outcome of comparing two manifests.
pub type ManifestDiff = Vec<ManifestDiffEntry>;

/// One key's change between two manifests: its checksum on the old side and
/// on the new side, either of which may be absent.
#[derive(Debug, Clone, Copy, PartialEq, Eq)]
pub struct ManifestDiffEntry {
    pub name_hash: u64,
    pub old_data_hash: Option<u32>,
    pub new_data_hash: Option<u32>,
}

impl ManifestDiffEntry {
    /// Builds a difference entry from its three parts.
    pub fn new(name_hash: u64, old_data_hash: Option<u32>, new_data_hash: Option<u32>) -> (r:
        ManifestDiffEntry)
        ensures
            r.name_hash == name_hash,
            r.old_data_hash == old_data_hash,
            r.new_data_hash == new_data_hash,
    {
        ManifestDiffEntry { name_hash, old_data_hash, new_data_hash }
    }
}

/// The pairs encoded by a serialized manifest: one per 12-byte record.
pub open spec fn parsed_manifest(data: Seq<u8>) -> Seq<(u64, u32)> {
    Seq::new(
        (data.len() / 12) as nat,
        |i: int| (be64(data.subrange(12 * i, 12 * i + 8)), be32(data.subrange(12 * i + 8, 12 * i + 12))),
    )
}

/// The checksum filed under `k` in the manifest, at or after position `i`:
/// the first record with key `k` decides.
pub open spec fn manifest_lookup_from(m: Seq<(u64, u32)>, k: u64, i: int) -> Option<u32>
    decreases m.len() - i,
{
    if i < 0 || i >= m.len() {
        None
    } else if m[i].0 == k {
        Some(m[i].1)
    } else {
        manifest_lookup_from(m, k, i + 1)
    }
}

/// The checksum filed under `k` in the manifest, if any; with duplicate keys
/// the first record decides.
pub open spec fn manifest_lookup(m: Seq<(u64, u32)>, k: u64) -> Option<u32> {
    manifest_lookup_from(m, k, 0)
}

/// The difference contributions of the old side's first `n` records: a
/// removal for a key absent from the new side, a change for a key whose
/// checksum differs, nothing for an unchanged key.
pub open spec fn old_side_diff(old: Seq<(u64, u32)>, new: Seq<(u64, u32)>, n: int) -> Seq<
    ManifestDiffEntry,
>
    decreases n,
{
    if n <= 0 {
        Seq::empty()
    } else {
        let rest = old_side_diff(old, new, n - 1);
        let e = old[n - 1];
        match manifest_lookup(new, e.0) {
            Some(nh) => if nh != e.1 {
                rest.push(
                    ManifestDiffEntry {
                        name_hash: e.0,
                        old_data_hash: Some(e.1),
                        new_data_hash: Some(nh),
                    },
                )
            } else {
                rest
            },
            None => rest.push(
                ManifestDiffEntry { name_hash: e.0, old_data_hash: Some(e.1), new_data_hash: None },
            ),
        }
    }
}

/// The difference contributions of the new side's first `n` records: an
/// addition for each key with no counterpart in the old side.
pub open spec fn new_side_diff(old: Seq<(u64, u32)>, new: Seq<(u64, u32)>, n: int) -> Seq<
    ManifestDiffEntry,
>
    decreases n,
{
    if n <= 0 {
        Seq::empty()
    } else {
        let rest = new_side_diff(old, new, n - 1);
        let e = new[n - 1];
        if manifest_lookup(old, e.0) is Some {
            rest
        } else {
            rest.push(
                ManifestDiffEntry { name_hash: e.0, old_data_hash: None, new_data_hash: Some(e.1) },
            )
        }
    }
}

/// The difference of two manifests: every removal and change of the old
/// side's keys, in old order, then every addition of the new side's keys, in
/// new order. Unchanged keys contribute nothing.
pub open spec fn diff_spec(old: Seq<(u64, u32)>, new: Seq<(u64, u32)>) -> Seq<ManifestDiffEntry> {
    old_side_diff(old, new, old.len() as int) + new_side_diff(old, new, new.len() as int)
}

/// Steps the lookup past records that are known not to carry `k`.
proof fn lemma_lookup_skip(m: Seq<(u64, u32)>, k: u64, i: int)
    requires
        0 <= i <= m.len(),
        forall|j: int| 0 <= j < i ==> (#[trigger] m[j]).0 != k,
    ensures
        manifest_lookup(m, k) == manifest_lookup_from(m, k, i),
    decreases i,
{
    if i > 0 {
        lemma_lookup_skip(m, k, i - 1);
    }
}

/// Looks a key up in a manifest: the first record with that key decides.
fn manifest_find(m: &Manifest, k: u64) -> (r: Option<u32>)
    ensures
        r == manifest_lookup(m@, k),
{
    let n: usize = m.len();
    let mut i: usize = 0;
    while i < n
        invariant
            i <= n,
            n == m@.len(),
            forall|j: int| 0 <= j < i ==> (#[trigger] m@[j]).0 != k,
        decreases n - i,
    {
        if m[i].0 == k {
            proof {
                lemma_lookup_skip(m@, k, i as int);
            }
            return Some(m[i].1);
        }
        i = i + 1;
    }
    proof {
        lemma_lookup_skip(m@, k, n as int);
    }
    None
}

/// Reads a serialized manifest: 12-byte records until the end of the input.
/// An input whose length is not a whole number of records is rejected, never
/// silently truncated.
pub fn read_manifest(data: &[u8]) -> (r: Result<Manifest, Nups2Error>)
    ensures
        match r {
            Ok(m) => data@.len() % 12 == 0 && m@ == parsed_manifest(data@),
            Err(e) => data@.len() % 12 != 0 && e is BadManifestLength,
        },
{
    if data.len() % 12 != 0 {
        return Err(Nups2Error::BadManifestLength);
    }
    let count: usize = data.len() / 12;
    let mut out: Manifest = Vec::new();
    let mut pos: usize = 0;
    let mut i: usize = 0;
    while i < count
        invariant
            i <= count,
            count == data@.len() / 12,
            data@.len() % 12 == 0,
            pos == 12 * i,
            out@.len() == i,
            forall|j: int| 0 <= j < i ==> #[trigger] out@[j] == parsed_manifest(data@)[j],
        decreases count - i,
    {
        let name_hash: u64 = match read_u64_be(data, &mut pos) {
            Ok(v) => v,
            Err(_) => {
                proof {
                    assert(false);
                }
                return Err(Nups2Error::BadManifestLength);
            },
        };
        let data_hash: u32 = match read_u32_be(data, &mut pos) {
            Ok(v) => v,
            Err(_) => {
                proof {
                    assert(false);
                }
                return Err(Nups2Error::BadManifestLength);
            },
        };
        out.push((name_hash, data_hash));
        i = i + 1;
    }
    proof {
        assert(out@ =~= parsed_manifest(data@));
    }
    Ok(out)
}

/// Compares two manifests: removals and changes of old keys in old order,
/// then additions of new keys in new order; unchanged keys are omitted.
pub fn diff_two_manifests(old_manifest: &Manifest, new_manifest: &Manifest) -> (r: ManifestDiff)
    ensures
        r@ == diff_spec(old_manifest@, new_manifest@),
{
    let mut out: ManifestDiff = Vec::new();
    let n_old: usize = old_manifest.len();
    let mut i: usize = 0;
    while i < n_old
        invariant
            i <= n_old,
            n_old == old_manifest@.len(),
            out@ == old_side_diff(old_manifest@, new_manifest@, i as int),
        decreases n_old - i,
    {
        let (key, old_hash): (u64, u32) = old_manifest[i];
        match manifest_find(new_manifest, key) {
            Some(new_hash) => {
                if new_hash != old_hash {
                    out.push(ManifestDiffEntry::new(key, Some(old_hash), Some(new_hash)));
                }
            },
            None => {
                out.push(ManifestDiffEntry::new(key, Some(old_hash), None));
            },
        }
        i = i + 1;
    }
    let n_new: usize = new_manifest.len();
    let mut j: usize = 0;
    while j < n_new
        invariant
            j <= n_new,
            n_new == new_manifest@.len(),
            out@ == old_side_diff(old_manifest@, new_manifest@, old_manifest@.len() as int)
                + new_side_diff(old_manifest@, new_manifest@, j as int),
        decreases n_new - j,
    {
        let (key, new_hash): (u64, u32) = new_manifest[j];
        match manifest_find(old_manifest, key) {
            Some(_) => {},
            None => {
                out.push(ManifestDiffEntry::new(key, None, Some(new_hash)));
            },
        }
        j = j + 1;
    }
    out
}

impl Pack2 {
    /// Compares a stored manifest (the old side) against this container's
    /// current entries (the new side), without serializing the container
    /// first.
    pub fn diff_with_manifest(&self, manifest: &Manifest) -> (r: ManifestDiff)
        ensures
            r@ == diff_spec(manifest@, pairs_of(self@.assets)),
    {
        let ghost pairs = pairs_of(self@.assets);
        let mut out: ManifestDiff = Vec::new();
        let n_old: usize = manifest.len();
        let mut i: usize = 0;
        while i < n_old
            invariant
                i <= n_old,
                n_old == manifest@.len(),
                pairs == pairs_of(self@.assets),
                out@ == old_side_diff(manifest@, pairs, i as int),
            decreases n_old - i,
        {
            let (key, old_hash): (u64, u32) = manifest[i];
            match self.find_asset_index_by_name_hash(key) {
                Some(asset_index) => {
                    proof {
                        lemma_lookup_skip(pairs, key, asset_index as int);
                    }
                    let new_hash: u32 = self.assets[asset_index].data_hash;
                    if new_hash != old_hash {
                        out.push(ManifestDiffEntry::new(key, Some(old_hash), Some(new_hash)));
                    }
                },
                None => {
                    proof {
                        lemma_lookup_skip(pairs, key, pairs.len() as int);
                    }
                    out.push(ManifestDiffEntry::new(key, Some(old_hash), None));
                },
            }
            i = i + 1;
        }
        let n_new: usize = self.assets.len();
        let mut j: usize = 0;
        while j < n_new
            invariant
                j <= n_new,
                n_new == self@.assets.len(),
                pairs == pairs_of(self@.assets),
                out@ == old_side_diff(manifest@, pairs, manifest@.len() as int) + new_side_diff(
                    manifest@,
                    pairs,
                    j as int,
                ),
            decreases n_new - j,
        {
            let key: u64 = self.assets[j].name_hash;
            let new_hash: u32 = self.assets[j].data_hash;
            match manifest_find(manifest, key) {
                Some(_) => {},
                None => {
                    out.push(ManifestDiffEntry::new(key, None, Some(new_hash)));
                },
            }
            j = j + 1;
        }
        out
    }
}

} // verus!

verus! {

/// The name shown for a key: the table's name when it knows the key, a
/// question mark otherwise.
pub open spec fn display_name(t: Map<u64, Seq<char>>, k: u64) -> Seq<char> {
    if t.dom().contains(k) {
        t[k]
    } else {
        seq!['?']
    }
}

/// The rendering of an inferred rename.
pub open spec fn renamed_line(t: Map<u64, Seq<char>>, from_key: u64, to_key: u64) -> Seq<char> {
    "Renamed file: 0x"@ + hex_chars(from_key as nat) + " ("@ + display_name(t, from_key)
        + ") -> 0x"@ + hex_chars(to_key as nat) + " ("@ + display_name(t, to_key) + ")"@
}

/// The rendering of an added key.
pub open spec fn created_line(t: Map<u64, Seq<char>>, k: u64, new_hash: u32) -> Seq<char> {
    "Created file: 0x"@ + hex_chars(k as nat) + " ("@ + display_name(t, k)
        + ") with data_hash 0x"@ + hex_chars(new_hash as nat)
}

/// The rendering of a changed key.
pub open spec fn changed_line(t: Map<u64, Seq<char>>, k: u64, old_hash: u32, new_hash: u32) -> Seq<
    char,
> {
    "Changed file: 0x"@ + hex_chars(k as nat) + " ("@ + display_name(t, k) + "): 0x"@ + hex_chars(
        old_hash as nat,
    ) + " -> 0x"@ + hex_chars(new_hash as nat)
}

/// The rendering of a removed key.
pub open spec fn deleted_line(t: Map<u64, Seq<char>>, k: u64, old_hash: u32) -> Seq<char> {
    "Deleted file: 0x"@ + hex_chars(k as nat) + " ("@ + display_name(t, k)
        + ") with data_hash 0x"@ + hex_chars(old_hash as nat)
}

/// Whether a difference entry is a pure removal carrying the given old
/// checksum: the partner an added entry is renamed from.
pub open spec fn removed_with(d: ManifestDiffEntry, h: u32) -> bool {
    d.old_data_hash == Some(h) && d.new_data_hash is None
}

/// The position, at or after `i`, of the first pure removal carrying `h`, or
/// -1 when there is none.
pub open spec fn first_removed_from(diff: Seq<ManifestDiffEntry>, h: u32, i: int) -> int
    decreases diff.len() - i,
{
    if i < 0 || i >= diff.len() {
        -1
    } else if removed_with(diff[i], h) {
        i
    } else {
        first_removed_from(diff, h, i + 1)
    }
}

/// The position of the first pure removal carrying `h`, or -1.
pub open spec fn first_removed_match(diff: Seq<ManifestDiffEntry>, h: u32) -> int {
    first_removed_from(diff, h, 0)
}

/// The renderer's first pass over the first `n` entries: one line per
/// surviving key (renamed, created, or changed), and the keys of the
/// removals that renames have claimed.
pub open spec fn render_pass1(diff: Seq<ManifestDiffEntry>, t: Map<u64, Seq<char>>, n: int) -> (
    Seq<Seq<char>>,
    Seq<u64>,
)
    decreases n,
{
    if n <= 0 {
        (Seq::empty(), Seq::empty())
    } else {
        let (lines, included) = render_pass1(diff, t, n - 1);
        let d = diff[n - 1];
        match d.new_data_hash {
            None => (lines, included),
            Some(nh) => match d.old_data_hash {
                Some(oh) => (lines.push(changed_line(t, d.name_hash, oh, nh)), included),
                None => {
                    let m = first_removed_match(diff, nh);
                    if m >= 0 {
                        (
                            lines.push(renamed_line(t, diff[m].name_hash, d.name_hash)),
                            included.push(diff[m].name_hash),
                        )
                    } else {
                        (lines.push(created_line(t, d.name_hash, nh)), included)
                    }
                },
            },
        }
    }
}

/// The renderer's second pass over the first `n` entries: one line per
/// removed key that no rename has claimed.
pub open spec fn render_pass2(
    diff: Seq<ManifestDiffEntry>,
    t: Map<u64, Seq<char>>,
    included: Seq<u64>,
    n: int,
) -> Seq<Seq<char>>
    decreases n,
{
    if n <= 0 {
        Seq::empty()
    } else {
        let lines = render_pass2(diff, t, included, n - 1);
        let d = diff[n - 1];
        if d.new_data_hash is Some || included.contains(d.name_hash) {
            lines
        } else {
            lines.push(deleted_line(t, d.name_hash, d.old_data_hash.unwrap()))
        }
    }
}

/// Lines joined by single line feeds, with no trailing line feed.
pub open spec fn join_lines(lines: Seq<Seq<char>>) -> Seq<char>
    decreases lines.len(),
{
    if lines.len() == 0 {
        Seq::empty()
    } else if lines.len() == 1 {
        lines[0]
    } else {
        join_lines(lines.drop_last()) + seq!['\n'] + lines.last()
    }
}

/// The human-readable rendering of a difference: the first pass's lines,
/// then the second pass's, joined by line feeds.
pub open spec fn render_spec(diff: Seq<ManifestDiffEntry>, t: Map<u64, Seq<char>>) -> Seq<char> {
    let (lines1, included) = render_pass1(diff, t, diff.len() as int);
    let lines2 = render_pass2(diff, t, included, diff.len() as int);
    join_lines(lines1 + lines2)
}

/// Appends the display name of a key.
fn push_name(out: &mut String, t: &HashMap<u64, String>, k: u64)
    ensures
        final(out)@ == old(out)@ + display_name(map_chars(t@), k),
{
    match t.get(&k) {
        Some(name) => {
            out.append(name.as_str());
        },
        None => {
            out.append("?");
            proof {
                reveal_strlit("?");
                assert("?"@ =~= seq!['?']);
            }
        },
    }
}

/// Renders an inferred rename.
fn renamed_line_exec(t: &HashMap<u64, String>, from_key: u64, to_key: u64) -> (r: String)
    ensures
        r@ == renamed_line(map_chars(t@), from_key, to_key),
{
    let mut s: String = String::new();
    s.append("Renamed file: 0x");
    push_hex_u64(&mut s, from_key);
    s.append(" (");
    push_name(&mut s, t, from_key);
    s.append(") -> 0x");
    push_hex_u64(&mut s, to_key);
    s.append(" (");
    push_name(&mut s, t, to_key);
    s.append(")");
    s
}

/// Renders an added key.
fn created_line_exec(t: &HashMap<u64, String>, k: u64, new_hash: u32) -> (r: String)
    ensures
        r@ == created_line(map_chars(t@), k, new_hash),
{
    let mut s: String = String::new();
    s.append("Created file: 0x");
    push_hex_u64(&mut s, k);
    s.append(" (");
    push_name(&mut s, t, k);
    s.append(") with data_hash 0x");
    push_hex_u64(&mut s, new_hash as u64);
    s
}

/// Renders a changed key.
fn changed_line_exec(t: &HashMap<u64, String>, k: u64, old_hash: u32, new_hash: u32) -> (r: String)
    ensures
        r@ == changed_line(map_chars(t@), k, old_hash, new_hash),
{
    let mut s: String = String::new();
    s.append("Changed file: 0x");
    push_hex_u64(&mut s, k);
    s.append(" (");
    push_name(&mut s, t, k);
    s.append("): 0x");
    push_hex_u64(&mut s, old_hash as u64);
    s.append(" -> 0x");
    push_hex_u64(&mut s, new_hash as u64);
    s
}

/// Renders a removed key.
fn deleted_line_exec(t: &HashMap<u64, String>, k: u64, old_hash: u32) -> (r: String)
    ensures
        r@ == deleted_line(map_chars(t@), k, old_hash),
{
    let mut s: String = String::new();
    s.append("Deleted file: 0x");
    push_hex_u64(&mut s, k);
    s.append(" (");
    push_name(&mut s, t, k);
    s.append(") with data_hash 0x");
    push_hex_u64(&mut s, old_hash as u64);
    s
}

/// Steps the rename search past entries that are known not to match.
proof fn lemma_first_removed_skip(diff: Seq<ManifestDiffEntry>, h: u32, i: int)
    requires
        0 <= i <= diff.len(),
        forall|j: int| 0 <= j < i ==> !removed_with(#[trigger] diff[j], h),
    ensures
        first_removed_match(diff, h) == first_removed_from(diff, h, i),
    decreases i,
{
    if i > 0 {
        lemma_first_removed_skip(diff, h, i - 1);
    }
}

/// Finds the first pure removal carrying `h`.
fn find_removed_match(diff: &ManifestDiff, h: u32) -> (r: Option<usize>)
    ensures
        match r {
            Some(i) => {
                &&& first_removed_match(diff@, h) == i as int
                &&& i < diff@.len()
                &&& removed_with(diff@[i as int], h)
            },
            None => first_removed_match(diff@, h) == -1,
        },
{
    let n: usize = diff.len();
    let mut i: usize = 0;
    while i < n
        invariant
            i <= n,
            n == diff@.len(),
            forall|j: int| 0 <= j < i ==> !removed_with(#[trigger] diff@[j], h),
        decreases n - i,
    {
        let is_removed: bool = match (diff[i].old_data_hash, diff[i].new_data_hash) {
            (Some(oh), None) => oh == h,
            _ => false,
        };
        if is_removed {
            proof {
                lemma_first_removed_skip(diff@, h, i as int);
            }
            return Some(i);
        }
        i = i + 1;
    }
    proof {
        lemma_first_removed_skip(diff@, h, n as int);
    }
    None
}

/// Whether a key is among those already claimed by a rename.
fn contains_key(v: &Vec<u64>, x: u64) -> (r: bool)
    ensures
        r == v@.contains(x),
{
    let n: usize = v.len();
    let mut i: usize = 0;
    while i < n
        invariant
            i <= n,
            n == v@.len(),
            forall|j: int| 0 <= j < i ==> v@[j] != x,
        decreases n - i,
    {
        if v[i] == x {
            return true;
        }
        i = i + 1;
    }
    false
}

/// Renders a manifest difference for humans. Every surviving key gets one
/// line: an addition whose checksum equals some pure removal's checksum is
/// presented as a rename of the first such removal (which is then suppressed
/// from the removal lines), any other addition as a creation, and a changed
/// key as a change. Removed keys that no rename claimed follow, one line
/// each. Keys the lookup table does not know are shown as `?`.
pub fn render_for_humans(
    manifest_diff: &ManifestDiff,
    name_hash_lookup_table: &HashMap<u64, String>,
) -> (r: String)
    requires
        forall|j: int|
            0 <= j < manifest_diff@.len() ==> (#[trigger] manifest_diff@[j]).old_data_hash is Some
                || manifest_diff@[j].new_data_hash is Some,
    ensures
        r@ == render_spec(manifest_diff@, map_chars(name_hash_lookup_table@)),
{
    let ghost t = map_chars(name_hash_lookup_table@);
    let n: usize = manifest_diff.len();
    let mut lines: Vec<String> = Vec::new();
    let mut already_included: Vec<u64> = Vec::new();
    let mut i: usize = 0;
    while i < n
        invariant
            i <= n,
            n == manifest_diff@.len(),
            t == map_chars(name_hash_lookup_table@),
            lines@.map_values(|l: String| l@) == render_pass1(manifest_diff@, t, i as int).0,
            already_included@ == render_pass1(manifest_diff@, t, i as int).1,
        decreases n - i,
    {
        let d: ManifestDiffEntry = manifest_diff[i];
        match d.new_data_hash {
            None => {},
            Some(nh) => {
                match d.old_data_hash {
                    Some(oh) => {
                        lines.push(changed_line_exec(name_hash_lookup_table, d.name_hash, oh, nh));
                    },
                    None => {
                        match find_removed_match(manifest_diff, nh) {
                            Some(m) => {
                                let from_key: u64 = manifest_diff[m].name_hash;
                                lines.push(
                                    renamed_line_exec(name_hash_lookup_table, from_key, d.name_hash),
                                );
                                already_included.push(from_key);
                            },
                            None => {
                                lines.push(
                                    created_line_exec(name_hash_lookup_table, d.name_hash, nh),
                                );
                            },
                        }
                    },
                }
            },
        }
        i = i + 1;
        proof {
            assert(lines@.map_values(|l: String| l@) =~= render_pass1(
                manifest_diff@,
                t,
                i as int,
            ).0);
        }
    }
    let ghost lines1 = render_pass1(manifest_diff@, t, n as int).0;
    let ghost included = render_pass1(manifest_diff@, t, n as int).1;
    let mut j: usize = 0;
    while j < n
        invariant
            j <= n,
            n == manifest_diff@.len(),
            t == map_chars(name_hash_lookup_table@),
            forall|q: int|
                0 <= q < manifest_diff@.len() ==> (#[trigger] manifest_diff@[q]).old_data_hash
                    is Some || manifest_diff@[q].new_data_hash is Some,
            lines1 == render_pass1(manifest_diff@, t, n as int).0,
            included == render_pass1(manifest_diff@, t, n as int).1,
            already_included@ == included,
            lines@.map_values(|l: String| l@) == lines1 + render_pass2(
                manifest_diff@,
                t,
                included,
                j as int,
            ),
        decreases n - j,
    {
        let ghost l0 = lines@;
        let d: ManifestDiffEntry = manifest_diff[j];
        let is_kept: bool = match d.new_data_hash {
            Some(_) => true,
            None => contains_key(&already_included, d.name_hash),
        };
        proof {
            assert(d == manifest_diff@[j as int]);
            assert(is_kept == (d.new_data_hash is Some || included.contains(d.name_hash)));
        }
        if !is_kept {
            let oh: u32 = match d.old_data_hash {
                Some(v) => v,
                None => {
                    proof {
                        assert(false);
                    }
                    0
                },
            };
            let line: String = deleted_line_exec(name_hash_lookup_table, d.name_hash, oh);
            proof {
                assert(line@ == deleted_line(t, d.name_hash, d.old_data_hash.unwrap()));
            }
            lines.push(line);
        }
        j = j + 1;
        proof {
            let d_spec = manifest_diff@[j - 1];
            let prev = render_pass2(manifest_diff@, t, included, j - 1);
            if d_spec.new_data_hash is Some || included.contains(d_spec.name_hash) {
                assert(render_pass2(manifest_diff@, t, included, j as int) == prev);
            } else {
                assert(render_pass2(manifest_diff@, t, included, j as int) == prev.push(
                    deleted_line(t, d_spec.name_hash, d_spec.old_data_hash.unwrap()),
                ));
            }
            let cur = render_pass2(manifest_diff@, t, included, j as int);
            assert(l0.map_values(|l: String| l@) == lines1 + prev);
            if d_spec.new_data_hash is Some || included.contains(d_spec.name_hash) {
                assert(lines@ == l0);
                assert(lines@.map_values(|l: String| l@) == lines1 + cur);
            } else {
                let dl = deleted_line(t, d_spec.name_hash, d_spec.old_data_hash.unwrap());
                assert(lines@ == l0.push(lines@.last()));
                assert(lines@.last()@ == dl);
                assert(lines@.map_values(|l: String| l@) =~= l0.map_values(|l: String| l@).push(
                    dl,
                ));
                assert(lines1 + cur =~= (lines1 + prev).push(dl));
                assert((lines1 + prev).push(dl) == l0.map_values(|l: String| l@).push(dl));
                assert(lines@.map_values(|l: String| l@) == lines1 + cur);
            }
        }
    }
    let ghost all_lines = lines1 + render_pass2(manifest_diff@, t, included, n as int);
    let mut out: String = String::new();
    let total: usize = lines.len();
    let mut k: usize = 0;
    while k < total
        invariant
            k <= total,
            total == lines@.len(),
            lines@.map_values(|l: String| l@) == all_lines,
            out@ == join_lines(all_lines.take(k as int)),
        decreases total - k,
    {
        if k > 0 {
            out.append("\n");
            proof {
                reveal_strlit("\n");
                assert("\n"@ =~= seq!['\n']);
            }
        }
        out.append(lines[k].as_str());
        k = k + 1;
        proof {
            let cur = all_lines.take(k as int);
            assert(cur.drop_last() =~= all_lines.take(k - 1));
            assert(cur.last() == all_lines[k - 1]);
        }
    }
    proof {
        assert(all_lines.take(total as int) =~= all_lines);
    }
    out
}

} // verus!

verus! {

/// Reassembling an 8-byte big-endian encoding gives back the encoded value.
proof fn lemma_u64_be_roundtrip(v: u64)
    ensures
        be64(crate::bin_utils::u64_be_bytes(v)) == v,
{
    assert(v == (v % 0x100) + ((v / 0x100) % 0x100) * 0x100 + ((v / 0x10000) % 0x100) * 0x10000 + (
    (v / 0x1000000) % 0x100) * 0x1000000 + ((v / 0x100000000) % 0x100) * 0x100000000 + ((v
        / 0x10000000000) % 0x100) * 0x10000000000 + ((v / 0x1000000000000) % 0x100)
        * 0x1000000000000 + ((v / 0x100000000000000) % 0x100) * 0x100000000000000) by {
        assert(v % 0x100 + (v / 0x100) * 0x100 == v);
        assert((v / 0x100) % 0x100 + (v / 0x10000) * 0x100 == v / 0x100) by {
            assert(v / 0x100 / 0x100 == v / 0x10000) by (nonlinear_arith);
        }
        assert((v / 0x10000) % 0x100 + (v / 0x1000000) * 0x100 == v / 0x10000) by {
            assert(v / 0x10000 / 0x100 == v / 0x1000000) by (nonlinear_arith);
        }
        assert((v / 0x1000000) % 0x100 + (v / 0x100000000) * 0x100 == v / 0x1000000) by {
            assert(v / 0x1000000 / 0x100 == v / 0x100000000) by (nonlinear_arith);
        }
        assert((v / 0x100000000) % 0x100 + (v / 0x10000000000) * 0x100 == v / 0x100000000) by {
            assert(v / 0x100000000 / 0x100 == v / 0x10000000000) by (nonlinear_arith);
        }
        assert((v / 0x10000000000) % 0x100 + (v / 0x1000000000000) * 0x100 == v
            / 0x10000000000) by {
            assert(v / 0x10000000000 / 0x100 == v / 0x1000000000000) by (nonlinear_arith);
        }
        assert((v / 0x1000000000000) % 0x100 + (v / 0x100000000000000) * 0x100 == v
            / 0x1000000000000) by {
            assert(v / 0x1000000000000 / 0x100 == v / 0x100000000000000) by (nonlinear_arith);
        }
        assert(v / 0x100000000000000 % 0x100 == v / 0x100000000000000);
    }
}

/// Reassembling a 4-byte big-endian encoding gives back the encoded value.
proof fn lemma_u32_be_roundtrip(v: u32)
    ensures
        be32(crate::bin_utils::u32_be_bytes(v)) == v,
{
    assert(v == (v % 0x100) + ((v / 0x100) % 0x100) * 0x100 + ((v / 0x10000) % 0x100) * 0x10000 + (
    (v / 0x1000000) % 0x100) * 0x1000000) by {
        assert(v % 0x100 + (v / 0x100) * 0x100 == v);
        assert((v / 0x100) % 0x100 + (v / 0x10000) * 0x100 == v / 0x100) by {
            assert(v / 0x100 / 0x100 == v / 0x10000) by (nonlinear_arith);
        }
        assert((v / 0x10000) % 0x100 + (v / 0x1000000) * 0x100 == v / 0x10000) by {
            assert(v / 0x10000 / 0x100 == v / 0x1000000) by (nonlinear_arith);
        }
        assert(v / 0x1000000 % 0x100 == v / 0x1000000);
    }
}

/// A serialized manifest is exactly 12 bytes per pair.
proof fn lemma_manifest_bytes_len(pairs: Seq<(u64, u32)>)
    ensures
        manifest_bytes(pairs).len() == 12 * pairs.len(),
    decreases pairs.len(),
{
    if pairs.len() > 0 {
        lemma_manifest_bytes_len(pairs.drop_last());
    }
}

/// Round trip: reading back a container's serialized manifest reproduces the
/// container's `(key, checksum)` pairs exactly, in the same order.
pub proof fn lemma_manifest_round_trip(pairs: Seq<(u64, u32)>)
    ensures
        parsed_manifest(manifest_bytes(pairs)) == pairs,
    decreases pairs.len(),
{
    lemma_manifest_bytes_len(pairs);
    if pairs.len() == 0 {
        assert(parsed_manifest(manifest_bytes(pairs)) =~= pairs);
    } else {
        let rest = pairs.drop_last();
        lemma_manifest_round_trip(rest);
        lemma_manifest_bytes_len(rest);
        let bytes = manifest_bytes(pairs);
        let prefix = manifest_bytes(rest);
        let n = rest.len() as int;
        assert forall|i: int| 0 <= i < n implies #[trigger] parsed_manifest(bytes)[i]
            == parsed_manifest(prefix)[i] by {
            assert(bytes.subrange(12 * i, 12 * i + 8) =~= prefix.subrange(12 * i, 12 * i + 8));
            assert(bytes.subrange(12 * i + 8, 12 * i + 12) =~= prefix.subrange(
                12 * i + 8,
                12 * i + 12,
            ));
        }
        assert(parsed_manifest(bytes)[n] == pairs[n]) by {
            assert(bytes.subrange(12 * n, 12 * n + 8) =~= crate::bin_utils::u64_be_bytes(
                pairs.last().0,
            ));
            assert(bytes.subrange(12 * n + 8, 12 * n + 12) =~= crate::bin_utils::u32_be_bytes(
                pairs.last().1,
            ));
            lemma_u64_be_roundtrip(pairs.last().0);
            lemma_u32_be_roundtrip(pairs.last().1);
        }
        assert(parsed_manifest(bytes) =~= pairs);
    }
}

} // verus!

verus! {

/// Whether no two records of a manifest share a key.
pub open spec fn unique_keys(m: Seq<(u64, u32)>) -> bool {
    forall|i: int, j: int| 0 <= i < j < m.len() ==> (#[trigger] m[i]).0 != (#[trigger] m[j]).0
}

/// How many difference entries carry the key `k`.
pub open spec fn count_key(d: Seq<ManifestDiffEntry>, k: u64) -> nat
    decreases d.len(),
{
    if d.len() == 0 {
        0
    } else {
        count_key(d.drop_last(), k) + if d.last().name_hash == k {
            1nat
        } else {
            0nat
        }
    }
}

/// Appending one entry raises the key's count by one exactly when the entry
/// carries the key.
proof fn lemma_count_push(d: Seq<ManifestDiffEntry>, e: ManifestDiffEntry, k: u64)
    ensures
        count_key(d.push(e), k) == count_key(d, k) + if e.name_hash == k {
            1nat
        } else {
            0nat
        },
{
    assert(d.push(e).drop_last() =~= d);
    assert(d.push(e).last() == e);
}

/// Counting distributes over concatenation.
proof fn lemma_count_concat(a: Seq<ManifestDiffEntry>, b: Seq<ManifestDiffEntry>, k: u64)
    ensures
        count_key(a + b, k) == count_key(a, k) + count_key(b, k),
    decreases b.len(),
{
    if b.len() == 0 {
        assert(a + b =~= a);
    } else {
        lemma_count_concat(a, b.drop_last(), k);
        assert((a + b).drop_last() =~= a + b.drop_last());
    }
}

/// A key is found in a manifest exactly when some record carries it.
proof fn lemma_lookup_exists_from(m: Seq<(u64, u32)>, k: u64, i: int)
    requires
        0 <= i <= m.len(),
    ensures
        manifest_lookup_from(m, k, i) is Some <==> exists|j: int|
            i <= j < m.len() && (#[trigger] m[j]).0 == k,
    decreases m.len() - i,
{
    if i < m.len() {
        lemma_lookup_exists_from(m, k, i + 1);
    }
}

/// A key is found in a manifest exactly when some record carries it.
proof fn lemma_lookup_exists(m: Seq<(u64, u32)>, k: u64)
    ensures
        manifest_lookup(m, k) is Some <==> exists|j: int|
            0 <= j < m.len() && (#[trigger] m[j]).0 == k,
{
    lemma_lookup_exists_from(m, k, 0);
}

/// In a manifest without duplicate keys, the record that carries a key
/// decides what the lookup returns.
proof fn lemma_lookup_unique(m: Seq<(u64, u32)>, k: u64, i: int)
    requires
        unique_keys(m),
        0 <= i < m.len(),
        m[i].0 == k,
    ensures
        manifest_lookup(m, k) == Some(m[i].1),
{
    lemma_lookup_skip(m, k, i);
}

/// The expected single difference entry for a key: its checksum on each
/// side, as the lookups see them.
pub open spec fn expected_entry(old: Seq<(u64, u32)>, new: Seq<(u64, u32)>, k: u64) -> ManifestDiffEntry {
    ManifestDiffEntry {
        name_hash: k,
        old_data_hash: manifest_lookup(old, k),
        new_data_hash: manifest_lookup(new, k),
    }
}

/// Count and shape of the old side's contributions for one key.
proof fn lemma_old_side_coverage(old: Seq<(u64, u32)>, new: Seq<(u64, u32)>, n: int, k: u64)
    requires
        unique_keys(old),
        0 <= n <= old.len(),
    ensures
        count_key(old_side_diff(old, new, n), k) == if (exists|i: int|
            0 <= i < n && (#[trigger] old[i]).0 == k) && manifest_lookup(new, k)
            != manifest_lookup(old, k) {
            1nat
        } else {
            0nat
        },
        forall|j: int|
            0 <= j < old_side_diff(old, new, n).len() && (#[trigger] old_side_diff(
                old,
                new,
                n,
            )[j]).name_hash == k ==> old_side_diff(old, new, n)[j] == expected_entry(old, new, k),
    decreases n,
{
    if n > 0 {
        lemma_old_side_coverage(old, new, n - 1, k);
        let rest = old_side_diff(old, new, n - 1);
        let e = old[n - 1];
        if e.0 == k {
            lemma_lookup_unique(old, k, n - 1);
            assert(forall|i: int| 0 <= i < n - 1 ==> (#[trigger] old[i]).0 != k);
        }
        match manifest_lookup(new, e.0) {
            Some(nh) => {
                if nh != e.1 {
                    lemma_count_push(
                        rest,
                        ManifestDiffEntry {
                            name_hash: e.0,
                            old_data_hash: Some(e.1),
                            new_data_hash: Some(nh),
                        },
                        k,
                    );
                }
            },
            None => {
                lemma_count_push(
                    rest,
                    ManifestDiffEntry {
                        name_hash: e.0,
                        old_data_hash: Some(e.1),
                        new_data_hash: None,
                    },
                    k,
                );
            },
        }
    }
}

/// Count and shape of the new side's contributions for one key.
proof fn lemma_new_side_coverage(old: Seq<(u64, u32)>, new: Seq<(u64, u32)>, n: int, k: u64)
    requires
        unique_keys(new),
        0 <= n <= new.len(),
    ensures
        count_key(new_side_diff(old, new, n), k) == if (exists|i: int|
            0 <= i < n && (#[trigger] new[i]).0 == k) && manifest_lookup(old, k) is None {
            1nat
        } else {
            0nat
        },
        forall|j: int|
            0 <= j < new_side_diff(old, new, n).len() && (#[trigger] new_side_diff(
                old,
                new,
                n,
            )[j]).name_hash == k ==> new_side_diff(old, new, n)[j] == expected_entry(old, new, k),
    decreases n,
{
    if n > 0 {
        lemma_new_side_coverage(old, new, n - 1, k);
        let rest = new_side_diff(old, new, n - 1);
        let e = new[n - 1];
        if e.0 == k {
            lemma_lookup_unique(new, k, n - 1);
            assert(forall|i: int| 0 <= i < n - 1 ==> (#[trigger] new[i]).0 != k);
        }
        if manifest_lookup(old, e.0) is None {
            lemma_count_push(
                rest,
                ManifestDiffEntry { name_hash: e.0, old_data_hash: None, new_data_hash: Some(e.1) },
                k,
            );
        }
    }
}

/// Coverage of the difference: when neither manifest repeats a key, every
/// key of either manifest falls in exactly one outcome category. A key whose
/// checksum is the same on both sides is omitted; a key that was added,
/// removed, or changed appears in exactly one difference entry, and that
/// entry carries the key's checksum from each side; no key is duplicated,
/// and no other key appears.
pub proof fn lemma_diff_coverage(old: Seq<(u64, u32)>, new: Seq<(u64, u32)>, k: u64)
    requires
        unique_keys(old),
        unique_keys(new),
    ensures
        count_key(diff_spec(old, new), k) == if manifest_lookup(old, k) == manifest_lookup(
            new,
            k,
        ) {
            0nat
        } else {
            1nat
        },
        forall|j: int|
            0 <= j < diff_spec(old, new).len() && (#[trigger] diff_spec(old, new)[j]).name_hash
                == k ==> diff_spec(old, new)[j] == expected_entry(old, new, k),
{
    let d_old = old_side_diff(old, new, old.len() as int);
    let d_new = new_side_diff(old, new, new.len() as int);
    lemma_old_side_coverage(old, new, old.len() as int, k);
    lemma_new_side_coverage(old, new, new.len() as int, k);
    lemma_count_concat(d_old, d_new, k);
    lemma_lookup_exists(old, k);
    lemma_lookup_exists(new, k);
    assert forall|j: int|
        0 <= j < diff_spec(old, new).len() && (#[trigger] diff_spec(old, new)[j]).name_hash
            == k implies diff_spec(old, new)[j] == expected_entry(old, new, k) by {
        if j < d_old.len() {
            assert(diff_spec(old, new)[j] == d_old[j]);
        } else {
            assert(diff_spec(old, new)[j] == d_new[j - d_old.len()]);
        }
    }
}

} // verus!
