//! Jenkins's one-at-a-time 32-bit hash.

use vstd::prelude::*;

verus! {

/// Mixes one input byte into the running hash state.
pub open spec fn jenkins_mix(h: u32, b: u8) -> u32 {
    let h1 = h.wrapping_add(b as u32);
    let h2 = h1.wrapping_add(h1 << 10);
    h2 ^ (h2 >> 6)
}

/// The hash state after the first `n` bytes of `s`.
pub open spec fn jenkins_prefix(s: Seq<u8>, n: int) -> u32
    decreases n,
{
    if n <= 0 {
        0
    } else {
        jenkins_mix(jenkins_prefix(s, n - 1), s[n - 1])
    }
}

/// The final avalanche applied after all bytes are mixed in.
pub open spec fn jenkins_final(h: u32) -> u32 {
    let a = h.wrapping_add(h << 3);
    let b = a ^ (a >> 11);
    b.wrapping_add(b << 15)
}

/// The one-at-a-time digest of a byte sequence.
pub open spec fn one_at_a_time_spec(s: Seq<u8>) -> u32 {
    jenkins_final(jenkins_prefix(s, s.len() as int))
}

/// Jenkins's one-at-a-time hash of a byte sequence.
pub fn one_at_a_time(input_bytes: &[u8]) -> (r: u32)
    ensures
        r == one_at_a_time_spec(input_bytes@),
{
    let mut hash: u32 = 0;
    let mut i: usize = 0;
    while i < input_bytes.len()
        invariant
            i <= input_bytes@.len(),
            hash == jenkins_prefix(input_bytes@, i as int),
        decreases input_bytes@.len() - i,
    {
        hash = hash.wrapping_add(input_bytes[i] as u32);
        hash = hash.wrapping_add(hash << 10);
        hash = hash ^ (hash >> 6);
        i = i + 1;
    }
    hash = hash.wrapping_add(hash << 3);
    hash = hash ^ (hash >> 11);
    hash = hash.wrapping_add(hash << 15);
    hash
}

} // verus!
