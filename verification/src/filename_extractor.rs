//! The text-run scanner that the filename scraper is built on: it pulls the
//! maximal runs of name-like bytes out of binary data.

use vstd::prelude::*;

use crate::strutil::push_char;

verus! {

/// Whether a byte can be part of a filename: an ASCII letter, a digit, or
/// one of `- _ . < >`.
pub open spec fn interesting_byte(b: u8) -> bool {
    ||| 65 <= b <= 90
    ||| 97 <= b <= 122
    ||| 48 <= b <= 57
    ||| b == 0x2d
    ||| b == 0x5f
    ||| b == 0x2e
    ||| b == 0x3c
    ||| b == 0x3e
}

/// The state of the scan after the first `n` bytes: the finished runs, and
/// the unfinished run being collected.
pub open spec fn patches_scan(s: Seq<u8>, n: int) -> (Seq<Seq<char>>, Seq<char>)
    decreases n,
{
    if n <= 0 {
        (Seq::empty(), Seq::empty())
    } else {
        let (acc, cur) = patches_scan(s, n - 1);
        let b = s[n - 1];
        if interesting_byte(b) {
            (acc, cur.push(b as char))
        } else if cur.len() > 0 {
            (acc.push(cur), Seq::empty())
        } else {
            (acc, cur)
        }
    }
}

/// The maximal nonempty runs of name-like bytes in the input, each read as
/// text.
pub open spec fn patches_of(s: Seq<u8>) -> Seq<Seq<char>> {
    let (acc, cur) = patches_scan(s, s.len() as int);
    if cur.len() > 0 {
        acc.push(cur)
    } else {
        acc
    }
}

/// Whether a byte can be part of a filename.
fn is_interesting_byte(b: u8) -> (r: bool)
    ensures
        r == interesting_byte(b),
{
    (65 <= b && b <= 90) || (97 <= b && b <= 122) || (48 <= b && b <= 57) || b == 0x2d || b == 0x5f
        || b == 0x2e || b == 0x3c || b == 0x3e
}

/// Finds the text runs in binary data: code carries strings, models carry
/// metadata, and both may carry filenames.
pub fn find_text_patches(binary: &Vec<u8>) -> (r: Vec<String>)
    ensures
        r@.map_values(|s: String| s@) == patches_of(binary@),
{
    let mut output: Vec<String> = Vec::new();
    let mut buffer: String = String::new();
    let n: usize = binary.len();
    let mut i: usize = 0;
    while i < n
        invariant
            i <= n,
            n == binary@.len(),
            output@.map_values(|s: String| s@) == patches_scan(binary@, i as int).0,
            buffer@ == patches_scan(binary@, i as int).1,
        decreases n - i,
    {
        let b: u8 = binary[i];
        if is_interesting_byte(b) {
            push_char(&mut buffer, b as char);
        } else if buffer.unicode_len() > 0 {
            output.push(buffer);
            buffer = String::new();
        }
        i = i + 1;
        proof {
            assert(output@.map_values(|s: String| s@) =~= patches_scan(binary@, i as int).0);
        }
    }
    if buffer.unicode_len() > 0 {
        output.push(buffer);
    }
    proof {
        assert(output@.map_values(|s: String| s@) =~= patches_of(binary@));
    }
    output
}

} // verus!
