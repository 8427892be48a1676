//! Character-level string building: appending single characters, rendering
//! integers in decimal and upper-case hexadecimal, splitting text into lines,
//! and decoding UTF-8 bytes into text.

use vstd::prelude::*;

use vstd::string::{StrSliceExecFns, StringSliceAdditionalSpecFns};
use vstd::utf8::{decode_utf8, valid_utf8};

use crate::error::Nups2Error;

verus! {

/// Relies on String::push: appends the given character onto the end of the
/// string.
#[verifier::external_body]
pub fn push_char(s: &mut String, c: char)
    ensures
        final(s)@ == old(s)@ + seq![c],
{
    s.push(c);
}

/// Relies on String::pop: removes the last character from the string and
/// returns it, or returns None when the string is empty.
#[verifier::external_body]
pub fn pop_char(s: &mut String) -> (r: Option<char>)
    ensures
        old(s)@.len() > 0 ==> {
            &&& final(s)@ == old(s)@.drop_last()
            &&& r == Some(old(s)@.last())
        },
        old(s)@.len() == 0 ==> {
            &&& final(s)@ == old(s)@
            &&& r is None
        },
{
    s.pop()
}

/// Relies on String::from_utf8: returns the text carried by the bytes
/// exactly when they are valid UTF-8, and rejects them otherwise.
#[verifier::external_body]
pub fn string_from_utf8(v: Vec<u8>) -> (r: Result<String, Nups2Error>)
    ensures
        match r {
            Ok(s) => valid_utf8(v@) && s@ == decode_utf8(v@),
            Err(e) => e is InvalidUtf8 && !valid_utf8(v@),
        },
{
    match String::from_utf8(v) {
        Ok(s) => Ok(s),
        Err(_) => Err(Nups2Error::InvalidUtf8),
    }
}

/// The character for one digit value, upper case for the hexadecimal range.
pub open spec fn digit_char(d: int) -> char {
    if d == 0 {
        '0'
    } else if d == 1 {
        '1'
    } else if d == 2 {
        '2'
    } else if d == 3 {
        '3'
    } else if d == 4 {
        '4'
    } else if d == 5 {
        '5'
    } else if d == 6 {
        '6'
    } else if d == 7 {
        '7'
    } else if d == 8 {
        '8'
    } else if d == 9 {
        '9'
    } else if d == 10 {
        'A'
    } else if d == 11 {
        'B'
    } else if d == 12 {
        'C'
    } else if d == 13 {
        'D'
    } else if d == 14 {
        'E'
    } else {
        'F'
    }
}

/// The decimal rendering of a number, most significant digit first.
pub open spec fn dec_chars(n: nat) -> Seq<char>
    decreases n,
{
    if n < 10 {
        seq![digit_char(n as int)]
    } else {
        dec_chars(n / 10) + seq![digit_char((n % 10) as int)]
    }
}

/// The upper-case hexadecimal rendering of a number, most significant digit
/// first, without leading zeros.
pub open spec fn hex_chars(n: nat) -> Seq<char>
    decreases n,
{
    if n < 16 {
        seq![digit_char(n as int)]
    } else {
        hex_chars(n / 16) + seq![digit_char((n % 16) as int)]
    }
}

/// Appends the character for one digit value below 16.
fn push_digit(out: &mut String, d: u64)
    requires
        d < 16,
    ensures
        final(out)@ == old(out)@ + seq![digit_char(d as int)],
{
    let c: char = match d {
        0 => '0',
        1 => '1',
        2 => '2',
        3 => '3',
        4 => '4',
        5 => '5',
        6 => '6',
        7 => '7',
        8 => '8',
        9 => '9',
        10 => 'A',
        11 => 'B',
        12 => 'C',
        13 => 'D',
        14 => 'E',
        _ => 'F',
    };
    push_char(out, c);
}

/// Appends the decimal rendering of `n`.
pub fn push_dec_u64(out: &mut String, n: u64)
    ensures
        final(out)@ == old(out)@ + dec_chars(n as nat),
    decreases n,
{
    if n >= 10 {
        push_dec_u64(out, n / 10);
    }
    push_digit(out, n % 10);
}

/// Appends the upper-case hexadecimal rendering of `n`.
pub fn push_hex_u64(out: &mut String, n: u64)
    ensures
        final(out)@ == old(out)@ + hex_chars(n as nat),
    decreases n,
{
    if n >= 16 {
        push_hex_u64(out, n / 16);
    }
    push_digit(out, n % 16);
}

/// The decimal rendering of `n` as a fresh string.
pub fn u64_to_dec(n: u64) -> (r: String)
    ensures
        r@ == dec_chars(n as nat),
{
    let mut out: String = String::new();
    push_dec_u64(&mut out, n);
    out
}

/// Whether two strings hold the same characters.
pub fn str_eq(a: &str, b: &str) -> (r: bool)
    ensures
        r == (a@ == b@),
{
    let ab: &[u8] = a.as_bytes();
    let bb: &[u8] = b.as_bytes();
    if ab.len() != bb.len() {
        proof {
            broadcast use vstd::utf8::encode_utf8_decode_utf8;

            assert(a@ != b@);
        }
        return false;
    }
    let mut i: usize = 0;
    while i < ab.len()
        invariant
            i <= ab@.len(),
            ab@.len() == bb@.len(),
            ab@ == a.spec_bytes(),
            bb@ == b.spec_bytes(),
            forall|j: int| 0 <= j < i ==> ab@[j] == bb@[j],
        decreases ab@.len() - i,
    {
        if ab[i] != bb[i] {
            proof {
                broadcast use vstd::utf8::encode_utf8_decode_utf8;

                assert(a.spec_bytes() != b.spec_bytes());
                assert(a@ != b@);
            }
            return false;
        }
        i = i + 1;
    }
    proof {
        broadcast use vstd::utf8::encode_utf8_decode_utf8;

        assert(a.spec_bytes() =~= b.spec_bytes());
        assert(decode_utf8(a.spec_bytes()) == decode_utf8(b.spec_bytes()));
        assert(a@ == b@);
    }
    true
}

/// A line with its terminating carriage return removed, if it has one.
pub open spec fn strip_cr(l: Seq<char>) -> Seq<char> {
    if l.len() > 0 && l.last() == '\r' {
        l.drop_last()
    } else {
        l
    }
}

/// The state of a line scan after the first `n` characters: the finished
/// lines, and the unterminated text after the last line feed.
pub open spec fn lines_scan(s: Seq<char>, n: int) -> (Seq<Seq<char>>, Seq<char>)
    decreases n,
{
    if n <= 0 {
        (Seq::empty(), Seq::empty())
    } else {
        let (acc, cur) = lines_scan(s, n - 1);
        let c = s[n - 1];
        if c == '\n' {
            (acc.push(strip_cr(cur)), Seq::empty())
        } else {
            (acc, cur.push(c))
        }
    }
}

/// The lines of a text: split at line feeds, each line's terminating carriage
/// return removed, with no empty line after a terminating line feed.
pub open spec fn lines_of(s: Seq<char>) -> Seq<Seq<char>> {
    let (acc, cur) = lines_scan(s, s.len() as int);
    if cur.len() > 0 {
        acc.push(cur)
    } else {
        acc
    }
}

/// Splits a text into its lines, as [`lines_of`] describes.
pub fn split_lines(text: &str) -> (r: Vec<String>)
    ensures
        r@.map_values(|l: String| l@) == lines_of(text@),
{
    let n: usize = text.unicode_len();
    let mut out: Vec<String> = Vec::new();
    let mut cur: String = String::new();
    let mut i: usize = 0;
    while i < n
        invariant
            i <= n,
            n == text@.len(),
            out@.map_values(|l: String| l@) == lines_scan(text@, i as int).0,
            cur@ == lines_scan(text@, i as int).1,
        decreases n - i,
    {
        let c: char = text.get_char(i);
        if c == '\n' {
            match pop_char(&mut cur) {
                Some(last) => {
                    if last != '\r' {
                        push_char(&mut cur, last);
                    }
                },
                None => {},
            }
            proof {
                assert(cur@ =~= strip_cr(lines_scan(text@, i as int).1));
            }
            out.push(cur);
            cur = String::new();
        } else {
            push_char(&mut cur, c);
        }
        i = i + 1;
        proof {
            assert(out@.map_values(|l: String| l@) =~= lines_scan(text@, i as int).0);
        }
    }
    if cur.unicode_len() > 0 {
        out.push(cur);
    }
    proof {
        assert(out@.map_values(|l: String| l@) =~= lines_of(text@));
    }
    out
}

} // verus!
