//! Quoting and escaping of text for JSON output.

use vstd::prelude::*;

use crate::strutil::push_char;
use vstd::string::StrSliceExecFns;

verus! {

/// The text with every backslash and double quote preceded by a backslash.
pub open spec fn escape_chars(s: Seq<char>) -> Seq<char>
    decreases s.len(),
{
    if s.len() == 0 {
        Seq::empty()
    } else if s.last() == '\\' || s.last() == '"' {
        escape_chars(s.drop_last()) + seq!['\\', s.last()]
    } else {
        escape_chars(s.drop_last()) + seq![s.last()]
    }
}

/// Renders the text as a JSON string literal: wrapped in double quotes, with
/// backslashes and double quotes escaped.
pub fn escape_string(text: &str) -> (r: String)
    ensures
        r@ == seq!['"'] + escape_chars(text@) + seq!['"'],
{
    let n: usize = text.unicode_len();
    let mut out: String = String::new();
    push_char(&mut out, '"');
    let mut i: usize = 0;
    while i < n
        invariant
            i <= n,
            n == text@.len(),
            out@ == seq!['"'] + escape_chars(text@.take(i as int)),
        decreases n - i,
    {
        let c: char = text.get_char(i);
        if c == '\\' || c == '"' {
            push_char(&mut out, '\\');
        }
        push_char(&mut out, c);
        i = i + 1;
        proof {
            assert(text@.take(i as int).drop_last() =~= text@.take(i - 1));
            assert(text@.take(i as int).last() == text@[i - 1]);
        }
    }
    push_char(&mut out, '"');
    proof {
        assert(text@.take(n as int) =~= text@);
    }
    out
}

} // verus!
