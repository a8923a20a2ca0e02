//! Lengths of strings.

use vstd::prelude::*;

verus! {

/// How many bytes `s` takes in UTF-8.
pub open spec fn byte_len(s: Seq<char>) -> nat {
    vstd::utf8::encode_utf8(s).len()
}

/// A text takes no byte if it is empty, and with each character from one to four more.
pub proof fn law_bytes_add_up(c: char, s: Seq<char>)
    ensures
        byte_len(seq![]) == 0,
        byte_len(seq![c] + s) == byte_len(s) + if c <= '\u{7f}' {
            1int
        } else if c <= '\u{7ff}' {
            2
        } else if c <= '\u{ffff}' {
            3
        } else {
            4
        },
{
    assert((seq![c] + s).drop_first() =~= s);
    assert((seq![c] + s)[0] == c);
}

/// The number of bytes in `s`.
pub fn bytes_in(s: &str) -> (n: usize)
    ensures
        n == byte_len(s@),
{
    s.as_bytes().len()
}

} // verus!
