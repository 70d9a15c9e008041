//! Request framing: deciding whether a buffered byte sequence holds a
//! complete HTTP request header block, i.e. the terminator `\r\n\r\n`.

use vstd::prelude::*;

verus! {

/// The four terminator bytes `\r\n\r\n` that end a request header block.
pub open spec fn header_terminator() -> Seq<u8> {
    seq![13u8, 10u8, 13u8, 10u8]
}

/// The terminator starts at position `i` of `s`.
pub open spec fn terminator_at(s: Seq<u8>, i: int) -> bool {
    &&& 0 <= i
    &&& i + 4 <= s.len()
    &&& s[i] == 13u8
    &&& s[i + 1] == 10u8
    &&& s[i + 2] == 13u8
    &&& s[i + 3] == 10u8
}

/// A complete request header block has arrived: the terminator occurs
/// somewhere in the buffer.
pub open spec fn contains_terminator(s: Seq<u8>) -> bool {
    exists|i: int| terminator_at(s, i)
}

/// The first four bytes of `window` are the header terminator.
pub fn is_double_crnl(window: &[u8]) -> (r: bool)
    ensures
        r == (window@.len() >= 4 && terminator_at(window@, 0)),
{
    window.len() >= 4 && window[0] == 13u8 && window[1] == 10u8 && window[2] == 13u8
        && window[3] == 10u8
}

/// True iff the buffer holds a complete request header block.
pub fn is_request_complete(buf: &[u8]) -> (r: bool)
    ensures
        r == contains_terminator(buf@),
{
    let n = buf.len();
    if n < 4 {
        return false;
    }
    let mut i: usize = 0;
    while i < n - 3
        invariant
            n == buf@.len(),
            4 <= n,
            i <= n - 3,
            forall|j: int| 0 <= j < i ==> !terminator_at(buf@, j),
        decreases n - i,
    {
        if buf[i] == 13u8 && buf[i + 1] == 10u8 && buf[i + 2] == 13u8 && buf[i + 3] == 10u8 {
            assert(terminator_at(buf@, i as int));
            return true;
        }
        i = i + 1;
    }
    assert forall|j: int| !terminator_at(buf@, j) by {
        if terminator_at(buf@, j) {
            assert(0 <= j < i);
        }
    }
    false
}

/// A buffer without the terminator stays incomplete, and inserting the
/// terminator anywhere makes it complete: splitting the buffer as `a + b`,
/// the sequence `a + \r\n\r\n + b` always frames.
pub proof fn lemma_terminator_insertion(a: Seq<u8>, b: Seq<u8>)
    ensures
        contains_terminator(a + header_terminator() + b),
{
    let s = a + header_terminator() + b;
    assert(terminator_at(s, a.len() as int));
}

/// Framing is stable under further appends: once a buffer holds the
/// terminator, it still does after more bytes arrive.
pub proof fn lemma_framing_monotone(s: Seq<u8>, t: Seq<u8>)
    requires
        contains_terminator(s),
    ensures
        contains_terminator(s + t),
{
    let i = choose|i: int| terminator_at(s, i);
    assert(terminator_at(s + t, i));
}

} // verus!
