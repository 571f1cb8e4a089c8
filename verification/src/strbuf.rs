//! Building `String`s one character at a time.
use vstd::prelude::*;

verus! {

/// Appends one character to a `String` (`String::push`).
#[verifier::external_body]
pub(crate) fn push_char(s: &mut String, c: char)
    ensures
        final(s)@ == old(s)@.push(c),
{
    s.push(c);
}

/// Appends a string slice to a `String`.
pub fn push_str(s: &mut String, t: &str)
    ensures
        final(s)@ == old(s)@ + t@,
{
    s.append(t);
}

/// An owned copy of a string slice.
pub fn owned(t: &str) -> (s: String)
    ensures
        s@ == t@,
{
    String::from_str(t)
}

/// The characters of an ASCII byte sequence.
pub open spec fn ascii_chars(b: Seq<u8>) -> Seq<char> {
    Seq::new(b.len(), |i: int| b[i] as char)
}

/// Appends each byte of `b`, read as an ASCII character.
pub fn push_ascii_bytes(s: &mut String, b: &[u8])
    requires
        forall|i: int| 0 <= i < b@.len() ==> b@[i] < 128,
    ensures
        final(s)@ == old(s)@ + ascii_chars(b@),
{
    let mut i: usize = 0;
    while i < b.len()
        invariant
            0 <= i <= b@.len(),
            forall|k: int| 0 <= k < b@.len() ==> b@[k] < 128,
            s@ == old(s)@ + ascii_chars(b@).take(i as int),
        decreases b@.len() - i,
    {
        let c = b[i] as char;
        push_char(s, c);
        i = i + 1;
        assert(ascii_chars(b@).take(i as int) =~= ascii_chars(b@).take(i - 1).push(c));
    }
    assert(ascii_chars(b@).take(i as int) =~= ascii_chars(b@));
}

} // verus!
