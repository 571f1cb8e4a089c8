//! Hexadecimal digits, as used by PDF hex strings and escaped names.
use vstd::prelude::*;

verus! {

/// Upper-case hex digit of a value below sixteen.
pub open spec fn upper_hex_digit(n: u8) -> char {
    if n < 10 {
        (48 + n) as char
    } else {
        (55 + n) as char
    }
}

/// Lower-case hex digit of a value below sixteen.
pub open spec fn lower_hex_digit(n: u8) -> char {
    if n < 10 {
        (48 + n) as char
    } else {
        (87 + n) as char
    }
}

/// Two upper-case hex digits per byte, high nibble first.
pub open spec fn upper_hex(bytes: Seq<u8>) -> Seq<char>
    decreases bytes.len(),
{
    if bytes.len() == 0 {
        Seq::empty()
    } else {
        upper_hex(bytes.drop_last()) + seq![
            upper_hex_digit(bytes.last() / 16),
            upper_hex_digit(bytes.last() % 16),
        ]
    }
}

/// Two lower-case hex digits per byte, high nibble first.
pub open spec fn lower_hex(bytes: Seq<u8>) -> Seq<char>
    decreases bytes.len(),
{
    if bytes.len() == 0 {
        Seq::empty()
    } else {
        lower_hex(bytes.drop_last()) + seq![
            lower_hex_digit(bytes.last() / 16),
            lower_hex_digit(bytes.last() % 16),
        ]
    }
}

pub fn upper_hex_char(n: u8) -> (c: char)
    requires
        n < 16,
    ensures
        c == upper_hex_digit(n),
{
    if n < 10 {
        (48u8 + n) as char
    } else {
        (55u8 + n) as char
    }
}

pub fn lower_hex_char(n: u8) -> (c: char)
    requires
        n < 16,
    ensures
        c == lower_hex_digit(n),
{
    if n < 10 {
        (48u8 + n) as char
    } else {
        (87u8 + n) as char
    }
}

pub proof fn lemma_upper_hex_len(bytes: Seq<u8>)
    ensures
        upper_hex(bytes).len() == 2 * bytes.len(),
    decreases bytes.len(),
{
    if bytes.len() > 0 {
        lemma_upper_hex_len(bytes.drop_last());
    }
}

pub proof fn lemma_lower_hex_len(bytes: Seq<u8>)
    ensures
        lower_hex(bytes).len() == 2 * bytes.len(),
    decreases bytes.len(),
{
    if bytes.len() > 0 {
        lemma_lower_hex_len(bytes.drop_last());
    }
}

pub proof fn lemma_lower_hex_is_ascii(bytes: Seq<u8>)
    ensures
        vstd::utf8::is_ascii_chars(lower_hex(bytes)),
    decreases bytes.len(),
{
    if bytes.len() > 0 {
        lemma_lower_hex_is_ascii(bytes.drop_last());
        let rest = lower_hex(bytes.drop_last());
        let tail = seq![lower_hex_digit(bytes.last() / 16), lower_hex_digit(bytes.last() % 16)];
        assert forall|i: int| 0 <= i < lower_hex(bytes).len() implies '\0' <= #[trigger] lower_hex(bytes)[i] <= '\u{7f}' by {
            if i >= rest.len() {
                assert(lower_hex(bytes)[i] == tail[i - rest.len()]);
            } else {
                assert(lower_hex(bytes)[i] == rest[i]);
            }
        }
    }
}

pub proof fn lemma_upper_hex_is_ascii(bytes: Seq<u8>)
    ensures
        vstd::utf8::is_ascii_chars(upper_hex(bytes)),
    decreases bytes.len(),
{
    if bytes.len() > 0 {
        lemma_upper_hex_is_ascii(bytes.drop_last());
        let rest = upper_hex(bytes.drop_last());
        let tail = seq![upper_hex_digit(bytes.last() / 16), upper_hex_digit(bytes.last() % 16)];
        assert forall|i: int| 0 <= i < upper_hex(bytes).len() implies '\0' <= #[trigger] upper_hex(bytes)[i] <= '\u{7f}' by {
            if i >= rest.len() {
                assert(upper_hex(bytes)[i] == tail[i - rest.len()]);
            } else {
                assert(upper_hex(bytes)[i] == rest[i]);
            }
        }
    }
}

/// The value of a hex digit of either case: `0`-`9`, `A`-`F` and `a`-`f` stand for 0 to 15.
pub open spec fn hex_digit_value(c: char) -> int {
    if '0' <= c <= '9' {
        c as int - 48
    } else if 'A' <= c <= 'F' {
        c as int - 55
    } else if 'a' <= c <= 'f' {
        c as int - 87
    } else {
        -1
    }
}

/// Upper-case hex reads back: each byte becomes two digits among `0`-`9` and `A`-`F`,
/// the high nibble first, whose values give the byte again.
pub proof fn lemma_upper_hex_decodes(bytes: Seq<u8>)
    ensures
        upper_hex(bytes).len() == 2 * bytes.len(),
        forall|k: int| 0 <= k < bytes.len() ==> {
            let hi = #[trigger] upper_hex(bytes)[2 * k];
            let lo = upper_hex(bytes)[2 * k + 1];
            &&& ('0' <= hi <= '9' || 'A' <= hi <= 'F')
            &&& ('0' <= lo <= '9' || 'A' <= lo <= 'F')
            &&& 16 * hex_digit_value(hi) + hex_digit_value(lo) == bytes[k]
        },
    decreases bytes.len(),
{
    lemma_upper_hex_len(bytes);
    if bytes.len() > 0 {
        let init = bytes.drop_last();
        lemma_upper_hex_decodes(init);
        let rest = upper_hex(init);
        let b = bytes.last();
        assert forall|k: int| 0 <= k < bytes.len() implies {
            let hi = #[trigger] upper_hex(bytes)[2 * k];
            let lo = upper_hex(bytes)[2 * k + 1];
            &&& ('0' <= hi <= '9' || 'A' <= hi <= 'F')
            &&& ('0' <= lo <= '9' || 'A' <= lo <= 'F')
            &&& 16 * hex_digit_value(hi) + hex_digit_value(lo) == bytes[k]
        } by {
            if k < init.len() {
                assert(upper_hex(bytes)[2 * k] == rest[2 * k]);
                assert(upper_hex(bytes)[2 * k + 1] == rest[2 * k + 1]);
                assert(bytes[k] == init[k]);
            } else {
                assert(upper_hex(bytes)[2 * k] == upper_hex_digit(b / 16));
                assert(upper_hex(bytes)[2 * k + 1] == upper_hex_digit(b % 16));
                assert(16 * (b / 16) + b % 16 == b);
            }
        }
    }
}

/// Lower-case hex reads back: each byte becomes two digits among `0`-`9` and `a`-`f`,
/// the high nibble first, whose values give the byte again.
pub proof fn lemma_lower_hex_decodes(bytes: Seq<u8>)
    ensures
        lower_hex(bytes).len() == 2 * bytes.len(),
        forall|k: int| 0 <= k < bytes.len() ==> {
            let hi = #[trigger] lower_hex(bytes)[2 * k];
            let lo = lower_hex(bytes)[2 * k + 1];
            &&& ('0' <= hi <= '9' || 'a' <= hi <= 'f')
            &&& ('0' <= lo <= '9' || 'a' <= lo <= 'f')
            &&& 16 * hex_digit_value(hi) + hex_digit_value(lo) == bytes[k]
        },
    decreases bytes.len(),
{
    lemma_lower_hex_len(bytes);
    if bytes.len() > 0 {
        let init = bytes.drop_last();
        lemma_lower_hex_decodes(init);
        let rest = lower_hex(init);
        let b = bytes.last();
        assert forall|k: int| 0 <= k < bytes.len() implies {
            let hi = #[trigger] lower_hex(bytes)[2 * k];
            let lo = lower_hex(bytes)[2 * k + 1];
            &&& ('0' <= hi <= '9' || 'a' <= hi <= 'f')
            &&& ('0' <= lo <= '9' || 'a' <= lo <= 'f')
            &&& 16 * hex_digit_value(hi) + hex_digit_value(lo) == bytes[k]
        } by {
            if k < init.len() {
                assert(lower_hex(bytes)[2 * k] == rest[2 * k]);
                assert(lower_hex(bytes)[2 * k + 1] == rest[2 * k + 1]);
                assert(bytes[k] == init[k]);
            } else {
                assert(lower_hex(bytes)[2 * k] == lower_hex_digit(b / 16));
                assert(lower_hex(bytes)[2 * k + 1] == lower_hex_digit(b % 16));
                assert(16 * (b / 16) + b % 16 == b);
            }
        }
    }
}

/// Appends the upper-case hex digits of every byte of `bytes`.
pub fn push_upper_hex(s: &mut String, bytes: &[u8])
    ensures
        final(s)@ == old(s)@ + upper_hex(bytes@),
{
    let ghost start = s@;
    let mut i: usize = 0;
    while i < bytes.len()
        invariant
            i <= bytes@.len(),
            s@ == start + upper_hex(bytes@.take(i as int)),
        decreases bytes@.len() - i,
    {
        let b = bytes[i];
        crate::strbuf::push_char(s, upper_hex_char(b / 16));
        crate::strbuf::push_char(s, upper_hex_char(b % 16));
        i = i + 1;
        assert(bytes@.take(i as int).drop_last() =~= bytes@.take(i - 1));
        assert(s@ =~= start + upper_hex(bytes@.take(i as int)));
    }
    assert(bytes@.take(i as int) =~= bytes@);
}

/// Appends the lower-case hex digits of every byte of `bytes`.
pub fn push_lower_hex(s: &mut String, bytes: &[u8])
    ensures
        final(s)@ == old(s)@ + lower_hex(bytes@),
{
    let ghost start = s@;
    let mut i: usize = 0;
    while i < bytes.len()
        invariant
            i <= bytes@.len(),
            s@ == start + lower_hex(bytes@.take(i as int)),
        decreases bytes@.len() - i,
    {
        let b = bytes[i];
        crate::strbuf::push_char(s, lower_hex_char(b / 16));
        crate::strbuf::push_char(s, lower_hex_char(b % 16));
        i = i + 1;
        assert(bytes@.take(i as int).drop_last() =~= bytes@.take(i - 1));
        assert(s@ =~= start + lower_hex(bytes@.take(i as int)));
    }
    assert(bytes@.take(i as int) =~= bytes@);
}

} // verus!
