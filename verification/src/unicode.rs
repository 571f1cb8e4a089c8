//! Characters of strings and their UTF-16 code units.
use vstd::prelude::*;

verus! {

broadcast use vstd::string::group_string_axioms;

/// The characters of a string slice, in order.
pub fn chars_of(s: &str) -> (v: Vec<char>)
    ensures
        v@ == s@,
{
    let mut v: Vec<char> = Vec::new();
    for c in it: s.chars()
        invariant
            v@ == it.seq().take(it.index() as int),
    {
        v.push(c);
    }
    v
}

} // verus!

verus! {

/// The UTF-16 code units of one character: itself below 0x10000, else a surrogate pair.
pub open spec fn utf16_of_char(c: char) -> Seq<u16> {
    let v = c as int;
    if v < 0x10000 {
        seq![v as u16]
    } else {
        let w = v - 0x10000;
        seq![(0xD800 + w / 1024) as u16, (0xDC00 + w % 1024) as u16]
    }
}

/// The UTF-16 code units of a character sequence.
pub open spec fn utf16_units(s: Seq<char>) -> Seq<u16>
    decreases s.len(),
{
    if s.len() == 0 {
        Seq::empty()
    } else {
        utf16_units(s.drop_last()) + utf16_of_char(s.last())
    }
}

/// Big-endian bytes of code units, two per unit.
pub open spec fn units_be_bytes(units: Seq<u16>) -> Seq<u8>
    decreases units.len(),
{
    if units.len() == 0 {
        Seq::empty()
    } else {
        units_be_bytes(units.drop_last()) + seq![(units.last() / 256) as u8, (units.last() % 256) as u8]
    }
}

/// A character above the basic plane becomes a high surrogate and a low surrogate from
/// which it is read back; one in the basic plane is its own code unit.
pub proof fn lemma_utf16_of_char_decodes(c: char)
    ensures
        (c as int) < 0x10000 ==> utf16_of_char(c) == seq![c as u16] && utf16_of_char(c)[0] == c as int,
        (c as int) >= 0x10000 ==> {
            let u = utf16_of_char(c);
            &&& u.len() == 2
            &&& 0xD800 <= u[0] <= 0xDBFF
            &&& 0xDC00 <= u[1] <= 0xDFFF
            &&& (u[0] - 0xD800) * 1024 + (u[1] - 0xDC00) + 0x10000 == c as int
        },
{
    let v = c as int;
    if v >= 0x10000 {
        let w = v - 0x10000;
        assert(w < 0x100000);
        assert(w / 1024 < 1024);
        assert(w == (w / 1024) * 1024 + w % 1024);
    }
}

/// The bytes of units written one after the other are those of the concatenated units.
pub proof fn lemma_units_be_bytes_concat(a: Seq<u16>, b: Seq<u16>)
    ensures
        units_be_bytes(a + b) == units_be_bytes(a) + units_be_bytes(b),
    decreases b.len(),
{
    if b.len() == 0 {
        assert(a + b =~= a);
        assert(units_be_bytes(a) + units_be_bytes(b) =~= units_be_bytes(a));
    } else {
        assert((a + b).drop_last() =~= a + b.drop_last());
        lemma_units_be_bytes_concat(a, b.drop_last());
        assert(units_be_bytes(a + b) =~= units_be_bytes(a) + units_be_bytes(b));
    }
}

/// The UTF-16 code units of one character.
pub fn char_utf16(c: char) -> (units: Vec<u16>)
    ensures
        units@ == utf16_of_char(c),
{
    let v = c as u32;
    let mut units: Vec<u16> = Vec::new();
    if v < 0x10000 {
        units.push(v as u16);
    } else {
        let w = v - 0x10000;
        assert(w / 1024 < 1024);
        units.push((0xD800 + w / 1024) as u16);
        units.push((0xDC00 + w % 1024) as u16);
    }
    assert(units@ =~= utf16_of_char(c));
    units
}

/// The UTF-16 code units of a string (`str::encode_utf16`).
pub fn utf16_of(s: &str) -> (units: Vec<u16>)
    ensures
        units@ == utf16_units(s@),
{
    let chars = chars_of(s);
    let mut units: Vec<u16> = Vec::new();
    let mut i: usize = 0;
    while i < chars.len()
        invariant
            i <= chars@.len(),
            units@ == utf16_units(chars@.take(i as int)),
        decreases chars@.len() - i,
    {
        let cu = char_utf16(chars[i]);
        let mut k: usize = 0;
        let ghost before = units@;
        while k < cu.len()
            invariant
                k <= cu@.len(),
                units@ == before + cu@.take(k as int),
            decreases cu@.len() - k,
        {
            units.push(cu[k]);
            k = k + 1;
            assert(units@ =~= before + cu@.take(k as int));
        }
        assert(cu@.take(k as int) =~= cu@);
        i = i + 1;
        assert(chars@.take(i as int).drop_last() =~= chars@.take(i - 1));
    }
    assert(chars@.take(i as int) =~= chars@);
    units
}

/// Appends the big-endian bytes of each code unit.
pub fn push_units_be(out: &mut Vec<u8>, units: &[u16])
    ensures
        final(out)@ == old(out)@ + units_be_bytes(units@),
{
    let ghost start = out@;
    let mut i: usize = 0;
    while i < units.len()
        invariant
            i <= units@.len(),
            out@ == start + units_be_bytes(units@.take(i as int)),
        decreases units@.len() - i,
    {
        let u = units[i];
        out.push((u / 256) as u8);
        out.push((u % 256) as u8);
        i = i + 1;
        assert(units@.take(i as int).drop_last() =~= units@.take(i - 1));
        assert(out@ =~= start + units_be_bytes(units@.take(i as int)));
    }
    assert(units@.take(i as int) =~= units@);
}

} // verus!
