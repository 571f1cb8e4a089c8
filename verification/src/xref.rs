//! The cross-reference table: `xref`, the subsection line, the free head entry of object 0,
//! then one 20-byte line per indirect object.
use vstd::prelude::*;

use crate::decimal::{
    decimal_bytes, digits_value, lemma_zero_padded_value, lemma_decimal_len_bound, lemma_zero_padded_len, pow10, push_decimal, push_zero_padded,
    zero_padded_bytes,
};
use crate::object_ops::XRefEntry;
use crate::objects::metadata::{Generation, ObjectStatus};

verus! {

/// The status character of an entry: `n` in use, `f` free.
pub open spec fn status_byte(s: ObjectStatus) -> u8 {
    match s {
        ObjectStatus::InUse => 110u8,
        ObjectStatus::Free => 102u8,
    }
}

/// The generation number of an entry.
pub open spec fn generation_value(g: Generation) -> nat {
    match g {
        Generation::Root => 65535,
        Generation::Normal => 0,
    }
}

/// `oooooooooo ggggg s` and CR LF: the offset in ten digits, the generation in five, the
/// status character.
pub open spec fn entry_line(e: XRefEntry) -> Seq<u8> {
    zero_padded_bytes(e.offset as nat, 10) + seq![32u8] + zero_padded_bytes(generation_value(e.generation), 5)
        + seq![32u8, status_byte(e.status), 13u8, 10u8]
}

/// Each entry line is 20 bytes long, as cross-reference tables require, for any offset
/// below 10^10.
pub proof fn lemma_entry_line_len(e: XRefEntry)
    requires
        e.offset < 10000000000,
    ensures
        entry_line(e).len() == 20,
{
    reveal_with_fuel(pow10, 11);
    lemma_decimal_len_bound(e.offset as nat, 10);
    lemma_zero_padded_len(e.offset as nat, 10);
    lemma_decimal_len_bound(generation_value(e.generation), 5);
    lemma_zero_padded_len(generation_value(e.generation), 5);
}

/// The fields of an entry line: ten digits that spell the offset, a space, five digits that
/// spell the generation (65535 for the root of the free list, 0 otherwise), a space, `n` for
/// an object in use or `f` for a free one, then CR LF.
pub proof fn lemma_entry_line_fields(e: XRefEntry)
    requires
        e.offset < 10000000000,
    ensures
        ({
            let line = entry_line(e);
            &&& line.len() == 20
            &&& digits_value(line.take(10)) == e.offset
            &&& line[10] == 32u8
            &&& e.generation == Generation::Root ==> digits_value(line.subrange(11, 16)) == 65535
            &&& e.generation == Generation::Normal ==> digits_value(line.subrange(11, 16)) == 0
            &&& line[16] == 32u8
            &&& e.status == ObjectStatus::InUse ==> line[17] == 110u8
            &&& e.status == ObjectStatus::Free ==> line[17] == 102u8
            &&& line[18] == 13u8 && line[19] == 10u8
        }),
{
    lemma_entry_line_len(e);
    reveal_with_fuel(pow10, 11);
    lemma_decimal_len_bound(e.offset as nat, 10);
    lemma_zero_padded_len(e.offset as nat, 10);
    lemma_decimal_len_bound(generation_value(e.generation), 5);
    lemma_zero_padded_len(generation_value(e.generation), 5);
    lemma_zero_padded_value(e.offset as nat, 10);
    lemma_zero_padded_value(generation_value(e.generation), 5);
    let off = zero_padded_bytes(e.offset as nat, 10);
    let gen = zero_padded_bytes(generation_value(e.generation), 5);
    let line = entry_line(e);
    assert(line == off + seq![32u8] + gen + seq![32u8, status_byte(e.status), 13u8, 10u8]);
    assert(line.take(10) =~= off);
    assert(line.subrange(11, 16) =~= gen);
    assert(line[10] == 32u8);
    assert(line[16] == 32u8);
    assert(line[17] == status_byte(e.status));
}

/// The lines of the entries, in order.
pub open spec fn entry_lines(entries: Seq<XRefEntry>) -> Seq<u8>
    decreases entries.len(),
{
    if entries.len() == 0 {
        Seq::empty()
    } else {
        entry_lines(entries.drop_last()) + entry_line(entries.last())
    }
}

/// `xref`, `0 <count>` where the count includes object 0, the line of object 0 (offset 0,
/// generation 65535, free), then the entries' lines.
pub open spec fn xref_section_spec(entries: Seq<XRefEntry>) -> Seq<u8> {
    seq![120u8, 114u8, 101u8, 102u8, 10u8, 48u8, 32u8] + decimal_bytes(entries.len() + 1) + seq![10u8]
        + entry_line(XRefEntry {
            object_number: crate::object_number::ObjectNumber(0),
            offset: 0,
            status: ObjectStatus::Free,
            generation: Generation::Root,
        }) + entry_lines(entries)
}

/// Appends the line of one entry.
pub fn push_entry_line(out: &mut Vec<u8>, e: &XRefEntry)
    ensures
        final(out)@ == old(out)@ + entry_line(*e),
{
    push_zero_padded(out, e.offset as u64, 10);
    out.push(32u8);
    push_zero_padded(out, e.generation.as_u16() as u64, 5);
    out.push(32u8);
    out.push(match e.status {
        ObjectStatus::InUse => 110u8,
        ObjectStatus::Free => 102u8,
    });
    out.push(13u8);
    out.push(10u8);
    assert(out@ =~= old(out)@ + entry_line(*e));
}

/// The cross-reference section for the indirect objects numbered 1 to the number of entries.
pub fn xref_section(entries: &[XRefEntry]) -> (out: Vec<u8>)
    requires
        entries@.len() < u64::MAX,
    ensures
        out@ == xref_section_spec(entries@),
{
    let mut out: Vec<u8> = Vec::new();
    out.push(120u8);
    out.push(114u8);
    out.push(101u8);
    out.push(102u8);
    out.push(10u8);
    out.push(48u8);
    out.push(32u8);
    push_decimal(&mut out, entries.len() as u64 + 1);
    out.push(10u8);
    let head = XRefEntry {
        object_number: crate::object_number::ObjectNumber(0),
        offset: 0,
        status: ObjectStatus::Free,
        generation: Generation::Root,
    };
    push_entry_line(&mut out, &head);
    let ghost start = out@;
    let mut i: usize = 0;
    while i < entries.len()
        invariant
            i <= entries@.len(),
            out@ == start + entry_lines(entries@.take(i as int)),
        decreases entries@.len() - i,
    {
        push_entry_line(&mut out, &entries[i]);
        i = i + 1;
        assert(entries@.take(i as int).drop_last() =~= entries@.take(i - 1));
        assert(out@ =~= start + entry_lines(entries@.take(i as int)));
    }
    assert(entries@.take(i as int) =~= entries@);
    assert(out@ =~= xref_section_spec(entries@));
    out
}

} // verus!
