//! ASCII base-85 encoding of binary data.
use vstd::prelude::*;

verus! {

/// Big-endian value of up to four bytes, missing trailing bytes counted as zero.
pub open spec fn group_value(c: Seq<u8>) -> nat {
    let b0: nat = if c.len() > 0 { c[0] as nat } else { 0 };
    let b1: nat = if c.len() > 1 { c[1] as nat } else { 0 };
    let b2: nat = if c.len() > 2 { c[2] as nat } else { 0 };
    let b3: nat = if c.len() > 3 { c[3] as nat } else { 0 };
    b0 * 16777216 + b1 * 65536 + b2 * 256 + b3
}

/// Five base-85 digits of `v`, most significant first, each offset by 33 ('!').
pub open spec fn base85_digits(v: nat) -> Seq<u8> {
    seq![
        ((v / 85 / 85 / 85 / 85) % 85 + 33) as u8,
        ((v / 85 / 85 / 85) % 85 + 33) as u8,
        ((v / 85 / 85) % 85 + 33) as u8,
        ((v / 85) % 85 + 33) as u8,
        (v % 85 + 33) as u8,
    ]
}

/// Encoding of one group of one to four bytes: 'z' for four zero bytes, five digits for
/// another full group, and the first `len + 1` digits of the zero-padded group otherwise.
pub open spec fn a85_group(c: Seq<u8>) -> Seq<u8> {
    if c.len() == 4 {
        if group_value(c) == 0 {
            seq![122u8]
        } else {
            base85_digits(group_value(c))
        }
    } else {
        base85_digits(group_value(c)).take(c.len() as int + 1)
    }
}

/// ASCII85 encoding: the encodings of the successive four-byte groups of `data`.
pub open spec fn ascii85(data: Seq<u8>) -> Seq<u8>
    decreases data.len(),
{
    if data.len() == 0 {
        Seq::empty()
    } else if data.len() <= 4 {
        a85_group(data)
    } else {
        a85_group(data.take(4)) + ascii85(data.skip(4))
    }
}

/// The digits of a full group, read back in base 85, give the group's value.
pub proof fn lemma_base85_digits_decode(v: nat)
    requires
        v < 4294967296,
    ensures
        ({
            let d = base85_digits(v);
            (d[0] - 33) * 52200625 + (d[1] - 33) * 614125 + (d[2] - 33) * 7225 + (d[3] - 33) * 85 + (d[4] - 33) == v
        }),
{
    let q1 = v / 85;
    let q2 = q1 / 85;
    let q3 = q2 / 85;
    let q4 = q3 / 85;
    assert(v == q1 * 85 + v % 85);
    assert(q1 == q2 * 85 + q1 % 85);
    assert(q2 == q3 * 85 + q2 % 85);
    assert(q3 == q4 * 85 + q3 % 85);
    assert(q4 < 85) by {
        assert(v / 85 / 85 / 85 / 85 < 85) by (nonlinear_arith)
            requires v < 4294967296;
    }
    assert(q4 % 85 == q4);
    assert(v == q4 * 52200625 + (q3 % 85) * 614125 + (q2 % 85) * 7225 + (q1 % 85) * 85 + v % 85) by (nonlinear_arith)
        requires
            v == q1 * 85 + v % 85,
            q1 == q2 * 85 + q1 % 85,
            q2 == q3 * 85 + q2 % 85,
            q3 == q4 * 85 + q3 % 85,
    ;
}

/// A byte of ASCII85 text: `z`, or a digit from `!` to `u`.
pub open spec fn a85_byte(b: u8) -> bool {
    b == 122 || (33 <= b <= 117)
}

proof fn lemma_digit_byte(x: nat)
    ensures
        a85_byte((x % 85 + 33) as u8),
{
}

proof fn lemma_base85_alphabet(v: nat)
    ensures
        forall|j: int| 0 <= j < 5 ==> a85_byte(#[trigger] base85_digits(v)[j]),
{
    lemma_digit_byte(v / 85 / 85 / 85 / 85);
    lemma_digit_byte(v / 85 / 85 / 85);
    lemma_digit_byte(v / 85 / 85);
    lemma_digit_byte(v / 85);
    lemma_digit_byte(v);
}

proof fn lemma_a85_group_alphabet(c: Seq<u8>)
    requires
        c.len() <= 4,
    ensures
        forall|i: int| 0 <= i < a85_group(c).len() ==> a85_byte(#[trigger] a85_group(c)[i]),
{
    let v = group_value(c);
    lemma_base85_alphabet(v);
    let d = base85_digits(v);
    let g = a85_group(c);
    if c.len() == 4 {
        if v == 0 {
            assert(g == seq![122u8]);
        } else {
            assert(g == d);
        }
    } else {
        assert(g == d.take(c.len() as int + 1));
        assert forall|i: int| 0 <= i < g.len() implies a85_byte(#[trigger] g[i]) by {
            assert(g[i] == d[i]);
        }
    }
}

/// Every byte of an encoding is `z` or a digit from `!` to `u`.
pub proof fn lemma_ascii85_alphabet(data: Seq<u8>)
    ensures
        forall|i: int| 0 <= i < ascii85(data).len() ==> a85_byte(#[trigger] ascii85(data)[i]),
    decreases data.len(),
{
    if data.len() > 4 {
        lemma_ascii85_alphabet(data.skip(4));
        lemma_a85_group_alphabet(data.take(4));
        let a = a85_group(data.take(4));
        let b = ascii85(data.skip(4));
        assert forall|i: int| 0 <= i < ascii85(data).len() implies a85_byte(#[trigger] ascii85(data)[i]) by {
            if i < a.len() {
                assert(ascii85(data)[i] == a[i]);
            } else {
                assert(ascii85(data)[i] == b[i - a.len()]);
            }
        }
    } else {
        lemma_a85_group_alphabet(data);
    }
}

/// The five digits of a value below 2^32.
fn digits_of(v: u32) -> (d: [u8; 5])
    ensures
        d@ == base85_digits(v as nat),
{
    let q1 = v / 85;
    let q2 = q1 / 85;
    let q3 = q2 / 85;
    let q4 = q3 / 85;
    let d = [
        (q4 % 85) as u8 + 33,
        (q3 % 85) as u8 + 33,
        (q2 % 85) as u8 + 33,
        (q1 % 85) as u8 + 33,
        (v % 85) as u8 + 33,
    ];
    assert(d@ =~= base85_digits(v as nat));
    d
}

/// Big-endian value of four bytes.
fn be_value(b0: u8, b1: u8, b2: u8, b3: u8) -> (v: u32)
    ensures
        v == b0 as nat * 16777216 + b1 as nat * 65536 + b2 as nat * 256 + b3 as nat,
{
    let v = ((b0 as u32) << 24) | ((b1 as u32) << 16) | ((b2 as u32) << 8) | (b3 as u32);
    assert(((b0 as u32) << 24) | ((b1 as u32) << 16) | ((b2 as u32) << 8) | (b3 as u32)
        == b0 as u32 * 16777216 + b1 as u32 * 65536 + b2 as u32 * 256 + b3 as u32) by (bit_vector);
    v
}

/// Appends the encoding of the full group `b0 b1 b2 b3`.
fn push_full_group(result: &mut Vec<u8>, b0: u8, b1: u8, b2: u8, b3: u8)
    ensures
        final(result)@ == old(result)@ + a85_group(seq![b0, b1, b2, b3]),
{
    let v = be_value(b0, b1, b2, b3);
    let ghost chunk = seq![b0, b1, b2, b3];
    assert(group_value(chunk) == v as nat);
    if v == 0 {
        result.push(122u8);
    } else {
        let d = digits_of(v);
        result.push(d[0]);
        result.push(d[1]);
        result.push(d[2]);
        result.push(d[3]);
        result.push(d[4]);
    }
    assert(final(result)@ =~= old(result)@ + a85_group(chunk));
}

/// Appends the encoding of a final partial group of one to three bytes.
fn push_partial_group(result: &mut Vec<u8>, tail: &[u8])
    requires
        1 <= tail@.len() <= 3,
    ensures
        final(result)@ == old(result)@ + a85_group(tail@),
{
    let rest = tail.len();
    let b0 = tail[0];
    let b1 = if rest > 1 { tail[1] } else { 0 };
    let b2 = if rest > 2 { tail[2] } else { 0 };
    let v = be_value(b0, b1, b2, 0);
    assert(group_value(tail@) == v as nat);
    let d = digits_of(v);
    let ghost before = result@;
    let mut k: usize = 0;
    while k < rest + 1
        invariant
            rest == tail@.len(),
            rest < 4,
            k <= rest + 1,
            d@ == base85_digits(v as nat),
            result@ == before + d@.take(k as int),
        decreases rest + 1 - k,
    {
        result.push(d[k]);
        k = k + 1;
        assert(result@ =~= before + d@.take(k as int));
    }
    assert(final(result)@ =~= old(result)@ + a85_group(tail@));
}

/// ASCII85 encode data (the encoding of Python's `base64.a85encode`).
pub fn ascii85_encode(data: &[u8]) -> (result: Vec<u8>)
    ensures
        result@ == ascii85(data@),
{
    let mut result: Vec<u8> = Vec::new();
    let mut pos: usize = 0;
    assert(data@.skip(0) =~= data@);
    assert(result@ + ascii85(data@.skip(0)) =~= ascii85(data@));
    while pos < data.len()
        invariant
            pos <= data@.len(),
            result@ + ascii85(data@.skip(pos as int)) == ascii85(data@),
        decreases data@.len() - pos,
    {
        let rest = data.len() - pos;
        let ghost tail = data@.skip(pos as int);
        let ghost before = result@;
        if rest >= 4 {
            push_full_group(&mut result, data[pos], data[pos + 1], data[pos + 2], data[pos + 3]);
            assert(tail.take(4) =~= seq![data@[pos as int], data@[pos + 1], data@[pos + 2], data@[pos + 3]]);
            assert(tail.skip(4) =~= data@.skip(pos + 4));
            if rest == 4 {
                assert(tail.take(4) =~= tail);
                assert(data@.skip(pos + 4) =~= Seq::<u8>::empty());
            }
            assert(ascii85(tail) == a85_group(tail.take(4)) + ascii85(data@.skip(pos + 4)));
            assert(result@ + ascii85(data@.skip(pos + 4)) =~= before + ascii85(tail));
            pos = pos + 4;
        } else {
            let t = vstd::slice::slice_subrange(data, pos, data.len());
            assert(t@ =~= tail);
            push_partial_group(&mut result, t);
            assert(data@.skip(data@.len() as int) =~= Seq::<u8>::empty());
            assert(result@ + ascii85(data@.skip(data@.len() as int)) =~= before + ascii85(tail));
            pos = data.len();
        }
    }
    assert(data@.skip(pos as int) =~= Seq::<u8>::empty());
    assert(result@ =~= ascii85(data@));
    result
}

} // verus!
