//! Byte sequences: numbers with their low byte first, tables laid out row
//! by row, and the functions that write them.
use vstd::prelude::*;

verus! {

/// The two bytes of `x`, low byte first.
pub open spec fn le16(x: u16) -> Seq<u8> {
    seq![(x & 0xff) as u8, (x >> 8) as u8]
}

/// The four bytes of `x`, low byte first.
pub open spec fn le32(x: u32) -> Seq<u8> {
    seq![(x & 0xff) as u8, ((x >> 8) & 0xff) as u8, ((x >> 16) & 0xff) as u8, (x >> 24) as u8]
}

/// The rows of a table laid end to end.
pub open spec fn concat(rows: Seq<Seq<u8>>) -> Seq<u8>
    decreases rows.len(),
{
    if rows.len() == 0 {
        Seq::empty()
    } else {
        concat(rows.drop_last()) + rows.last()
    }
}

/// A run of `n` zero bytes.
pub open spec fn zeros(n: nat) -> Seq<u8> {
    Seq::new(n, |i: int| 0u8)
}

/// Laying out one more row appends that row to what was laid out before.
pub proof fn lemma_concat_step(rows: Seq<Seq<u8>>, n: int)
    requires
        0 <= n < rows.len(),
    ensures
        concat(rows.take(n + 1)) == concat(rows.take(n)) + rows[n],
        concat(rows.take(0)) == Seq::<u8>::empty(),
{
    assert(rows.take(n + 1).drop_last() =~= rows.take(n));
}

/// Rows of one width, laid end to end, take as many bytes as there are rows
/// times the width.
pub proof fn lemma_concat_len(rows: Seq<Seq<u8>>, width: nat)
    requires
        forall|i: int| 0 <= i < rows.len() ==> (#[trigger] rows[i]).len() == width,
    ensures
        concat(rows).len() == rows.len() * width,
    decreases rows.len(),
{
    if rows.len() > 0 {
        lemma_concat_len(rows.drop_last(), width);
        assert((rows.len() - 1) * width + width == rows.len() * width) by (nonlinear_arith);
    } else {
        assert(0 * width == 0) by (nonlinear_arith);
    }
}

/// In rows of one width laid end to end, row `i` takes the bytes from
/// `i * width` up to `(i + 1) * width`.
pub proof fn lemma_concat_row(rows: Seq<Seq<u8>>, width: nat, i: int)
    requires
        forall|j: int| 0 <= j < rows.len() ==> (#[trigger] rows[j]).len() == width,
        0 <= i < rows.len(),
    ensures
        (i + 1) * width <= concat(rows).len(),
        concat(rows).subrange(i * width, (i + 1) * width) == rows[i],
    decreases rows.len(),
{
    let n = rows.len() as int;
    let front = rows.drop_last();
    lemma_concat_len(front, width);
    lemma_concat_len(rows, width);
    assert((n - 1) * width + width == n * width) by (nonlinear_arith);
    if i < n - 1 {
        lemma_concat_row(front, width, i);
        assert((i + 1) * width <= (n - 1) * width) by (nonlinear_arith)
            requires
                i + 1 <= n - 1,
        ;
        assert(0 <= i * width) by (nonlinear_arith)
            requires
                0 <= i,
        ;
        assert(i * width <= (i + 1) * width) by (nonlinear_arith);
    }
}

/// Rows of zeros laid end to end are zeros.
pub proof fn lemma_concat_zeros(n: nat, width: nat)
    ensures
        concat(Seq::new(n, |i: int| zeros(width))) == zeros(n * width),
    decreases n,
{
    let rows = Seq::new(n, |i: int| zeros(width));
    if n == 0 {
        assert(0 * width == 0) by (nonlinear_arith);
    } else {
        lemma_concat_zeros((n - 1) as nat, width);
        assert(rows.drop_last() =~= Seq::new((n - 1) as nat, |i: int| zeros(width)));
        assert((n - 1) * width + width == n * width) by (nonlinear_arith);
    }
}

/// Appends `src` to `bytes`.
pub fn append(bytes: &mut Vec<u8>, src: &[u8])
    ensures
        final(bytes)@ == old(bytes)@ + src@,
{
    let mut i: usize = 0;
    while i < src.len()
        invariant
            0 <= i <= src@.len(),
            bytes@ == old(bytes)@ + src@.take(i as int),
        decreases src@.len() - i,
    {
        bytes.push(src[i]);
        i += 1;
    }
}

/// Appends the two bytes of `x`, low byte first.
pub fn append_le16(bytes: &mut Vec<u8>, x: u16)
    ensures
        final(bytes)@ == old(bytes)@ + le16(x),
{
    bytes.push((x & 0xff) as u8);
    bytes.push((x >> 8) as u8);
}

/// Appends the four bytes of `x`, low byte first.
pub fn append_le32(bytes: &mut Vec<u8>, x: u32)
    ensures
        final(bytes)@ == old(bytes)@ + le32(x),
{
    bytes.push((x & 0xff) as u8);
    bytes.push(((x >> 8) & 0xff) as u8);
    bytes.push(((x >> 16) & 0xff) as u8);
    bytes.push((x >> 24) as u8);
}

} // verus!
