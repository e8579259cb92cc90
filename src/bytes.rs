//! Fixed-width integers as bytes, and byte copying.
use vstd::prelude::*;

verus! {

/// The four little-endian bytes of `v`.
pub open spec fn le_bytes(v: u32) -> Seq<u8> {
    seq![(v & 0xff) as u8, ((v >> 8u32) & 0xff) as u8, ((v >> 16u32) & 0xff) as u8, ((v >> 24u32) & 0xff) as u8]
}

/// The four big-endian bytes of `v`.
pub open spec fn be_bytes(v: u32) -> Seq<u8> {
    seq![((v >> 24u32) & 0xff) as u8, ((v >> 16u32) & 0xff) as u8, ((v >> 8u32) & 0xff) as u8, (v & 0xff) as u8]
}

/// The value of four little-endian bytes.
pub open spec fn le_value(b0: u8, b1: u8, b2: u8, b3: u8) -> u32 {
    (b0 as u32) | ((b1 as u32) << 8u32) | ((b2 as u32) << 16u32) | ((b3 as u32) << 24u32)
}

/// The value of the four little-endian bytes that start at `pos`.
pub open spec fn le_at(b: Seq<u8>, pos: int) -> u32 {
    le_value(b[pos], b[pos + 1], b[pos + 2], b[pos + 3])
}

/// The value of the four big-endian bytes that start at `pos`.
pub open spec fn be_at(b: Seq<u8>, pos: int) -> u32 {
    le_value(b[pos + 3], b[pos + 2], b[pos + 1], b[pos])
}

/// Reading back the bytes of `v` gives `v`.
pub proof fn lemma_le_round_trip(v: u32)
    ensures
        le_at(le_bytes(v), 0) == v,
        be_at(be_bytes(v), 0) == v,
{
    let b0 = (v & 0xff) as u8;
    let b1 = ((v >> 8u32) & 0xff) as u8;
    let b2 = ((v >> 16u32) & 0xff) as u8;
    let b3 = ((v >> 24u32) & 0xff) as u8;
    assert(le_value(b0, b1, b2, b3) == v) by (bit_vector)
        requires
            b0 == (v & 0xff) as u8,
            b1 == ((v >> 8u32) & 0xff) as u8,
            b2 == ((v >> 16u32) & 0xff) as u8,
            b3 == ((v >> 24u32) & 0xff) as u8,
    ;
}

/// Appends the little-endian bytes of `v`.
pub fn put_u32_le(out: &mut Vec<u8>, v: u32)
    ensures
        final(out)@ == old(out)@ + le_bytes(v),
{
    out.push((v & 0xff) as u8);
    out.push(((v >> 8u32) & 0xff) as u8);
    out.push(((v >> 16u32) & 0xff) as u8);
    out.push(((v >> 24u32) & 0xff) as u8);
    assert(final(out)@ =~= old(out)@ + le_bytes(v));
}

/// Appends the big-endian bytes of `v`.
pub fn put_u32_be(out: &mut Vec<u8>, v: u32)
    ensures
        final(out)@ == old(out)@ + be_bytes(v),
{
    out.push(((v >> 24u32) & 0xff) as u8);
    out.push(((v >> 16u32) & 0xff) as u8);
    out.push(((v >> 8u32) & 0xff) as u8);
    out.push((v & 0xff) as u8);
    assert(final(out)@ =~= old(out)@ + be_bytes(v));
}

/// Reads four little-endian bytes at `pos`.
pub fn get_u32_le(data: &[u8], pos: usize) -> (r: u32)
    requires
        pos + 4 <= data@.len(),
    ensures
        r == le_at(data@, pos as int),
{
    let n = data.len();
    assert(pos + 3 < n);
    (data[pos] as u32) | ((data[pos + 1] as u32) << 8u32) | ((data[pos + 2] as u32) << 16u32)
        | ((data[pos + 3] as u32) << 24u32)
}

/// Reads four big-endian bytes at `pos`.
pub fn get_u32_be(data: &[u8], pos: usize) -> (r: u32)
    requires
        pos + 4 <= data@.len(),
    ensures
        r == be_at(data@, pos as int),
{
    let n = data.len();
    assert(pos + 3 < n);
    (data[pos + 3] as u32) | ((data[pos + 2] as u32) << 8u32) | ((data[pos + 1] as u32) << 16u32)
        | ((data[pos] as u32) << 24u32)
}

/// Appends `src[from..to]` to `out`.
pub fn append_range(out: &mut Vec<u8>, src: &[u8], from: usize, to: usize)
    requires
        from <= to <= src@.len(),
    ensures
        final(out)@ == old(out)@ + src@.subrange(from as int, to as int),
{
    let ghost start = out@;
    let mut i: usize = from;
    while i < to
        invariant
            from <= i <= to,
            to <= src@.len(),
            out@ == start + src@.subrange(from as int, i as int),
        decreases to - i,
    {
        out.push(src[i]);
        i = i + 1;
        assert(out@ =~= start + src@.subrange(from as int, i as int));
    }
}

/// A vector of `n` zero bytes.
pub fn zeros(n: usize) -> (r: Vec<u8>)
    ensures
        r@ == Seq::new(n as nat, |_i: int| 0u8),
{
    let mut r: Vec<u8> = Vec::new();
    let mut i: usize = 0;
    while i < n
        invariant
            i <= n,
            r@ == Seq::new(i as nat, |_i: int| 0u8),
        decreases n - i,
    {
        r.push(0u8);
        i = i + 1;
        assert(r@ =~= Seq::new(i as nat, |_i: int| 0u8));
    }
    r
}

/// Overwrites `dst[at..at + src.len()]` with `src`.
pub fn write_at(dst: &mut Vec<u8>, at: usize, src: &[u8])
    requires
        at + src@.len() <= old(dst)@.len(),
    ensures
        final(dst)@.len() == old(dst)@.len(),
        forall|k: int| at <= k < at + src@.len() ==> #[trigger] final(dst)@[k] == src@[k - at],
        forall|k: int|
            0 <= k < old(dst)@.len() && !(at <= k < at + src@.len()) ==> #[trigger] final(dst)@[k]
                == old(dst)@[k],
{
    let total = dst.len();
    let mut i: usize = 0;
    while i < src.len()
        invariant
            at + src@.len() <= total,
            total == dst@.len(),
            dst@.len() == old(dst)@.len(),
            i <= src@.len(),
            forall|k: int| at <= k < at + i ==> #[trigger] dst@[k] == src@[k - at],
            forall|k: int|
                0 <= k < old(dst)@.len() && !(at <= k < at + i) ==> #[trigger] dst@[k] == old(dst)@[k],
        decreases src@.len() - i,
    {
        dst.set(at + i, src[i]);
        i = i + 1;
    }
}

} // verus!
