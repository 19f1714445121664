//! Byte-level building blocks shared by the commands: big-endian integer
//! encoding, the derivation-path encoding, status-word splitting, and the
//! reassembly law for payloads that are chunked across several packets.

use vstd::prelude::*;

use crate::error::ApduError;

verus! {

/// The four big-endian bytes of a 32-bit integer.
pub open spec fn be32(n: u32) -> Seq<u8> {
    seq![
        (n / 0x1000000) as u8,
        ((n / 0x10000) % 0x100) as u8,
        ((n / 0x100) % 0x100) as u8,
        (n % 0x100) as u8,
    ]
}

/// The two big-endian bytes of a 16-bit integer.
pub open spec fn be16(n: u16) -> Seq<u8> {
    seq![(n / 0x100) as u8, (n % 0x100) as u8]
}

/// The 16-bit status word formed from its high and low bytes.
pub open spec fn sw_word(hi: u8, lo: u8) -> u16 {
    (hi as int * 0x100 + lo as int) as u16
}

/// Concatenated big-endian encodings of a sequence of 32-bit indices.
pub open spec fn be32_concat(path: Seq<u32>) -> Seq<u8>
    decreases path.len(),
{
    if path.len() == 0 {
        Seq::empty()
    } else {
        be32_concat(path.drop_last()) + be32(path.last())
    }
}

/// The on-wire encoding of a derivation path: its length in one byte,
/// then each child index as four big-endian bytes.
pub open spec fn path_encoding(path: Seq<u32>) -> Seq<u8> {
    seq![path.len() as u8] + be32_concat(path)
}

/// Append the four big-endian bytes of `n`.
pub fn push_u32_be(buf: &mut Vec<u8>, n: u32)
    ensures
        final(buf)@ == old(buf)@ + be32(n),
{
    buf.push((n / 0x1000000) as u8);
    buf.push(((n / 0x10000) % 0x100) as u8);
    buf.push(((n / 0x100) % 0x100) as u8);
    buf.push((n % 0x100) as u8);
    assert(buf@ =~= old(buf)@ + be32(n));
}

/// Append the two big-endian bytes of `n`.
pub fn push_u16_be(buf: &mut Vec<u8>, n: u16)
    ensures
        final(buf)@ == old(buf)@ + be16(n),
{
    buf.push((n / 0x100) as u8);
    buf.push((n % 0x100) as u8);
    assert(buf@ =~= old(buf)@ + be16(n));
}

/// A path's encoding takes one length byte plus four bytes per index.
pub proof fn lemma_path_encoding_len(path: Seq<u32>)
    ensures
        path_encoding(path).len() == 1 + 4 * path.len(),
    decreases path.len(),
{
    if path.len() > 0 {
        lemma_path_encoding_len(path.drop_last());
    }
}

/// Append a derivation path's wire encoding: its length byte, then each
/// child index in big-endian.
pub fn push_path(buf: &mut Vec<u8>, path: &Vec<u32>)
    requires
        path@.len() < 256,
    ensures
        final(buf)@ == old(buf)@ + path_encoding(path@),
{
    buf.push(path.len() as u8);
    let mut i: usize = 0;
    while i < path.len()
        invariant
            i <= path@.len() < 256,
            buf@ == old(buf)@ + seq![path@.len() as u8] + be32_concat(path@.subrange(0, i as int)),
        decreases path@.len() - i,
    {
        push_u32_be(buf, path[i]);
        proof {
            assert(path@.subrange(0, i as int + 1).drop_last() =~= path@.subrange(0, i as int));
            assert(path@.subrange(0, i as int + 1).last() == path@[i as int]);
        }
        i = i + 1;
    }
    proof {
        assert(path@.subrange(0, path@.len() as int) =~= path@);
        assert(buf@ =~= old(buf)@ + path_encoding(path@));
    }
}

/// Copy `src[from..to]` into a fresh vector.
pub fn copy_range(src: &[u8], from: usize, to: usize) -> (r: Vec<u8>)
    requires
        from <= to <= src@.len(),
    ensures
        r@ == src@.subrange(from as int, to as int),
{
    let mut r: Vec<u8> = Vec::new();
    let mut i: usize = from;
    while i < to
        invariant
            from <= i <= to <= src@.len(),
            r@ == src@.subrange(from as int, i as int),
        decreases to - i,
    {
        r.push(src[i]);
        proof {
            assert(src@.subrange(from as int, i as int).push(src@[i as int]) =~= src@.subrange(
                from as int,
                i as int + 1,
            ));
        }
        i = i + 1;
    }
    r
}

/// Append `src[from..to]` to `dst`.
pub fn extend_range(dst: &mut Vec<u8>, src: &[u8], from: usize, to: usize)
    requires
        from <= to <= src@.len(),
    ensures
        final(dst)@ == old(dst)@ + src@.subrange(from as int, to as int),
{
    let mut i: usize = from;
    while i < to
        invariant
            from <= i <= to <= src@.len(),
            dst@ == old(dst)@ + src@.subrange(from as int, i as int),
        decreases to - i,
    {
        dst.push(src[i]);
        proof {
            assert(src@.subrange(from as int, i as int).push(src@[i as int]) =~= src@.subrange(
                from as int,
                i as int + 1,
            ));
        }
        i = i + 1;
    }
}

/// Split a raw reply into its payload and its trailing status word; a reply
/// too short to carry a status word is refused.
pub fn split_status_word(data: Vec<u8>) -> (r: Result<(Vec<u8>, u16), ApduError>)
    ensures
        data@.len() < 2 ==> r == Err::<(Vec<u8>, u16), ApduError>(ApduError::UnexpectedEof),
        data@.len() >= 2 ==> (r matches Ok(p) && p.0@ == data@.subrange(0, data@.len() - 2)
            && p.1 == sw_word(data@[data@.len() - 2], data@[data@.len() - 1])),
{
    let mut d = data;
    if d.len() < 2 {
        return Err(ApduError::UnexpectedEof);
    }
    let sw2 = d.pop().unwrap();
    let sw1 = d.pop().unwrap();
    let sw: u16 = (sw1 as u16) * 0x100 + (sw2 as u16);
    proof {
        assert(d@ =~= data@.subrange(0, data@.len() - 2));
    }
    Ok((d, sw))
}

/// Adjacent subranges of the same buffer concatenate to the enclosing one.
pub proof fn lemma_subrange_join(data: Seq<u8>, a: int, b: int, c: int)
    requires
        0 <= a <= b <= c <= data.len(),
    ensures
        data.subrange(a, b) + data.subrange(b, c) == data.subrange(a, c),
{
    assert(data.subrange(a, b) + data.subrange(b, c) =~= data.subrange(a, c));
}

/// The bytes of `data` between consecutive marks, concatenated from mark
/// `i` onward.
pub open spec fn concat_chunks(data: Seq<u8>, marks: Seq<int>, i: int) -> Seq<u8>
    decreases marks.len() - i,
{
    if i < 0 || i >= marks.len() - 1 {
        Seq::empty()
    } else {
        data.subrange(marks[i], marks[i + 1]) + concat_chunks(data, marks, i + 1)
    }
}

/// Marks are admissible for chunking `data` when they start at zero, end at
/// the data's length, never decrease, and stay inside the data.
pub open spec fn chunk_marks_ok(data: Seq<u8>, marks: Seq<int>) -> bool {
    &&& marks.len() >= 1
    &&& marks[0] == 0
    &&& marks[marks.len() - 1] == data.len()
    &&& forall|i: int| 0 <= i < marks.len() - 1 ==> #[trigger] marks[i] <= marks[i + 1]
    &&& forall|i: int| 0 <= i < marks.len() ==> 0 <= #[trigger] marks[i] <= data.len()
}

proof fn lemma_chunks_cover(data: Seq<u8>, marks: Seq<int>, i: int)
    requires
        chunk_marks_ok(data, marks),
        0 <= i < marks.len(),
    ensures
        concat_chunks(data, marks, i) == data.subrange(marks[i], data.len() as int),
    decreases marks.len() - i,
{
    if i == marks.len() - 1 {
        assert(concat_chunks(data, marks, i) =~= data.subrange(marks[i], data.len() as int));
    } else {
        lemma_chunks_cover(data, marks, i + 1);
        assert(concat_chunks(data, marks, i) =~= data.subrange(marks[i], data.len() as int));
    }
}

/// Reassembly law for chunked transfers: cutting a buffer at admissible
/// marks and concatenating the pieces in order gives back exactly the
/// original buffer; no byte is duplicated, dropped, or reordered. The
/// multipart commands emit, per packet, precisely the bytes between two
/// consecutive values of their progress marker, so the packets a driver
/// collects reassemble to the buffer this law speaks of.
pub proof fn lemma_chunks_reassemble(data: Seq<u8>, marks: Seq<int>)
    requires
        chunk_marks_ok(data, marks),
    ensures
        concat_chunks(data, marks, 0) == data,
{
    lemma_chunks_cover(data, marks, 0);
    assert(data.subrange(0, data.len() as int) =~= data);
}

} // verus!
