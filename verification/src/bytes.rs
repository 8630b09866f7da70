//! Big-endian integers and byte ranges, as the wire protocol lays them out.

use vstd::prelude::*;
use vstd::utf8::encode_utf8;

verus! {

/// The unsigned value of four bytes, most significant byte first.
pub open spec fn be_u32(b: Seq<u8>) -> int
    recommends
        b.len() == 4,
{
    b[0] as int * 0x100_0000 + b[1] as int * 0x1_0000 + b[2] as int * 0x100 + b[3] as int
}

/// The signed (two's complement) value of four bytes, most significant byte first.
pub open spec fn be_i32(b: Seq<u8>) -> int
    recommends
        b.len() == 4,
{
    if be_u32(b) >= 0x8000_0000 {
        be_u32(b) - 0x1_0000_0000
    } else {
        be_u32(b)
    }
}

/// The four bytes that hold `v`, most significant byte first.
pub open spec fn i32_be_bytes(v: int) -> Seq<u8>
    recommends
        i32::MIN <= v <= i32::MAX,
{
    let u = if v < 0 {
        v + 0x1_0000_0000
    } else {
        v
    };
    seq![
        (u / 0x100_0000) as u8,
        ((u / 0x1_0000) % 0x100) as u8,
        ((u / 0x100) % 0x100) as u8,
        (u % 0x100) as u8,
    ]
}

/// Reading back the bytes of a 32-bit integer gives the integer.
pub proof fn lemma_be_i32_of_bytes(v: int)
    requires
        i32::MIN <= v <= i32::MAX,
    ensures
        i32_be_bytes(v).len() == 4,
        be_i32(i32_be_bytes(v)) == v,
{
    let u: u32 = if v < 0 {
        (v + 0x1_0000_0000) as u32
    } else {
        v as u32
    };
    lemma_split_u32(u);
}

/// A 32-bit value is the sum of its four bytes, each at its place.
proof fn lemma_split_u32(u: u32)
    by (bit_vector)
    ensures
        u / 0x100_0000 < 0x100,
        (u / 0x100_0000) * 0x100_0000 + ((u / 0x1_0000) % 0x100) * 0x1_0000 + ((u / 0x100)
            % 0x100) * 0x100 + u % 0x100 == u,
{
}

/// The bytes of one text in UTF-8, followed by the zero byte that ends it.
pub open spec fn terminated(text: Seq<char>) -> Seq<u8> {
    encode_utf8(text).push(0u8)
}

/// Converts a slice of 4 bytes to an array of 4 bytes.
pub fn slice_to_array(slice: &[u8]) -> (array: [u8; 4])
    requires
        slice@.len() == 4,
    ensures
        array@ == slice@,
{
    let array = [slice[0], slice[1], slice[2], slice[3]];
    assert(array@ =~= slice@);
    array
}

/// The signed integer that four bytes hold, most significant byte first.
pub fn i32_from_be_bytes(bytes: [u8; 4]) -> (v: i32)
    ensures
        v == be_i32(bytes@),
{
    let u: u32 = (bytes[0] as u32) * 0x100_0000 + (bytes[1] as u32) * 0x1_0000 + (bytes[2] as u32)
        * 0x100 + (bytes[3] as u32);
    if u >= 0x8000_0000 {
        let low: u32 = u - 0x8000_0000;
        (low as i32) + i32::MIN
    } else {
        u as i32
    }
}

/// The four bytes of `v`, most significant byte first.
pub fn i32_to_be_bytes(v: i32) -> (bytes: [u8; 4])
    ensures
        bytes@ == i32_be_bytes(v as int),
{
    let u: u32 = if v < 0 {
        ((v - i32::MIN) as u32) + 0x8000_0000
    } else {
        v as u32
    };
    let bytes = [
        (u / 0x100_0000) as u8,
        ((u / 0x1_0000) % 0x100) as u8,
        ((u / 0x100) % 0x100) as u8,
        (u % 0x100) as u8,
    ];
    assert(bytes@ =~= i32_be_bytes(v as int));
    bytes
}

/// A copy of the bytes of `source` from `from` up to, not including, `to`.
pub fn copy_range(source: &Vec<u8>, from: usize, to: usize) -> (copy: Vec<u8>)
    requires
        from <= to <= source.len(),
    ensures
        copy@ == source@.subrange(from as int, to as int),
{
    let mut copy: Vec<u8> = Vec::new();
    let mut i: usize = from;
    while i < to
        invariant
            from <= i <= to <= source.len(),
            copy@ == source@.subrange(from as int, i as int),
        decreases to - i,
    {
        copy.push(source[i]);
        i += 1;
        assert(copy@ =~= source@.subrange(from as int, i as int));
    }
    copy
}

/// Appends every byte of `more` to `buffer`.
pub fn append_bytes(buffer: &mut Vec<u8>, more: &[u8])
    ensures
        final(buffer)@ == old(buffer)@ + more@,
{
    let mut i: usize = 0;
    while i < more.len()
        invariant
            i <= more@.len(),
            buffer@ == old(buffer)@ + more@.subrange(0, i as int),
        decreases more@.len() - i,
    {
        buffer.push(more[i]);
        i += 1;
        assert(buffer@ =~= old(buffer)@ + more@.subrange(0, i as int));
    }
    assert(more@.subrange(0, more@.len() as int) =~= more@);
}

/// Appends `text` in UTF-8 and the zero byte that ends it to `buffer`.
pub fn append_terminated(buffer: &mut Vec<u8>, text: &str)
    ensures
        final(buffer)@ == old(buffer)@ + terminated(text@),
{
    append_bytes(buffer, text.as_bytes());
    buffer.push(0u8);
    assert(buffer@ =~= old(buffer)@ + terminated(text@));
}

/// Whether two runs of bytes are the same, byte for byte.
pub fn same_bytes(left: &[u8], right: &[u8]) -> (same: bool)
    ensures
        same == (left@ == right@),
{
    if left.len() != right.len() {
        return false;
    }
    let mut i: usize = 0;
    while i < left.len()
        invariant
            i <= left@.len(),
            left@.len() == right@.len(),
            left@.take(i as int) == right@.take(i as int),
        decreases left@.len() - i,
    {
        if left[i] != right[i] {
            return false;
        }
        i += 1;
        assert(left@.take(i as int) =~= left@.take(i - 1).push(left@[i - 1]));
        assert(right@.take(i as int) =~= right@.take(i - 1).push(right@[i - 1]));
    }
    assert(left@.take(left@.len() as int) =~= left@);
    assert(right@.take(right@.len() as int) =~= right@);
    true
}

} // verus!
