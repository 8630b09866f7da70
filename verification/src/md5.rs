//! The MD5 message digest, as RFC 1321 defines it, and the digest that a
//! client sends in place of its password.

use crate::bytes::append_bytes;
use vstd::prelude::*;

verus! {

/// The four 32-bit words that MD5 carries from block to block.
#[derive(Debug, Clone, Copy, PartialEq, Eq, Structural)]
pub struct Words {
    pub a: u32,
    pub b: u32,
    pub c: u32,
    pub d: u32,
}

/// The words that the digest of every message starts from.
pub open spec fn initial_words() -> Words {
    Words { a: 0x67452301, b: 0xefcdab89, c: 0x98badcfe, d: 0x10325476 }
}

/// The constant of step `i`: the first 32 bits of the fraction of `|sin(i + 1)|`.
pub open spec fn sine(i: int) -> u32 {
    if i == 0 {
        0xd76aa478
    } else if i == 1 {
        0xe8c7b756
    } else if i == 2 {
        0x242070db
    } else if i == 3 {
        0xc1bdceee
    } else if i == 4 {
        0xf57c0faf
    } else if i == 5 {
        0x4787c62a
    } else if i == 6 {
        0xa8304613
    } else if i == 7 {
        0xfd469501
    } else if i == 8 {
        0x698098d8
    } else if i == 9 {
        0x8b44f7af
    } else if i == 10 {
        0xffff5bb1
    } else if i == 11 {
        0x895cd7be
    } else if i == 12 {
        0x6b901122
    } else if i == 13 {
        0xfd987193
    } else if i == 14 {
        0xa679438e
    } else if i == 15 {
        0x49b40821
    } else if i == 16 {
        0xf61e2562
    } else if i == 17 {
        0xc040b340
    } else if i == 18 {
        0x265e5a51
    } else if i == 19 {
        0xe9b6c7aa
    } else if i == 20 {
        0xd62f105d
    } else if i == 21 {
        0x02441453
    } else if i == 22 {
        0xd8a1e681
    } else if i == 23 {
        0xe7d3fbc8
    } else if i == 24 {
        0x21e1cde6
    } else if i == 25 {
        0xc33707d6
    } else if i == 26 {
        0xf4d50d87
    } else if i == 27 {
        0x455a14ed
    } else if i == 28 {
        0xa9e3e905
    } else if i == 29 {
        0xfcefa3f8
    } else if i == 30 {
        0x676f02d9
    } else if i == 31 {
        0x8d2a4c8a
    } else if i == 32 {
        0xfffa3942
    } else if i == 33 {
        0x8771f681
    } else if i == 34 {
        0x6d9d6122
    } else if i == 35 {
        0xfde5380c
    } else if i == 36 {
        0xa4beea44
    } else if i == 37 {
        0x4bdecfa9
    } else if i == 38 {
        0xf6bb4b60
    } else if i == 39 {
        0xbebfbc70
    } else if i == 40 {
        0x289b7ec6
    } else if i == 41 {
        0xeaa127fa
    } else if i == 42 {
        0xd4ef3085
    } else if i == 43 {
        0x04881d05
    } else if i == 44 {
        0xd9d4d039
    } else if i == 45 {
        0xe6db99e5
    } else if i == 46 {
        0x1fa27cf8
    } else if i == 47 {
        0xc4ac5665
    } else if i == 48 {
        0xf4292244
    } else if i == 49 {
        0x432aff97
    } else if i == 50 {
        0xab9423a7
    } else if i == 51 {
        0xfc93a039
    } else if i == 52 {
        0x655b59c3
    } else if i == 53 {
        0x8f0ccc92
    } else if i == 54 {
        0xffeff47d
    } else if i == 55 {
        0x85845dd1
    } else if i == 56 {
        0x6fa87e4f
    } else if i == 57 {
        0xfe2ce6e0
    } else if i == 58 {
        0xa3014314
    } else if i == 59 {
        0x4e0811a1
    } else if i == 60 {
        0xf7537e82
    } else if i == 61 {
        0xbd3af235
    } else if i == 62 {
        0x2ad7d2bb
    } else {
        0xeb86d391
    }
}

/// By how many bits step `i` rotates.
pub open spec fn rotation(i: int) -> u32 {
    let r = i % 4;
    if i < 16 {
        if r == 0 {
            7
        } else if r == 1 {
            12
        } else if r == 2 {
            17
        } else {
            22
        }
    } else if i < 32 {
        if r == 0 {
            5
        } else if r == 1 {
            9
        } else if r == 2 {
            14
        } else {
            20
        }
    } else if i < 48 {
        if r == 0 {
            4
        } else if r == 1 {
            11
        } else if r == 2 {
            16
        } else {
            23
        }
    } else {
        if r == 0 {
            6
        } else if r == 1 {
            10
        } else if r == 2 {
            15
        } else {
            21
        }
    }
}

/// Which word of the block step `i` takes in.
pub open spec fn word_index(i: int) -> int {
    if i < 16 {
        i
    } else if i < 32 {
        (5 * i + 1) % 16
    } else if i < 48 {
        (3 * i + 5) % 16
    } else {
        (7 * i) % 16
    }
}

/// How step `i` mixes three of the four words.
pub open spec fn mix(i: int, b: u32, c: u32, d: u32) -> u32 {
    if i < 16 {
        (b & c) | (!b & d)
    } else if i < 32 {
        (d & b) | (!d & c)
    } else if i < 48 {
        b ^ c ^ d
    } else {
        c ^ (b | !d)
    }
}

/// `x` with its bits moved `s` places to the left, those that leave on the
/// left coming back on the right.
pub open spec fn rotate_left(x: u32, s: u32) -> u32 {
    (x << s) | (x >> ((32 - s) as u32))
}

/// The words after step `i` on the block whose sixteen words are `block`.
pub open spec fn step(w: Words, i: int, block: Seq<u32>) -> Words {
    let f = mix(i, w.b, w.c, w.d).wrapping_add(w.a).wrapping_add(sine(i)).wrapping_add(
        block[word_index(i)],
    );
    Words { a: w.d, b: w.b.wrapping_add(rotate_left(f, rotation(i))), c: w.b, d: w.c }
}

/// The words after the first `n` steps on one block.
pub open spec fn steps(w: Words, block: Seq<u32>, n: nat) -> Words
    decreases n,
{
    if n == 0 {
        w
    } else {
        step(steps(w, block, (n - 1) as nat), n - 1, block)
    }
}

/// The 32-bit word that four bytes hold, least significant byte first.
pub open spec fn le_word(bytes: Seq<u8>, at: int) -> u32 {
    (bytes[at] as int + bytes[at + 1] as int * 0x100 + bytes[at + 2] as int * 0x1_0000 + bytes[at
        + 3] as int * 0x100_0000) as u32
}

/// The sixteen words of the block of 64 bytes that starts at `at`.
pub open spec fn block_words(bytes: Seq<u8>, at: int) -> Seq<u32> {
    Seq::new(16, |j: int| le_word(bytes, at + 4 * j))
}

/// The words after one block of 64 bytes is taken in: all 64 steps, then
/// each word added to what it was before.
pub open spec fn compress(w: Words, bytes: Seq<u8>, at: int) -> Words {
    let r = steps(w, block_words(bytes, at), 64);
    Words {
        a: w.a.wrapping_add(r.a),
        b: w.b.wrapping_add(r.b),
        c: w.c.wrapping_add(r.c),
        d: w.d.wrapping_add(r.d),
    }
}

/// The words after the first `n` blocks of `bytes` are taken in.
pub open spec fn absorb(bytes: Seq<u8>, n: nat) -> Words
    decreases n,
{
    if n == 0 {
        initial_words()
    } else {
        compress(absorb(bytes, (n - 1) as nat), bytes, 64 * (n - 1))
    }
}

/// How many zero bytes the padding of a message of `len` bytes holds: as
/// few as bring the length, with the byte before and the eight bytes after
/// them, to a multiple of 64.
pub open spec fn zero_padding(len: nat) -> nat {
    if len % 64 < 56 {
        (55 - len % 64) as nat
    } else {
        (119 - len % 64) as nat
    }
}

/// The eight bytes of `v`, least significant byte first.
pub open spec fn le_bytes_u64(v: u64) -> Seq<u8> {
    Seq::new(8, |j: int| ((v as int / pow256(j)) % 0x100) as u8)
}

/// 256 to the power `j`, for the eight places of a 64-bit value.
pub open spec fn pow256(j: int) -> int {
    if j <= 0 {
        1
    } else if j == 1 {
        0x100
    } else if j == 2 {
        0x1_0000
    } else if j == 3 {
        0x100_0000
    } else if j == 4 {
        0x1_0000_0000
    } else if j == 5 {
        0x100_0000_0000
    } else if j == 6 {
        0x1_0000_0000_0000
    } else {
        0x100_0000_0000_0000
    }
}

/// The message as MD5 takes it in: followed by the byte 0x80, zero bytes,
/// and its length in bits as a 64-bit value.
pub open spec fn padded(message: Seq<u8>) -> Seq<u8> {
    message + seq![0x80u8] + Seq::new(zero_padding(message.len()), |j: int| 0u8) + le_bytes_u64(
        ((message.len() * 8) % 0x1_0000_0000_0000_0000) as u64,
    )
}

/// The four bytes of `v`, least significant byte first.
pub open spec fn le_bytes_u32(v: u32) -> Seq<u8> {
    seq![
        (v as int % 0x100) as u8,
        ((v as int / 0x100) % 0x100) as u8,
        ((v as int / 0x1_0000) % 0x100) as u8,
        ((v as int / 0x100_0000) % 0x100) as u8,
    ]
}

/// The MD5 digest of `message`: sixteen bytes.
pub open spec fn md5(message: Seq<u8>) -> Seq<u8> {
    let w = absorb(padded(message), padded(message).len() / 64);
    le_bytes_u32(w.a) + le_bytes_u32(w.b) + le_bytes_u32(w.c) + le_bytes_u32(w.d)
}

/// The character that stands for `n` in lower-case hexadecimal.
pub open spec fn hex_digit(n: int) -> u8 {
    if n < 10 {
        (0x30 + n) as u8
    } else {
        (0x57 + n) as u8
    }
}

/// `bytes` in lower-case hexadecimal, two characters for each byte.
pub open spec fn hex(bytes: Seq<u8>) -> Seq<u8> {
    Seq::new(2 * bytes.len(), |j: int| if j % 2 == 0 {
        hex_digit(bytes[j / 2] as int / 16)
    } else {
        hex_digit(bytes[j / 2] as int % 16)
    })
}

/// What a client sends in place of its password when it is asked for an MD5
/// digest: `md5`, then the digest in hexadecimal of the salt behind the
/// digest in hexadecimal of the user's name behind the password.
pub open spec fn md5_credential(password: Seq<u8>, user: Seq<u8>, salt: Seq<u8>) -> Seq<u8> {
    seq![0x6du8, 0x64u8, 0x35u8] + hex(md5(hex(md5(password + user)) + salt))
}

/// The constant of step `i`.
fn sine_of(i: usize) -> (k: u32)
    requires
        i < 64,
    ensures
        k == sine(i as int),
{
    if i == 0 {
        0xd76aa478
    } else if i == 1 {
        0xe8c7b756
    } else if i == 2 {
        0x242070db
    } else if i == 3 {
        0xc1bdceee
    } else if i == 4 {
        0xf57c0faf
    } else if i == 5 {
        0x4787c62a
    } else if i == 6 {
        0xa8304613
    } else if i == 7 {
        0xfd469501
    } else if i == 8 {
        0x698098d8
    } else if i == 9 {
        0x8b44f7af
    } else if i == 10 {
        0xffff5bb1
    } else if i == 11 {
        0x895cd7be
    } else if i == 12 {
        0x6b901122
    } else if i == 13 {
        0xfd987193
    } else if i == 14 {
        0xa679438e
    } else if i == 15 {
        0x49b40821
    } else if i == 16 {
        0xf61e2562
    } else if i == 17 {
        0xc040b340
    } else if i == 18 {
        0x265e5a51
    } else if i == 19 {
        0xe9b6c7aa
    } else if i == 20 {
        0xd62f105d
    } else if i == 21 {
        0x02441453
    } else if i == 22 {
        0xd8a1e681
    } else if i == 23 {
        0xe7d3fbc8
    } else if i == 24 {
        0x21e1cde6
    } else if i == 25 {
        0xc33707d6
    } else if i == 26 {
        0xf4d50d87
    } else if i == 27 {
        0x455a14ed
    } else if i == 28 {
        0xa9e3e905
    } else if i == 29 {
        0xfcefa3f8
    } else if i == 30 {
        0x676f02d9
    } else if i == 31 {
        0x8d2a4c8a
    } else if i == 32 {
        0xfffa3942
    } else if i == 33 {
        0x8771f681
    } else if i == 34 {
        0x6d9d6122
    } else if i == 35 {
        0xfde5380c
    } else if i == 36 {
        0xa4beea44
    } else if i == 37 {
        0x4bdecfa9
    } else if i == 38 {
        0xf6bb4b60
    } else if i == 39 {
        0xbebfbc70
    } else if i == 40 {
        0x289b7ec6
    } else if i == 41 {
        0xeaa127fa
    } else if i == 42 {
        0xd4ef3085
    } else if i == 43 {
        0x04881d05
    } else if i == 44 {
        0xd9d4d039
    } else if i == 45 {
        0xe6db99e5
    } else if i == 46 {
        0x1fa27cf8
    } else if i == 47 {
        0xc4ac5665
    } else if i == 48 {
        0xf4292244
    } else if i == 49 {
        0x432aff97
    } else if i == 50 {
        0xab9423a7
    } else if i == 51 {
        0xfc93a039
    } else if i == 52 {
        0x655b59c3
    } else if i == 53 {
        0x8f0ccc92
    } else if i == 54 {
        0xffeff47d
    } else if i == 55 {
        0x85845dd1
    } else if i == 56 {
        0x6fa87e4f
    } else if i == 57 {
        0xfe2ce6e0
    } else if i == 58 {
        0xa3014314
    } else if i == 59 {
        0x4e0811a1
    } else if i == 60 {
        0xf7537e82
    } else if i == 61 {
        0xbd3af235
    } else if i == 62 {
        0x2ad7d2bb
    } else {
        0xeb86d391
    }
}

/// By how many bits step `i` rotates.
fn rotation_of(i: usize) -> (s: u32)
    requires
        i < 64,
    ensures
        s == rotation(i as int),
        0 < s < 32,
{
    let r = i % 4;
    if i < 16 {
        if r == 0 {
            7
        } else if r == 1 {
            12
        } else if r == 2 {
            17
        } else {
            22
        }
    } else if i < 32 {
        if r == 0 {
            5
        } else if r == 1 {
            9
        } else if r == 2 {
            14
        } else {
            20
        }
    } else if i < 48 {
        if r == 0 {
            4
        } else if r == 1 {
            11
        } else if r == 2 {
            16
        } else {
            23
        }
    } else {
        if r == 0 {
            6
        } else if r == 1 {
            10
        } else if r == 2 {
            15
        } else {
            21
        }
    }
}

/// Which word of the block step `i` takes in.
fn word_index_of(i: usize) -> (g: usize)
    requires
        i < 64,
    ensures
        g == word_index(i as int),
        g < 16,
{
    if i < 16 {
        i
    } else if i < 32 {
        (5 * i + 1) % 16
    } else if i < 48 {
        (3 * i + 5) % 16
    } else {
        (7 * i) % 16
    }
}

/// How step `i` mixes three of the four words.
fn mix_of(i: usize, b: u32, c: u32, d: u32) -> (f: u32)
    ensures
        f == mix(i as int, b, c, d),
{
    if i < 16 {
        (b & c) | (!b & d)
    } else if i < 32 {
        (d & b) | (!d & c)
    } else if i < 48 {
        b ^ c ^ d
    } else {
        c ^ (b | !d)
    }
}

/// `x` rotated `s` bits to the left.
fn rotate(x: u32, s: u32) -> (r: u32)
    requires
        0 < s < 32,
    ensures
        r == rotate_left(x, s),
{
    (x << s) | (x >> (32 - s))
}

/// The word that the four bytes from `at` on hold, least significant first.
fn word_at(bytes: &Vec<u8>, at: usize) -> (w: u32)
    requires
        at + 4 <= bytes.len(),
    ensures
        w == le_word(bytes@, at as int),
{
    (bytes[at] as u32) + (bytes[at + 1] as u32) * 0x100 + (bytes[at + 2] as u32) * 0x1_0000 + (
    bytes[at + 3] as u32) * 0x100_0000
}

/// The words after the block of 64 bytes at `at` is taken in.
fn compress_block(w: Words, bytes: &Vec<u8>, at: usize) -> (next: Words)
    requires
        at + 64 <= bytes.len(),
    ensures
        next == compress(w, bytes@, at as int),
{
    let mut block: Vec<u32> = Vec::new();
    let mut j: usize = 0;
    while j < 16
        invariant
            j <= 16,
            at + 64 <= bytes.len(),
            block@ == block_words(bytes@, at as int).take(j as int),
        decreases 16 - j,
    {
        block.push(word_at(bytes, at + 4 * j));
        j += 1;
        assert(block@ =~= block_words(bytes@, at as int).take(j as int));
    }
    assert(block@ =~= block_words(bytes@, at as int));
    let mut cur = w;
    let mut i: usize = 0;
    while i < 64
        invariant
            i <= 64,
            block@ == block_words(bytes@, at as int),
            cur == steps(w, block@, i as nat),
        decreases 64 - i,
    {
        let f = mix_of(i, cur.b, cur.c, cur.d).wrapping_add(cur.a).wrapping_add(
            sine_of(i),
        ).wrapping_add(block[word_index_of(i)]);
        let b = cur.b.wrapping_add(rotate(f, rotation_of(i)));
        cur = Words { a: cur.d, b, c: cur.b, d: cur.c };
        i += 1;
    }
    Words {
        a: w.a.wrapping_add(cur.a),
        b: w.b.wrapping_add(cur.b),
        c: w.c.wrapping_add(cur.c),
        d: w.d.wrapping_add(cur.d),
    }
}

/// 256 to the power `j`.
fn pow256_of(j: usize) -> (p: u64)
    requires
        j < 8,
    ensures
        p == pow256(j as int),
{
    if j == 0 {
        1
    } else if j == 1 {
        0x100
    } else if j == 2 {
        0x1_0000
    } else if j == 3 {
        0x100_0000
    } else if j == 4 {
        0x1_0000_0000
    } else if j == 5 {
        0x100_0000_0000
    } else if j == 6 {
        0x1_0000_0000_0000
    } else {
        0x100_0000_0000_0000
    }
}

/// The message with its padding.
fn pad(message: &[u8]) -> (data: Vec<u8>)
    ensures
        data@ == padded(message@),
        data@.len() % 64 == 0,
{
    let len = message.len();
    let mut data: Vec<u8> = Vec::new();
    append_bytes(&mut data, message);
    data.push(0x80u8);
    let r = len % 64;
    let zeros: usize = if r < 56 {
        55 - r
    } else {
        119 - r
    };
    let ghost head = message@ + seq![0x80u8];
    assert(data@ =~= head);
    let mut z: usize = 0;
    while z < zeros
        invariant
            z <= zeros,
            data@ == head + Seq::new(z as nat, |j: int| 0u8),
        decreases zeros - z,
    {
        data.push(0u8);
        z += 1;
        assert(data@ =~= head + Seq::new(z as nat, |j: int| 0u8));
    }
    let bits: u64 = (((len as u128) * 8) % 0x1_0000_0000_0000_0000) as u64;
    let ghost body = data@;
    let mut j: usize = 0;
    while j < 8
        invariant
            j <= 8,
            data@ == body + le_bytes_u64(bits).take(j as int),
        decreases 8 - j,
    {
        data.push(((bits / pow256_of(j)) % 0x100) as u8);
        j += 1;
        assert(data@ =~= body + le_bytes_u64(bits).take(j as int));
    }
    assert(le_bytes_u64(bits).take(8) =~= le_bytes_u64(bits));
    assert(data@ =~= padded(message@));
    data
}

/// Appends the four bytes of `v`, least significant first, to `out`.
fn push_word(out: &mut Vec<u8>, v: u32)
    ensures
        final(out)@ == old(out)@ + le_bytes_u32(v),
{
    out.push((v % 0x100) as u8);
    out.push(((v / 0x100) % 0x100) as u8);
    out.push(((v / 0x1_0000) % 0x100) as u8);
    out.push(((v / 0x100_0000) % 0x100) as u8);
    assert(out@ =~= old(out)@ + le_bytes_u32(v));
}

/// The MD5 digest of `message`.
pub fn digest(message: &[u8]) -> (digest: Vec<u8>)
    ensures
        digest@ == md5(message@),
        digest@.len() == 16,
{
    let data = pad(message);
    let mut w = Words { a: 0x67452301, b: 0xefcdab89, c: 0x98badcfe, d: 0x10325476 };
    let mut at: usize = 0;
    let ghost mut n: nat = 0;
    while data.len() - at >= 64
        invariant
            at <= data.len(),
            at == 64 * n,
            data@.len() % 64 == 0,
            w == absorb(data@, n),
        decreases data.len() - at,
    {
        w = compress_block(w, &data, at);
        at += 64;
        proof {
            n = n + 1;
        }
    }
    assert(n == data@.len() / 64);
    let mut digest: Vec<u8> = Vec::new();
    push_word(&mut digest, w.a);
    push_word(&mut digest, w.b);
    push_word(&mut digest, w.c);
    push_word(&mut digest, w.d);
    assert(digest@ =~= md5(message@));
    digest
}

/// The character that stands for `n` in lower-case hexadecimal.
fn hex_digit_of(n: u8) -> (c: u8)
    requires
        n < 16,
    ensures
        c == hex_digit(n as int),
{
    if n < 10 {
        0x30 + n
    } else {
        0x57 + n
    }
}

/// `bytes` in lower-case hexadecimal.
pub fn hex_encode(bytes: &[u8]) -> (text: Vec<u8>)
    ensures
        text@ == hex(bytes@),
{
    let mut text: Vec<u8> = Vec::new();
    let mut i: usize = 0;
    while i < bytes.len()
        invariant
            i <= bytes@.len(),
            text@ == hex(bytes@.take(i as int)),
        decreases bytes@.len() - i,
    {
        text.push(hex_digit_of(bytes[i] / 16));
        text.push(hex_digit_of(bytes[i] % 16));
        i += 1;
        assert(text@ =~= hex(bytes@.take(i as int)));
    }
    assert(bytes@.take(bytes@.len() as int) =~= bytes@);
    text
}

/// What a client that knows `password` sends for the user `user` when it
/// is asked for an MD5 digest with `salt`.
pub fn credential(password: &[u8], user: &[u8], salt: &[u8]) -> (text: Vec<u8>)
    ensures
        text@ == md5_credential(password@, user@, salt@),
{
    let mut inner: Vec<u8> = Vec::new();
    append_bytes(&mut inner, password);
    append_bytes(&mut inner, user);
    assert(inner@ =~= password@ + user@);
    let mut outer = hex_encode(digest(inner.as_slice()).as_slice());
    append_bytes(&mut outer, salt);
    let mut text: Vec<u8> = Vec::new();
    text.push(0x6du8);
    text.push(0x64u8);
    text.push(0x35u8);
    append_bytes(&mut text, hex_encode(digest(outer.as_slice()).as_slice()).as_slice());
    assert(text@ =~= md5_credential(password@, user@, salt@));
    text
}

/// The credential is 35 characters long and holds no zero byte: `md5` and
/// 32 hexadecimal digits.
pub proof fn lemma_md5_credential_is_text(password: Seq<u8>, user: Seq<u8>, salt: Seq<u8>)
    ensures
        md5_credential(password, user, salt).len() == 35,
        forall|i: int|
            0 <= i < 35 ==> 0x30 <= #[trigger] md5_credential(password, user, salt)[i] <= 0x7a,
{
    let digest = md5(hex(md5(password + user)) + salt);
    assert(digest.len() == 16);
    let text = md5_credential(password, user, salt);
    assert forall|i: int| 0 <= i < 35 implies 0x30 <= #[trigger] text[i] <= 0x7a by {
        if i >= 3 {
            let j = i - 3;
            assert(text[i] == hex(digest)[j]);
            let byte = digest[j / 2] as int;
            assert(0 <= byte / 16 < 16 && 0 <= byte % 16 < 16);
        }
    }
}

} // verus!
