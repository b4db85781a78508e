//! SpookyHash (versions 1 and 2): a 128-bit hash with a separate path for
//! messages shorter than two 96-byte blocks.

use core::marker::PhantomData;
use vstd::prelude::*;
use crate::hasher::{host_is_little_endian, host_little, BuildHasher, Hasher};
use crate::bytes::{
    copy_bytes, le_val, read_le, read_u64, rotate_left, rotl, word_at,
};

verus! {

/// Number of 64-bit words in the long-path state.
pub const NUM_VARS: usize = 12;

/// Bytes in one block of the long path.
pub const BLOCK_SIZE: usize = 96;

/// Bytes buffered before the long path takes over (two blocks).
pub const BUF_SIZE: usize = 192;

/// The constant that fills the state words that no seed sets.
pub const SC_CONST: u64 = 0xdeadbeefdeadbeef;

// ----- the mixing networks -----

/// Rotation amount of step `i` of the block mix.
pub open spec fn mix_rot(i: int) -> u64 {
    seq![11u64, 32, 43, 31, 17, 28, 39, 57, 55, 54, 22, 46][i]
}

/// Rotation amount of step `i` of the final mix.
pub open spec fn end_rot(i: int) -> u64 {
    seq![44u64, 15, 34, 21, 38, 33, 10, 13, 38, 53, 42, 54][i]
}

/// Rotation amount of step `k` of the short-path mix.
pub open spec fn short_mix_rot(k: int) -> u64 {
    seq![50u64, 52, 30, 41, 54, 48, 38, 37, 62, 34, 5, 36][k]
}

/// Rotation amount of step `k` of the short-path finalization.
pub open spec fn short_end_rot(k: int) -> u64 {
    seq![15u64, 52, 26, 51, 28, 9, 47, 54, 32, 25, 63][k]
}

/// Step `i` of the block mix of `d` into `s`.
pub open spec fn mix_step(d: Seq<u64>, s: Seq<u64>, i: int) -> Seq<u64> {
    let a = (i + 2) % 12;
    let b = (i + 10) % 12;
    let c = (i + 11) % 12;
    let e = (i + 1) % 12;
    let s1 = s.update(i, s[i].wrapping_add(d[i]));
    let s2 = s1.update(a, s1[a] ^ s1[b]);
    let s3 = s2.update(c, s2[c] ^ s2[i]);
    let s4 = s3.update(i, rotl(s3[i], mix_rot(i)));
    s4.update(c, s4[c].wrapping_add(s4[e]))
}

/// The first `n` steps of the block mix.
pub open spec fn mix_steps(d: Seq<u64>, s: Seq<u64>, n: nat) -> Seq<u64>
    decreases n,
{
    if n == 0 {
        s
    } else {
        mix_step(d, mix_steps(d, s, (n - 1) as nat), n - 1)
    }
}

/// The block mix: folds the twelve words of a block `d` into the state `s`.
pub open spec fn spec_mix(d: Seq<u64>, s: Seq<u64>) -> Seq<u64> {
    mix_steps(d, s, 12)
}

/// Step `i` of the final mix.
pub open spec fn end_step(h: Seq<u64>, i: int) -> Seq<u64> {
    let a = (i + 11) % 12;
    let b = (i + 1) % 12;
    let c = (i + 2) % 12;
    let h1 = h.update(a, h[a].wrapping_add(h[b]));
    let h2 = h1.update(c, h1[c] ^ h1[a]);
    h2.update(b, rotl(h2[b], end_rot(i)))
}

/// The first `n` steps of the final mix.
pub open spec fn end_steps(h: Seq<u64>, n: nat) -> Seq<u64>
    decreases n,
{
    if n == 0 {
        h
    } else {
        end_step(end_steps(h, (n - 1) as nat), n - 1)
    }
}

/// One round of the final mix.
pub open spec fn spec_end_partial(h: Seq<u64>) -> Seq<u64> {
    end_steps(h, 12)
}

/// The state with the words of `d` added word by word.
pub open spec fn add_words(h: Seq<u64>, d: Seq<u64>) -> Seq<u64> {
    Seq::new(h.len(), |j: int| h[j].wrapping_add(d[j]))
}

/// Finalization of the long path: version 2 first adds the last block in.
pub open spec fn spec_end(version: u8, d: Seq<u64>, h: Seq<u64>) -> Seq<u64> {
    let h0 = if version == 2 {
        add_words(h, d)
    } else {
        h
    };
    spec_end_partial(spec_end_partial(spec_end_partial(h0)))
}

/// Step `k` of the short-path mix.
pub open spec fn short_mix_step(h: Seq<u64>, k: int) -> Seq<u64> {
    let i = k % 4;
    let a = (i + 2) % 4;
    let b = (i + 3) % 4;
    let h1 = h.update(a, rotl(h[a], short_mix_rot(k)));
    let h2 = h1.update(a, h1[a].wrapping_add(h1[b]));
    h2.update(i, h2[i] ^ h2[a])
}

/// The first `n` steps of the short-path mix.
pub open spec fn short_mix_steps(h: Seq<u64>, n: nat) -> Seq<u64>
    decreases n,
{
    if n == 0 {
        h
    } else {
        short_mix_step(short_mix_steps(h, (n - 1) as nat), n - 1)
    }
}

/// The short-path mix of four words.
pub open spec fn spec_short_mix(h: Seq<u64>) -> Seq<u64> {
    short_mix_steps(h, 12)
}

/// Step `k` of the short-path finalization.
pub open spec fn short_end_step(h: Seq<u64>, k: int) -> Seq<u64> {
    let i = k % 4;
    let a = (i + 3) % 4;
    let b = (i + 2) % 4;
    let h1 = h.update(a, h[a] ^ h[b]);
    let h2 = h1.update(b, rotl(h1[b], short_end_rot(k)));
    h2.update(a, h2[a].wrapping_add(h2[b]))
}

/// The first `n` steps of the short-path finalization.
pub open spec fn short_end_steps(h: Seq<u64>, n: nat) -> Seq<u64>
    decreases n,
{
    if n == 0 {
        h
    } else {
        short_end_step(short_end_steps(h, (n - 1) as nat), n - 1)
    }
}

/// The short-path finalization of four words.
pub open spec fn spec_short_end(h: Seq<u64>) -> Seq<u64> {
    short_end_steps(h, 11)
}

fn mix_rotation(i: usize) -> (r: u64)
    requires
        i < 12,
    ensures
        r == mix_rot(i as int),
{
    match i {
        0 => 11,
        1 => 32,
        2 => 43,
        3 => 31,
        4 => 17,
        5 => 28,
        6 => 39,
        7 => 57,
        8 => 55,
        9 => 54,
        10 => 22,
        _ => 46,
    }
}

fn end_rotation(i: usize) -> (r: u64)
    requires
        i < 12,
    ensures
        r == end_rot(i as int),
{
    match i {
        0 => 44,
        1 => 15,
        2 => 34,
        3 => 21,
        4 => 38,
        5 => 33,
        6 => 10,
        7 => 13,
        8 => 38,
        9 => 53,
        10 => 42,
        _ => 54,
    }
}

fn short_mix_rotation(k: usize) -> (r: u64)
    requires
        k < 12,
    ensures
        r == short_mix_rot(k as int),
{
    match k {
        0 => 50,
        1 => 52,
        2 => 30,
        3 => 41,
        4 => 54,
        5 => 48,
        6 => 38,
        7 => 37,
        8 => 62,
        9 => 34,
        10 => 5,
        _ => 36,
    }
}

fn short_end_rotation(k: usize) -> (r: u64)
    requires
        k < 11,
    ensures
        r == short_end_rot(k as int),
{
    match k {
        0 => 15,
        1 => 52,
        2 => 26,
        3 => 51,
        4 => 28,
        5 => 9,
        6 => 47,
        7 => 54,
        8 => 32,
        9 => 25,
        _ => 63,
    }
}

/// Mixes one block of twelve words into the state.
fn mix(data: &[u64; NUM_VARS], s: &mut [u64; NUM_VARS])
    ensures
        final(s)@ == spec_mix(data@, old(s)@),
{
    let mut i: usize = 0;
    while i < 12
        invariant
            i <= 12,
            s@ == mix_steps(data@, old(s)@, i as nat),
        decreases 12 - i,
    {
        let a = (i + 2) % 12;
        let b = (i + 10) % 12;
        let c = (i + 11) % 12;
        let e = (i + 1) % 12;
        s[i] = s[i].wrapping_add(data[i]);
        s[a] = s[a] ^ s[b];
        s[c] = s[c] ^ s[i];
        s[i] = rotate_left(s[i], mix_rotation(i));
        s[c] = s[c].wrapping_add(s[e]);
        i = i + 1;
    }
}

/// One round of the final mix.
fn end_partial(h: &mut [u64; NUM_VARS])
    ensures
        final(h)@ == spec_end_partial(old(h)@),
{
    let mut i: usize = 0;
    while i < 12
        invariant
            i <= 12,
            h@ == end_steps(old(h)@, i as nat),
        decreases 12 - i,
    {
        let a = (i + 11) % 12;
        let b = (i + 1) % 12;
        let c = (i + 2) % 12;
        h[a] = h[a].wrapping_add(h[b]);
        h[c] = h[c] ^ h[a];
        h[b] = rotate_left(h[b], end_rotation(i));
        i = i + 1;
    }
}

/// Finalization of the long path.
fn end(version: u8, data: &[u64; NUM_VARS], h: &mut [u64; NUM_VARS])
    ensures
        final(h)@ == spec_end(version, data@, old(h)@),
{
    if version == 2 {
        let mut j: usize = 0;
        while j < 12
            invariant
                j <= 12,
                h@.len() == 12,
                forall|k: int| 0 <= k < j ==> h@[k] == old(h)@[k].wrapping_add(data@[k]),
                forall|k: int| j <= k < 12 ==> h@[k] == old(h)@[k],
            decreases 12 - j,
        {
            h[j] = h[j].wrapping_add(data[j]);
            j = j + 1;
        }
        assert(h@ =~= add_words(old(h)@, data@));
    }
    end_partial(h);
    end_partial(h);
    end_partial(h);
}

/// The short-path mix.
fn short_mix(h: &mut [u64; 4])
    ensures
        final(h)@ == spec_short_mix(old(h)@),
{
    let mut k: usize = 0;
    while k < 12
        invariant
            k <= 12,
            h@ == short_mix_steps(old(h)@, k as nat),
        decreases 12 - k,
    {
        let i = k % 4;
        let a = (i + 2) % 4;
        let b = (i + 3) % 4;
        h[a] = rotate_left(h[a], short_mix_rotation(k));
        h[a] = h[a].wrapping_add(h[b]);
        h[i] = h[i] ^ h[a];
        k = k + 1;
    }
}

/// The short-path finalization.
fn short_end(h: &mut [u64; 4])
    ensures
        final(h)@ == spec_short_end(old(h)@),
{
    let mut k: usize = 0;
    while k < 11
        invariant
            k <= 11,
            h@ == short_end_steps(old(h)@, k as nat),
        decreases 11 - k,
    {
        let i = k % 4;
        let a = (i + 3) % 4;
        let b = (i + 2) % 4;
        h[a] = h[a] ^ h[b];
        h[b] = rotate_left(h[b], short_end_rotation(k));
        h[a] = h[a].wrapping_add(h[b]);
        k = k + 1;
    }
}


// ----- the hash of a whole message -----

/// The 128-bit value whose low half is `lo` and high half is `hi`.
pub open spec fn join128(lo: u64, hi: u64) -> u128 {
    (lo as u128) | ((hi as u128) << 64u128)
}

/// The twelve little-endian words of the 96 bytes of `m` from `off`.
pub open spec fn block_at(m: Seq<u8>, off: int) -> Seq<u64> {
    Seq::new(12, |j: int| word_at(m, off + 8 * j))
}

/// The long-path state before any block: the two seeds and the constant, three times over.
pub open spec fn long_seed(s0: u64, s1: u64) -> Seq<u64> {
    seq![s0, s1, SC_CONST, s0, s1, SC_CONST, s0, s1, SC_CONST, s0, s1, SC_CONST]
}

/// The state after mixing the first `k` blocks of `m` into `h`.
pub open spec fn mix_blocks(h: Seq<u64>, m: Seq<u8>, k: nat) -> Seq<u64>
    decreases k,
{
    if k == 0 {
        h
    } else {
        spec_mix(block_at(m, 96 * (k - 1)), mix_blocks(h, m, (k - 1) as nat))
    }
}

/// The final block of the long path: the bytes after the last full block,
/// zero-padded, with their count in the last byte.
pub open spec fn last_block(m: Seq<u8>) -> Seq<u8> {
    let full = 96 * (m.len() / 96);
    let rem = m.len() % 96;
    m.subrange(full as int, m.len() as int) + Seq::new((95 - rem) as nat, |i: int| 0u8) + seq![
        rem as u8,
    ]
}

/// The long path, for messages of at least 192 bytes.
pub open spec fn spooky_long(version: u8, s0: u64, s1: u64, m: Seq<u8>) -> u128 {
    let h = mix_blocks(long_seed(s0, s1), m, m.len() / 96);
    let d = block_at(last_block(m), 0);
    let h1 = if version == 1 {
        spec_mix(d, h)
    } else {
        h
    };
    let h2 = spec_end(version, d, h1);
    join128(h2[0], h2[1])
}

/// One 32-byte chunk of the short path, taken from `m` at `off`.
pub open spec fn short_chunk(h: Seq<u64>, m: Seq<u8>, off: int) -> Seq<u64> {
    let h1 = short_half(h, m, off);
    let h2 = h1.update(0, h1[0].wrapping_add(word_at(m, off + 16)));
    h2.update(1, h2[1].wrapping_add(word_at(m, off + 24)))
}

/// Two words of `m` at `off` added into `h[2]`, `h[3]`, then the short mix.
pub open spec fn short_half(h: Seq<u64>, m: Seq<u8>, off: int) -> Seq<u64> {
    let h1 = h.update(2, h[2].wrapping_add(word_at(m, off)));
    let h2 = h1.update(3, h1[3].wrapping_add(word_at(m, off + 8)));
    spec_short_mix(h2)
}

/// The state after the first `k` chunks of `m`.
pub open spec fn short_chunks(h: Seq<u64>, m: Seq<u8>, k: nat) -> Seq<u64>
    decreases k,
{
    if k == 0 {
        h
    } else {
        short_chunk(short_chunks(h, m, (k - 1) as nat), m, 32 * (k - 1))
    }
}

/// The last 0 to 15 bytes of the short path, from `off` to the end of `m`.
pub open spec fn short_tail(h: Seq<u64>, m: Seq<u8>, off: int) -> Seq<u64> {
    let rem = m.len() - off;
    if rem == 0 {
        let h1 = h.update(2, h[2].wrapping_add(SC_CONST));
        h1.update(3, h1[3].wrapping_add(SC_CONST))
    } else {
        let lo = le_val(m.subrange(off, off + if rem < 8 { rem } else { 8 })) as u64;
        let h1 = h.update(2, h[2].wrapping_add(lo));
        if rem > 8 {
            h1.update(3, h1[3].wrapping_add(le_val(m.subrange(off + 8, m.len() as int)) as u64))
        } else {
            h1
        }
    }
}

/// The short path, for messages under 192 bytes.
pub open spec fn spooky_short(version: u8, s0: u64, s1: u64, m: Seq<u8>) -> u128 {
    let len = m.len();
    let h0 = short_chunks(seq![s0, s1, SC_CONST, SC_CONST], m, len / 32);
    let half = len % 32 >= 16;
    let base = 32 * (len / 32);
    let h1 = if half {
        short_half(h0, m, base as int)
    } else {
        h0
    };
    let off = if half {
        base + 16
    } else {
        base
    };
    let lenword = rotl(len as u64, 56);
    let h2 = if version == 1 {
        h1.update(3, lenword)
    } else {
        h1.update(3, h1[3].wrapping_add(lenword))
    };
    let h3 = spec_short_end(short_tail(h2, m, off as int));
    join128(h3[0], h3[1])
}

/// SpookyHash of `m` with seeds `s0`, `s1`: the short path under 192 bytes,
/// the long path from there on.
pub open spec fn spooky_hash(version: u8, s0: u64, s1: u64, m: Seq<u8>) -> u128 {
    if m.len() < BUF_SIZE {
        spooky_short(version, s0, s1, m)
    } else {
        spooky_long(version, s0, s1, m)
    }
}

proof fn lemma_block_at_shift(a: Seq<u8>, pa: int, b: Seq<u8>, pb: int)
    requires
        0 <= pa,
        pa + 96 <= a.len(),
        0 <= pb,
        pb + 96 <= b.len(),
        a.subrange(pa, pa + 96) == b.subrange(pb, pb + 96),
    ensures
        block_at(a, pa) == block_at(b, pb),
{
    assert forall|j: int| 0 <= j < 12 implies #[trigger] block_at(a, pa)[j] == block_at(b, pb)[j] by {
        assert(a.subrange(pa + 8 * j, pa + 8 * j + 8) =~= a.subrange(pa, pa + 96).subrange(
            8 * j,
            8 * j + 8,
        ));
        assert(b.subrange(pb + 8 * j, pb + 8 * j + 8) =~= b.subrange(pb, pb + 96).subrange(
            8 * j,
            8 * j + 8,
        ));
    }
    assert(block_at(a, pa) =~= block_at(b, pb));
}

proof fn lemma_mix_blocks_prefix(h: Seq<u64>, m: Seq<u8>, m2: Seq<u8>, k: nat)
    requires
        96 * k <= m.len() <= m2.len(),
        m2.subrange(0, m.len() as int) == m,
    ensures
        mix_blocks(h, m, k) == mix_blocks(h, m2, k),
    decreases k,
{
    if k > 0 {
        lemma_mix_blocks_prefix(h, m, m2, (k - 1) as nat);
        let off = 96 * (k - 1);
        assert(m.subrange(off, off + 96) =~= m2.subrange(off, off + 96));
        lemma_block_at_shift(m, off, m2, off);
    }
}

/// Reads the twelve little-endian words of the block at `off`.
fn read_block(src: &[u8], off: usize) -> (r: [u64; NUM_VARS])
    requires
        off + 96 <= src@.len(),
    ensures
        r@ == block_at(src@, off as int),
{
    let len = src.len();
    let mut r: [u64; NUM_VARS] = [0; NUM_VARS];
    let mut j: usize = 0;
    while j < 12
        invariant
            j <= 12,
            len == src@.len(),
            off + 96 <= src@.len(),
            r@.len() == 12,
            forall|k: int| 0 <= k < j ==> r@[k] == word_at(src@, off + 8 * k),
        decreases 12 - j,
    {
        r[j] = read_u64(src, off + 8 * j);
        j = j + 1;
    }
    assert(r@ =~= block_at(src@, off as int));
    r
}

fn join(lo: u64, hi: u64) -> (r: u128)
    ensures
        r == join128(lo, hi),
{
    (lo as u128) | ((hi as u128) << 64u128)
}

proof fn lemma_prefix_window(buf: Seq<u8>, len: int, a: int, b: int)
    requires
        0 <= a <= b <= len <= buf.len(),
    ensures
        buf.subrange(0, len).subrange(a, b) == buf.subrange(a, b),
{
    assert(buf.subrange(0, len).subrange(a, b) =~= buf.subrange(a, b));
}

/// The short path over the first `len` bytes of `buf`.
fn short_hash(version: u8, s0: u64, s1: u64, buf: &[u8], len: usize) -> (r: u128)
    requires
        len <= buf@.len(),
        len < BUF_SIZE,
    ensures
        r == spooky_short(version, s0, s1, buf@.subrange(0, len as int)),
{
    let ghost m = buf@.subrange(0, len as int);
    let mut h: [u64; 4] = [s0, s1, SC_CONST, SC_CONST];
    let nchunks = len / 32;
    let mut c: usize = 0;
    while c < nchunks
        invariant
            c <= nchunks == len / 32,
            len <= buf@.len(),
            m == buf@.subrange(0, len as int),
            h@ == short_chunks(seq![s0, s1, SC_CONST, SC_CONST], m, c as nat),
        decreases nchunks - c,
    {
        let off = 32 * c;
        proof {
            lemma_prefix_window(buf@, len as int, off as int, off + 8);
            lemma_prefix_window(buf@, len as int, off + 8, off + 16);
            lemma_prefix_window(buf@, len as int, off + 16, off + 24);
            lemma_prefix_window(buf@, len as int, off + 24, off + 32);
        }
        h[2] = h[2].wrapping_add(read_u64(buf, off));
        h[3] = h[3].wrapping_add(read_u64(buf, off + 8));
        short_mix(&mut h);
        h[0] = h[0].wrapping_add(read_u64(buf, off + 16));
        h[1] = h[1].wrapping_add(read_u64(buf, off + 24));
        c = c + 1;
    }
    let mut off = 32 * nchunks;
    if len % 32 >= 16 {
        proof {
            lemma_prefix_window(buf@, len as int, off as int, off + 8);
            lemma_prefix_window(buf@, len as int, off + 8, off + 16);
        }
        h[2] = h[2].wrapping_add(read_u64(buf, off));
        h[3] = h[3].wrapping_add(read_u64(buf, off + 8));
        short_mix(&mut h);
        off = off + 16;
    }
    let lenword = rotate_left(len as u64, 56);
    if version == 1 {
        h[3] = lenword;
    } else {
        h[3] = h[3].wrapping_add(lenword);
    }
    let rem = len - off;
    if rem == 0 {
        h[2] = h[2].wrapping_add(SC_CONST);
        h[3] = h[3].wrapping_add(SC_CONST);
    } else {
        let lo_n = if rem < 8 {
            rem
        } else {
            8
        };
        proof {
            lemma_prefix_window(buf@, len as int, off as int, (off + lo_n) as int);
        }
        h[2] = h[2].wrapping_add(read_le(buf, off, lo_n));
        if rem > 8 {
            proof {
                lemma_prefix_window(buf@, len as int, off + 8, len as int);
            }
            h[3] = h[3].wrapping_add(read_le(buf, off + 8, rem - 8));
        }
    }
    short_end(&mut h);
    join(h[0], h[1])
}


// ----- versions -----

/// Selects a version of SpookyHash.
pub trait Version {
    /// The version number.
    spec fn spec_number() -> u8;

    /// The version number.
    fn number() -> (r: u8)
        ensures
            r == Self::spec_number(),
    ;
}

/// Selector for SpookyHash v1.
#[derive(Clone, Copy, Debug, Default)]
pub struct V1;

/// Selector for SpookyHash v2.
#[derive(Clone, Copy, Debug, Default)]
pub struct V2;

impl Version for V1 {
    open spec fn spec_number() -> u8 {
        1
    }

    fn number() -> (r: u8) {
        1
    }
}

impl Version for V2 {
    open spec fn spec_number() -> u8 {
        2
    }

    fn number() -> (r: u8) {
        2
    }
}

// ----- the streaming engine -----

/// Hasher using the SpookyHash algorithm.
pub struct SpookyV<V: Version> {
    /// Bytes not yet mixed: the first `remainder` are in use.
    buf: [u8; BUF_SIZE],
    /// The long-path state once 192 bytes have been seen.
    state: [u64; NUM_VARS],
    seed1: u64,
    seed2: u64,
    /// Total number of bytes written.
    length: u64,
    remainder: usize,
    written: Ghost<Seq<u8>>,
    version: PhantomData<V>,
}

/// Hasher using SpookyHash v2.
pub type Spooky = SpookyV<V2>;

impl<V: Version> SpookyV<V> {
    #[verifier::type_invariant]
    spec fn inv(self) -> bool {
        let m = self.written@;
        let len = m.len();
        let rem = self.remainder as int;
        let mixed = len - rem;
        &&& self.length == len
        &&& rem < BUF_SIZE
        &&& rem <= len
        &&& self.buf@.subrange(0, rem) == m.subrange(mixed, len as int)
        &&& len < BUF_SIZE ==> rem == len
        &&& len >= BUF_SIZE ==> {
            &&& mixed % 96 == 0
            &&& mixed >= BUF_SIZE
            &&& self.state@ == mix_blocks(long_seed(self.seed1, self.seed2), m, (mixed / 96) as nat)
        }
    }

    /// The bytes written so far.
    pub closed spec fn input(&self) -> Seq<u8> {
        self.written@
    }

    /// The first seed.
    pub closed spec fn seed1(&self) -> u64 {
        self.seed1
    }

    /// The second seed.
    pub closed spec fn seed2(&self) -> u64 {
        self.seed2
    }

    /// The 128-bit digest of the bytes written so far.
    pub open spec fn digest(&self) -> u128 {
        spooky_hash(V::spec_number(), self.seed1(), self.seed2(), self.input())
    }

    /// Creates a hasher with both seeds zero.
    pub fn new() -> (r: Self)
        ensures
            r.seed1() == 0,
            r.seed2() == 0,
            r.input() == Seq::<u8>::empty(),
    {
        Self::with_seed(0, 0)
    }

    /// Creates a hasher with the seeds `seed1` and `seed2`.
    pub fn with_seed(seed1: u64, seed2: u64) -> (r: Self)
        ensures
            r.seed1() == seed1,
            r.seed2() == seed2,
            r.input() == Seq::<u8>::empty(),
    {
        let buf: [u8; BUF_SIZE] = [0; BUF_SIZE];
        proof {
            assert(buf@.subrange(0, 0) =~= Seq::<u8>::empty().subrange(0, 0));
        }
        SpookyV {
            buf,
            state: [0; NUM_VARS],
            seed1,
            seed2,
            length: 0,
            remainder: 0,
            written: Ghost(Seq::empty()),
            version: PhantomData,
        }
    }

    /// Creates a hasher whose seeds are the low and the high half of `seed`.
    pub fn with_seed_128(seed: u128) -> (r: Self)
        ensures
            r.seed1() == seed as u64,
            r.seed2() == (seed >> 64u128) as u64,
            r.input() == Seq::<u8>::empty(),
    {
        Self::with_seed(seed as u64, (seed >> 64) as u64)
    }

    /// Feeds `bytes` into the hash.
    pub fn write(&mut self, bytes: &[u8])
        requires
            old(self).input().len() + bytes@.len() <= u64::MAX,
        ensures
            final(self).input() == old(self).input() + bytes@,
            final(self).seed1() == old(self).seed1(),
            final(self).seed2() == old(self).seed2(),
    {
        proof {
            use_type_invariant(&*self);
        }
        let n = bytes.len();
        let ghost m = self.written@;
        let ghost m2 = m + bytes@;
        let rem = self.remainder;
        let seed1 = self.seed1;
        let seed2 = self.seed2;
        let mut buf = self.buf;
        if n < BUF_SIZE - rem {
            copy_bytes(&mut buf, rem, bytes, 0, n);
            proof {
                let mixed = m.len() - rem;
                assert(buf@.subrange(0, (rem + n) as int) =~= m2.subrange(mixed, m2.len() as int));
                assert(m2.subrange(0, m.len() as int) =~= m);
                if m2.len() >= BUF_SIZE {
                    lemma_mix_blocks_prefix(
                        long_seed(seed1, seed2),
                        m,
                        m2,
                        (mixed / 96) as nat,
                    );
                }
            }
            *self = SpookyV {
                buf,
                state: self.state,
                seed1,
                seed2,
                length: self.length + n as u64,
                remainder: rem + n,
                written: Ghost(m2),
                version: PhantomData,
            };
            return ;
        }
        let mut h: [u64; NUM_VARS] = if self.length < BUF_SIZE as u64 {
            [
                seed1,
                seed2,
                SC_CONST,
                seed1,
                seed2,
                SC_CONST,
                seed1,
                seed2,
                SC_CONST,
                seed1,
                seed2,
                SC_CONST,
            ]
        } else {
            self.state
        };
        let ghost base: int = m.len() - rem;
        proof {
            assert(m2.subrange(0, m.len() as int) =~= m);
            if m.len() >= BUF_SIZE {
                lemma_mix_blocks_prefix(long_seed(seed1, seed2), m, m2, (base / 96) as nat);
            } else {
                assert(h@ =~= long_seed(seed1, seed2));
                assert(mix_blocks(long_seed(seed1, seed2), m2, 0) == long_seed(seed1, seed2));
            }
            assert(base % 96 == 0);
            assert(h@ == mix_blocks(long_seed(seed1, seed2), m2, (base / 96) as nat));
        }
        let mut pos: usize = 0;
        if rem != 0 {
            let prefix = BUF_SIZE - rem;
            copy_bytes(&mut buf, rem, bytes, 0, prefix);
            proof {
                assert(buf@.subrange(0, 96) =~= m2.subrange(base, base + 96));
                assert(buf@.subrange(96, 192) =~= m2.subrange(base + 96, base + 192));
                lemma_block_at_shift(buf@, 0, m2, base);
                lemma_block_at_shift(buf@, 96, m2, base + 96);
            }
            let d0 = read_block(buf.as_slice(), 0);
            mix(&d0, &mut h);
            let d1 = read_block(buf.as_slice(), BLOCK_SIZE);
            mix(&d1, &mut h);
            pos = prefix;
            proof {
                let ls = long_seed(seed1, seed2);
                let k = (base / 96) as nat;
                assert(96 * k == base);
                assert((base + 192) / 96 == k + 2);
                assert(mix_blocks(ls, m2, k + 1) == spec_mix(
                    block_at(m2, base),
                    mix_blocks(ls, m2, k),
                ));
                assert(mix_blocks(ls, m2, k + 2) == spec_mix(
                    block_at(m2, base + 96),
                    mix_blocks(ls, m2, k + 1),
                ));
            }
        }
        while n - pos >= BLOCK_SIZE
            invariant
                pos <= n == bytes@.len(),
                m2 == m + bytes@,
                (m.len() + pos) % 96 == 0,
                h@ == mix_blocks(long_seed(seed1, seed2), m2, ((m.len() + pos) / 96) as nat),
            decreases n - pos,
        {
            proof {
                let at = m.len() + pos;
                assert(bytes@.subrange(pos as int, pos + 96) =~= m2.subrange(at, at + 96));
                lemma_block_at_shift(bytes@, pos as int, m2, at);
                let k = (at / 96) as nat;
                assert(96 * k == at);
                assert((at + 96) / 96 == k + 1);
                assert(mix_blocks(long_seed(seed1, seed2), m2, k + 1) == spec_mix(
                    block_at(m2, at),
                    mix_blocks(long_seed(seed1, seed2), m2, k),
                ));
            }
            let d = read_block(bytes, pos);
            mix(&d, &mut h);
            pos = pos + BLOCK_SIZE;
        }
        let r = n - pos;
        copy_bytes(&mut buf, 0, bytes, pos, r);
        proof {
            assert(buf@.subrange(0, r as int) =~= m2.subrange(m2.len() - r, m2.len() as int));
        }
        *self = SpookyV {
            buf,
            state: h,
            seed1,
            seed2,
            length: self.length + n as u64,
            remainder: r,
            written: Ghost(m2),
            version: PhantomData,
        };
    }

    /// The 128-bit digest of the bytes written so far; the hasher is left unchanged.
    pub fn finish128(&self) -> (r: u128)
        ensures
            r == self.digest(),
    {
        proof {
            use_type_invariant(self);
        }
        let version = V::number();
        let ghost m = self.written@;
        let rem = self.remainder;
        if self.length < BUF_SIZE as u64 {
            proof {
                assert(self.buf@.subrange(0, rem as int) =~= m);
            }
            return short_hash(version, self.seed1, self.seed2, self.buf.as_slice(), rem);
        }
        let ghost mixed = m.len() - rem;
        let mut h = self.state;
        let mut off: usize = 0;
        if rem >= BLOCK_SIZE {
            proof {
                assert(self.buf@.subrange(0, 96) =~= m.subrange(mixed, mixed + 96));
                lemma_block_at_shift(self.buf@, 0, m, mixed);
                let k = (mixed / 96) as nat;
                assert(96 * k == mixed);
                assert((mixed + 96) / 96 == k + 1);
                assert(mix_blocks(long_seed(self.seed1, self.seed2), m, k + 1) == spec_mix(
                    block_at(m, mixed),
                    mix_blocks(long_seed(self.seed1, self.seed2), m, k),
                ));
            }
            let d = read_block(self.buf.as_slice(), 0);
            mix(&d, &mut h);
            off = BLOCK_SIZE;
        }
        let r = rem - off;
        let mut last: [u8; BLOCK_SIZE] = [0; BLOCK_SIZE];
        let ghost zeros = last@;
        copy_bytes(&mut last, 0, self.buf.as_slice(), off, r);
        proof {
            let full = mixed + off;
            assert(self.buf@.subrange(off as int, rem as int) =~= self.buf@.subrange(
                0,
                rem as int,
            ).subrange(off as int, rem as int));
            assert(m.subrange(full, m.len() as int) =~= m.subrange(
                mixed,
                m.len() as int,
            ).subrange(off as int, rem as int));
            assert(last@ =~= m.subrange(full, m.len() as int) + zeros.subrange(r as int, 96));
        }
        last[BLOCK_SIZE - 1] = r as u8;
        proof {
            let full = mixed + off;
            let q = full / 96;
            assert(96 * q == full);
            assert(m.len() == 96 * q + r);
            assert(m.len() / 96 == q);
            assert(m.len() % 96 == r);
            assert(last@ =~= last_block(m));
        }
        let d = read_block(last.as_slice(), 0);
        if version == 1 {
            mix(&d, &mut h);
        }
        end(version, &d, &mut h);
        join(h[0], h[1])
    }

    /// The digest truncated to 64 bits.
    pub fn finish64(&self) -> (r: u64)
        ensures
            r == self.digest() as u64,
    {
        self.finish128() as u64
    }

    /// The digest truncated to 32 bits.
    pub fn finish32(&self) -> (r: u32)
        ensures
            r == self.digest() as u32,
    {
        self.finish128() as u32
    }
}


impl<V: Version> Hasher<u128> for SpookyV<V> {
    open spec fn written(&self) -> Seq<u8> {
        self.input()
    }

    open spec fn ints_little(&self) -> bool {
        host_little()
    }

    fn writes_ints_little(&self) -> (r: bool) {
        host_is_little_endian()
    }

    open spec fn digest_of(&self, m: Seq<u8>) -> u128 {
        spooky_hash(V::spec_number(), self.seed1(), self.seed2(), m)
    }

    fn finish(&self) -> (r: u128) {
        self.finish128()
    }

    fn write(&mut self, bytes: &[u8]) {
        SpookyV::write(self, bytes)
    }
}

impl<V: Version> Hasher<u64> for SpookyV<V> {
    open spec fn written(&self) -> Seq<u8> {
        self.input()
    }

    open spec fn ints_little(&self) -> bool {
        host_little()
    }

    fn writes_ints_little(&self) -> (r: bool) {
        host_is_little_endian()
    }

    open spec fn digest_of(&self, m: Seq<u8>) -> u64 {
        spooky_hash(V::spec_number(), self.seed1(), self.seed2(), m) as u64
    }

    fn finish(&self) -> (r: u64) {
        self.finish64()
    }

    fn write(&mut self, bytes: &[u8]) {
        SpookyV::write(self, bytes)
    }
}

impl<V: Version> Hasher<u32> for SpookyV<V> {
    open spec fn written(&self) -> Seq<u8> {
        self.input()
    }

    open spec fn ints_little(&self) -> bool {
        host_little()
    }

    fn writes_ints_little(&self) -> (r: bool) {
        host_is_little_endian()
    }

    open spec fn digest_of(&self, m: Seq<u8>) -> u32 {
        spooky_hash(V::spec_number(), self.seed1(), self.seed2(), m) as u32
    }

    fn finish(&self) -> (r: u32) {
        self.finish32()
    }

    fn write(&mut self, bytes: &[u8]) {
        SpookyV::write(self, bytes)
    }
}

/// Factory of [`SpookyV`] hashers with given seeds.
pub struct SpookyBuildHasherV<V: Version> {
    seed1: u64,
    seed2: u64,
    version: PhantomData<V>,
}

/// Factory of SpookyHash v2 hashers with given seeds.
pub type SpookyBuildHasher = SpookyBuildHasherV<V2>;

impl<V: Version> SpookyBuildHasherV<V> {
    /// The first seed of the hashers built.
    pub closed spec fn seed1(&self) -> u64 {
        self.seed1
    }

    /// The second seed of the hashers built.
    pub closed spec fn seed2(&self) -> u64 {
        self.seed2
    }

    /// A factory with both seeds zero.
    pub fn new() -> (r: Self)
        ensures
            r.seed1() == 0,
            r.seed2() == 0,
    {
        Self::with_seed(0, 0)
    }

    /// A factory with the seeds `seed1` and `seed2`.
    pub fn with_seed(seed1: u64, seed2: u64) -> (r: Self)
        ensures
            r.seed1() == seed1,
            r.seed2() == seed2,
    {
        SpookyBuildHasherV { seed1, seed2, version: PhantomData }
    }

    /// A factory whose seeds are the low and the high half of `seed`.
    pub fn with_seed_128(seed: u128) -> (r: Self)
        ensures
            r.seed1() == seed as u64,
            r.seed2() == (seed >> 64u128) as u64,
    {
        Self::with_seed(seed as u64, (seed >> 64) as u64)
    }
}

/// Factory of [`SpookyV`] hashers with both seeds zero; it holds nothing.
pub struct SpookyDefaultBuildHasherV<V: Version> {
    version: PhantomData<V>,
}

/// Factory of SpookyHash v2 hashers with both seeds zero.
pub type SpookyDefaultBuildHasher = SpookyDefaultBuildHasherV<V2>;

impl<V: Version> SpookyDefaultBuildHasherV<V> {
    /// The factory.
    pub fn new() -> (r: Self) {
        SpookyDefaultBuildHasherV { version: PhantomData }
    }
}

impl<V: Version> BuildHasher<u128> for SpookyBuildHasherV<V> {
    type Hasher = SpookyV<V>;

    open spec fn ints_little(&self) -> bool {
        host_little()
    }

    open spec fn digest_of(&self, m: Seq<u8>) -> u128 {
        spooky_hash(V::spec_number(), self.seed1(), self.seed2(), m)
    }

    fn build_hasher(&self) -> (h: SpookyV<V>) {
        SpookyV::with_seed(self.seed1, self.seed2)
    }
}

impl<V: Version> BuildHasher<u128> for SpookyDefaultBuildHasherV<V> {
    type Hasher = SpookyV<V>;

    open spec fn ints_little(&self) -> bool {
        host_little()
    }

    open spec fn digest_of(&self, m: Seq<u8>) -> u128 {
        spooky_hash(V::spec_number(), 0, 0, m)
    }

    fn build_hasher(&self) -> (h: SpookyV<V>) {
        SpookyV::new()
    }
}

impl<V: Version> BuildHasher<u64> for SpookyBuildHasherV<V> {
    type Hasher = SpookyV<V>;

    open spec fn ints_little(&self) -> bool {
        host_little()
    }

    open spec fn digest_of(&self, m: Seq<u8>) -> u64 {
        spooky_hash(V::spec_number(), self.seed1(), self.seed2(), m) as u64
    }

    fn build_hasher(&self) -> (h: SpookyV<V>) {
        SpookyV::with_seed(self.seed1, self.seed2)
    }
}

impl<V: Version> BuildHasher<u64> for SpookyDefaultBuildHasherV<V> {
    type Hasher = SpookyV<V>;

    open spec fn ints_little(&self) -> bool {
        host_little()
    }

    open spec fn digest_of(&self, m: Seq<u8>) -> u64 {
        spooky_hash(V::spec_number(), 0, 0, m) as u64
    }

    fn build_hasher(&self) -> (h: SpookyV<V>) {
        SpookyV::new()
    }
}

impl<V: Version> BuildHasher<u32> for SpookyBuildHasherV<V> {
    type Hasher = SpookyV<V>;

    open spec fn ints_little(&self) -> bool {
        host_little()
    }

    open spec fn digest_of(&self, m: Seq<u8>) -> u32 {
        spooky_hash(V::spec_number(), self.seed1(), self.seed2(), m) as u32
    }

    fn build_hasher(&self) -> (h: SpookyV<V>) {
        SpookyV::with_seed(self.seed1, self.seed2)
    }
}

impl<V: Version> BuildHasher<u32> for SpookyDefaultBuildHasherV<V> {
    type Hasher = SpookyV<V>;

    open spec fn ints_little(&self) -> bool {
        host_little()
    }

    open spec fn digest_of(&self, m: Seq<u8>) -> u32 {
        spooky_hash(V::spec_number(), 0, 0, m) as u32
    }

    fn build_hasher(&self) -> (h: SpookyV<V>) {
        SpookyV::new()
    }
}

impl<V: Version> Default for SpookyV<V> {
    fn default() -> (r: Self)
        ensures
            r.seed1() == 0,
            r.seed2() == 0,
            r.input() == Seq::<u8>::empty(),
    {
        Self::new()
    }
}

impl<V: Version> Default for SpookyBuildHasherV<V> {
    fn default() -> (r: Self)
        ensures
            r.seed1() == 0,
            r.seed2() == 0,
    {
        Self::new()
    }
}

impl<V: Version> Default for SpookyDefaultBuildHasherV<V> {
    fn default() -> (r: Self) {
        Self::new()
    }
}

impl<V: Version> Clone for SpookyV<V> {
    /// An independent hasher in the same state.
    fn clone(&self) -> (r: Self)
        ensures
            r.seed1() == self.seed1(),
            r.seed2() == self.seed2(),
            r.input() == self.input(),
    {
        proof {
            use_type_invariant(self);
        }
        SpookyV {
            buf: self.buf,
            state: self.state,
            seed1: self.seed1,
            seed2: self.seed2,
            length: self.length,
            remainder: self.remainder,
            written: Ghost(self.written@),
            version: PhantomData,
        }
    }
}

} // verus!
