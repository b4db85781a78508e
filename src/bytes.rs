//! Little-endian byte decoding and bit rotation shared by the hash engines.

use vstd::prelude::*;

verus! {

/// `256^n`.
pub open spec fn pow256(n: nat) -> nat
    decreases n,
{
    if n == 0 {
        1
    } else {
        256 * pow256((n - 1) as nat)
    }
}

/// The unsigned number whose little-endian base-256 digits are `s`.
pub open spec fn le_val(s: Seq<u8>) -> nat
    decreases s.len(),
{
    if s.len() == 0 {
        0
    } else {
        s[0] as nat + 256 * le_val(s.drop_first())
    }
}

/// The 64-bit word stored little-endian in the eight bytes of `m` from `off`.
pub open spec fn word_at(m: Seq<u8>, off: int) -> u64 {
    le_val(m.subrange(off, off + 8)) as u64
}

/// The `n`-byte little-endian encoding of `x` (its low `n` bytes).
pub open spec fn le_bytes(x: u128, n: nat) -> Seq<u8> {
    Seq::new(n, |i: int| (x >> (8 * i) as u128) as u8)
}

/// The `n`-byte big-endian encoding of `x`.
pub open spec fn be_bytes(x: u128, n: nat) -> Seq<u8> {
    Seq::new(n, |i: int| (x >> (8 * (n - 1 - i)) as u128) as u8)
}

/// Left rotation of a 64-bit word by `r` bits, `0 < r < 64`.
pub open spec fn rotl(x: u64, r: u64) -> u64 {
    (x << r) | (x >> (64 - r) as u64)
}

pub proof fn lemma_le_val_bound(s: Seq<u8>)
    ensures
        le_val(s) < pow256(s.len()),
    decreases s.len(),
{
    if s.len() > 0 {
        lemma_le_val_bound(s.drop_first());
    }
}

pub proof fn lemma_pow256_mono(a: nat, b: nat)
    requires
        a <= b,
    ensures
        pow256(a) <= pow256(b),
    decreases b,
{
    if a < b {
        lemma_pow256_mono(a, (b - 1) as nat);
    }
}

/// A window inside two equal runs of bytes is equal too.
pub proof fn lemma_window(a: Seq<u8>, b: Seq<u8>, pb: int, n: int, i: int, j: int)
    requires
        0 <= i <= j <= n <= a.len(),
        0 <= pb,
        pb + n <= b.len(),
        a.subrange(0, n) == b.subrange(pb, pb + n),
    ensures
        a.subrange(i, j) == b.subrange(pb + i, pb + j),
{
    assert(a.subrange(i, j) =~= a.subrange(0, n).subrange(i, j));
    assert(b.subrange(pb + i, pb + j) =~= b.subrange(pb, pb + n).subrange(i, j));
}

/// Rotates `x` left by `r` bits.
pub fn rotate_left(x: u64, r: u64) -> (res: u64)
    requires
        0 < r < 64,
    ensures
        res == rotl(x, r),
{
    (x << r) | (x >> (64 - r))
}

/// Reads the `n <= 8` bytes of `src` from `start` as a little-endian number.
pub fn read_le(src: &[u8], start: usize, n: usize) -> (r: u64)
    requires
        n <= 8,
        start + n <= src@.len(),
    ensures
        r as nat == le_val(src@.subrange(start as int, (start + n) as int)),
{
    let len = src.len();
    let mut acc: u64 = 0;
    let mut j: usize = n;
    proof {
        assert(src@.subrange((start + n) as int, (start + n) as int) =~= Seq::<u8>::empty());
    }
    while j > 0
        invariant
            j <= n <= 8,
            start + n <= src@.len(),
            len == src@.len(),
            acc as nat == le_val(src@.subrange((start + j) as int, (start + n) as int)),
        decreases j,
    {
        let ghost tail = src@.subrange((start + j) as int, (start + n) as int);
        let ghost next = src@.subrange((start + j - 1) as int, (start + n) as int);
        proof {
            assert(next.drop_first() =~= tail);
            lemma_le_val_bound(tail);
            lemma_pow256_mono(tail.len(), 7);
            reveal_with_fuel(pow256, 8);
            assert(acc < 0x100_0000_0000_0000);
        }
        acc = acc * 256 + src[start + j - 1] as u64;
        j = j - 1;
    }
    acc
}

/// Reads the little-endian 64-bit word at `off`.
pub fn read_u64(src: &[u8], off: usize) -> (r: u64)
    requires
        off + 8 <= src@.len(),
    ensures
        r == word_at(src@, off as int),
{
    read_le(src, off, 8)
}

/// Copies `n` bytes of `src` from `from` into `dst` at `at`.
pub fn copy_bytes<const N: usize>(dst: &mut [u8; N], at: usize, src: &[u8], from: usize, n: usize)
    requires
        at + n <= N,
        from + n <= src@.len(),
    ensures
        final(dst)@ == old(dst)@.subrange(0, at as int) + src@.subrange(
            from as int,
            (from + n) as int,
        ) + old(dst)@.subrange((at + n) as int, N as int),
{
    let len = src.len();
    let mut i: usize = 0;
    while i < n
        invariant
            i <= n,
            len == src@.len(),
            at + n <= N,
            from + n <= src@.len(),
            dst@.len() == N,
            dst@ == old(dst)@.subrange(0, at as int) + src@.subrange(
                from as int,
                (from + i) as int,
            ) + old(dst)@.subrange((at + i) as int, N as int),
        decreases n - i,
    {
        dst[at + i] = src[from + i];
        i = i + 1;
        assert(dst@ =~= old(dst)@.subrange(0, at as int) + src@.subrange(
            from as int,
            (from + i) as int,
        ) + old(dst)@.subrange((at + i) as int, N as int));
    }
}

} // verus!
