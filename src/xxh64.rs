//! xxHash64: four 64-bit lanes over 32-byte stripes, then a fixed avalanche.

use vstd::prelude::*;
use crate::hasher::{host_is_little_endian, host_little, BuildHasher, Hasher};
use crate::bytes::{copy_bytes, le_val, lemma_window, read_le, read_u64, rotate_left, rotl, word_at};

verus! {

pub const PRIME64_1: u64 = 0x9e3779b185ebca87;

pub const PRIME64_2: u64 = 0xc2b2ae3d27d4eb4f;

pub const PRIME64_3: u64 = 0x165667b19e3779f9;

pub const PRIME64_4: u64 = 0x85ebca77c2b2ae63;

pub const PRIME64_5: u64 = 0x27d4eb2f165667c5;

/// Bytes in one stripe.
pub const STRIPE: usize = 32;

/// One lane round: `rotl(acc + lane * PRIME64_2, 31) * PRIME64_1`.
pub open spec fn xround(acc: u64, lane: u64) -> u64 {
    rotl(acc.wrapping_add(lane.wrapping_mul(PRIME64_2)), 31).wrapping_mul(PRIME64_1)
}

/// Merges a lane into the converged accumulator.
pub open spec fn merge(acc: u64, lane: u64) -> u64 {
    (acc ^ xround(0, lane)).wrapping_mul(PRIME64_1).wrapping_add(PRIME64_4)
}

/// The four lanes before any stripe.
pub open spec fn init_lanes(seed: u64) -> Seq<u64> {
    seq![
        seed.wrapping_add(PRIME64_1).wrapping_add(PRIME64_2),
        seed.wrapping_add(PRIME64_2),
        seed,
        seed.wrapping_sub(PRIME64_1),
    ]
}

/// The lanes after the stripe of `m` at `off`.
pub open spec fn stripe(acc: Seq<u64>, m: Seq<u8>, off: int) -> Seq<u64> {
    Seq::new(4, |j: int| xround(acc[j], word_at(m, off + 8 * j)))
}

/// The lanes after the first `k` stripes of `m`.
pub open spec fn stripes(acc: Seq<u64>, m: Seq<u8>, k: nat) -> Seq<u64>
    decreases k,
{
    if k == 0 {
        acc
    } else {
        stripe(stripes(acc, m, (k - 1) as nat), m, 32 * (k - 1))
    }
}

/// The four lanes folded into one word.
pub open spec fn converge(a: Seq<u64>) -> u64 {
    let h = rotl(a[0], 1).wrapping_add(rotl(a[1], 7)).wrapping_add(rotl(a[2], 12)).wrapping_add(
        rotl(a[3], 18),
    );
    merge(merge(merge(merge(h, a[0]), a[1]), a[2]), a[3])
}

/// A trailing 8-byte word mixed into `h`.
pub open spec fn step8(h: u64, w: u64) -> u64 {
    rotl(h ^ xround(0, w), 27).wrapping_mul(PRIME64_1).wrapping_add(PRIME64_4)
}

/// A trailing 4-byte word mixed into `h`.
pub open spec fn step4(h: u64, w: u64) -> u64 {
    rotl(h ^ w.wrapping_mul(PRIME64_1), 23).wrapping_mul(PRIME64_2).wrapping_add(PRIME64_3)
}

/// A trailing byte mixed into `h`.
pub open spec fn step1(h: u64, b: u8) -> u64 {
    rotl(h ^ (b as u64).wrapping_mul(PRIME64_5), 11).wrapping_mul(PRIME64_1)
}

/// `h` after the `n` 8-byte words of `m` from `off`.
pub open spec fn tail8(h: u64, m: Seq<u8>, off: int, n: nat) -> u64
    decreases n,
{
    if n == 0 {
        h
    } else {
        step8(tail8(h, m, off, (n - 1) as nat), word_at(m, off + 8 * (n - 1)))
    }
}

/// `h` after the `n` bytes of `m` from `off`.
pub open spec fn tail1(h: u64, m: Seq<u8>, off: int, n: nat) -> u64
    decreases n,
{
    if n == 0 {
        h
    } else {
        step1(tail1(h, m, off, (n - 1) as nat), m[off + n - 1])
    }
}

/// The final avalanche.
pub open spec fn avalanche(h: u64) -> u64 {
    let h1 = (h ^ (h >> 33u64)).wrapping_mul(PRIME64_2);
    let h2 = (h1 ^ (h1 >> 29u64)).wrapping_mul(PRIME64_3);
    h2 ^ (h2 >> 32u64)
}

/// xxHash64 of `m` with `seed`.
pub open spec fn xxh64(seed: u64, m: Seq<u8>) -> u64 {
    let len = m.len();
    let base = 32 * (len / 32);
    let h0 = if len < 32 {
        seed.wrapping_add(PRIME64_5)
    } else {
        converge(stripes(init_lanes(seed), m, len / 32))
    };
    let h1 = h0.wrapping_add(len as u64);
    let n8 = (len - base) / 8;
    let off4 = base + 8 * n8;
    let h2 = tail8(h1, m, base as int, n8 as nat);
    let four = len - off4 >= 4;
    let h3 = if four {
        step4(h2, le_val(m.subrange(off4 as int, off4 + 4)) as u64)
    } else {
        h2
    };
    let off1 = if four {
        off4 + 4
    } else {
        off4
    };
    avalanche(tail1(h3, m, off1 as int, (len - off1) as nat))
}

fn round(acc: u64, lane: u64) -> (r: u64)
    ensures
        r == xround(acc, lane),
{
    rotate_left(acc.wrapping_add(lane.wrapping_mul(PRIME64_2)), 31).wrapping_mul(PRIME64_1)
}

fn merge_accumulator(acc: u64, lane: u64) -> (r: u64)
    ensures
        r == merge(acc, lane),
{
    (acc ^ round(0, lane)).wrapping_mul(PRIME64_1).wrapping_add(PRIME64_4)
}

/// Folds the four lanes into one word.
fn converge_lanes(a: &[u64; 4]) -> (r: u64)
    ensures
        r == converge(a@),
{
    let c = rotate_left(a[0], 1).wrapping_add(rotate_left(a[1], 7)).wrapping_add(
        rotate_left(a[2], 12),
    ).wrapping_add(rotate_left(a[3], 18));
    merge_accumulator(
        merge_accumulator(merge_accumulator(merge_accumulator(c, a[0]), a[1]), a[2]),
        a[3],
    )
}

/// Mixes the stripe of `src` at `off` into the lanes.
fn process_stripe(acc: &mut [u64; 4], src: &[u8], off: usize)
    requires
        off + 32 <= src@.len(),
    ensures
        final(acc)@ == stripe(old(acc)@, src@, off as int),
{
    let ghost a0 = acc@;
    let len = src.len();
    assert(off + 32 <= len);
    acc[0] = round(acc[0], read_u64(src, off));
    acc[1] = round(acc[1], read_u64(src, off + 8));
    acc[2] = round(acc[2], read_u64(src, off + 16));
    acc[3] = round(acc[3], read_u64(src, off + 24));
    assert(acc@ =~= stripe(a0, src@, off as int));
}

proof fn lemma_stripe_shift(acc: Seq<u64>, a: Seq<u8>, pa: int, b: Seq<u8>, pb: int)
    requires
        0 <= pa,
        pa + 32 <= a.len(),
        0 <= pb,
        pb + 32 <= b.len(),
        a.subrange(pa, pa + 32) == b.subrange(pb, pb + 32),
    ensures
        stripe(acc, a, pa) == stripe(acc, b, pb),
{
    assert forall|j: int| 0 <= j < 4 implies #[trigger] stripe(acc, a, pa)[j] == stripe(
        acc,
        b,
        pb,
    )[j] by {
        assert(a.subrange(pa + 8 * j, pa + 8 * j + 8) =~= a.subrange(pa, pa + 32).subrange(
            8 * j,
            8 * j + 8,
        ));
        assert(b.subrange(pb + 8 * j, pb + 8 * j + 8) =~= b.subrange(pb, pb + 32).subrange(
            8 * j,
            8 * j + 8,
        ));
    }
    assert(stripe(acc, a, pa) =~= stripe(acc, b, pb));
}

proof fn lemma_stripes_prefix(acc: Seq<u64>, m: Seq<u8>, m2: Seq<u8>, k: nat)
    requires
        32 * k <= m.len() <= m2.len(),
        m2.subrange(0, m.len() as int) == m,
    ensures
        stripes(acc, m, k) == stripes(acc, m2, k),
    decreases k,
{
    if k > 0 {
        lemma_stripes_prefix(acc, m, m2, (k - 1) as nat);
        let off = 32 * (k - 1);
        assert(m.subrange(off, off + 32) =~= m2.subrange(off, off + 32));
        lemma_stripe_shift(stripes(acc, m, (k - 1) as nat), m, off, m2, off);
    }
}

/// Mixes the whole stripes of `bytes` from `pos` into the lanes, which hold
/// the stripes of `m + bytes` before `m.len() + pos`; returns where they end.
fn absorb_stripes(
    acc: &mut [u64; 4],
    bytes: &[u8],
    pos: usize,
    Ghost(init): Ghost<Seq<u64>>,
    Ghost(m): Ghost<Seq<u8>>,
) -> (end: usize)
    requires
        pos <= bytes@.len(),
        (m.len() + pos) % 32 == 0,
        old(acc)@ == stripes(init, m + bytes@, ((m.len() + pos) / 32) as nat),
    ensures
        pos <= end <= bytes@.len(),
        bytes@.len() - end < 32,
        (m.len() + end) % 32 == 0,
        final(acc)@ == stripes(init, m + bytes@, ((m.len() + end) / 32) as nat),
{
    let n = bytes.len();
    let ghost m2 = m + bytes@;
    let mut pos = pos;
    while n - pos >= STRIPE
        invariant
            pos <= n == bytes@.len(),
            m2 == m + bytes@,
            (m.len() + pos) % 32 == 0,
            acc@ == stripes(init, m2, ((m.len() + pos) / 32) as nat),
        decreases n - pos,
    {
        proof {
            let at = m.len() + pos;
            let k = (at / 32) as nat;
            assert(32 * k == at);
            assert(bytes@.subrange(pos as int, pos + 32) =~= m2.subrange(at, at + 32));
            lemma_stripe_shift(stripes(init, m2, k), bytes@, pos as int, m2, at);
            assert(stripes(init, m2, k + 1) == stripe(stripes(init, m2, k), m2, at));
            assert((at + 32) / 32 == k + 1);
        }
        process_stripe(acc, bytes, pos);
        pos = pos + STRIPE;
    }
    pos
}

/// Hasher using the xxHash64 algorithm.
pub struct Xxh64 {
    acc: [u64; 4],
    buffer: [u8; STRIPE],
    buffer_len: usize,
    total_len: u64,
    seed: u64,
    written: Ghost<Seq<u8>>,
}

impl Xxh64 {
    #[verifier::type_invariant]
    spec fn inv(self) -> bool {
        let m = self.written@;
        let len = m.len();
        let bl = self.buffer_len as int;
        &&& self.total_len == len
        &&& bl == len % 32
        &&& self.buffer@.subrange(0, bl) == m.subrange(len - bl, len as int)
        &&& self.acc@ == stripes(init_lanes(self.seed), m, len / 32)
    }

    /// The bytes written so far.
    pub closed spec fn input(&self) -> Seq<u8> {
        self.written@
    }

    /// The seed.
    pub closed spec fn seed(&self) -> u64 {
        self.seed
    }

    /// The digest of the bytes written so far.
    pub open spec fn digest(&self) -> u64 {
        xxh64(self.seed(), self.input())
    }

    /// Creates a hasher with seed zero.
    pub fn new() -> (r: Self)
        ensures
            r.seed() == 0,
            r.input() == Seq::<u8>::empty(),
    {
        Self::with_seed(0)
    }

    /// Creates a hasher with `seed`.
    pub fn with_seed(seed: u64) -> (r: Self)
        ensures
            r.seed() == seed,
            r.input() == Seq::<u8>::empty(),
    {
        let buffer: [u8; STRIPE] = [0; STRIPE];
        let acc: [u64; 4] = [
            seed.wrapping_add(PRIME64_1).wrapping_add(PRIME64_2),
            seed.wrapping_add(PRIME64_2),
            seed,
            seed.wrapping_sub(PRIME64_1),
        ];
        proof {
            assert(buffer@.subrange(0, 0) =~= Seq::<u8>::empty().subrange(0, 0));
            assert(acc@ =~= init_lanes(seed));
        }
        Xxh64 { acc, buffer, buffer_len: 0, total_len: 0, seed, written: Ghost(Seq::empty()) }
    }

    /// Feeds `bytes` into the hash.
    #[verifier::rlimit(40)]
    pub fn write(&mut self, bytes: &[u8])
        requires
            old(self).input().len() + bytes@.len() <= u64::MAX,
        ensures
            final(self).input() == old(self).input() + bytes@,
            final(self).seed() == old(self).seed(),
    {
        proof {
            use_type_invariant(&*self);
        }
        let n = bytes.len();
        let ghost m = self.written@;
        let ghost m2 = m + bytes@;
        let seed = self.seed;
        let ghost init = init_lanes(seed);
        let mut acc = self.acc;
        let mut buffer = self.buffer;
        let mut bl = self.buffer_len;
        let mut pos: usize = 0;
        proof {
            assert(m2.subrange(0, m.len() as int) =~= m);
            lemma_stripes_prefix(init, m, m2, m.len() / 32);
        }
        if bl > 0 {
            let take = if n < STRIPE - bl {
                n
            } else {
                STRIPE - bl
            };
            copy_bytes(&mut buffer, bl, bytes, 0, take);
            let ghost start = m.len() - bl;
            proof {
                assert(buffer@.subrange(0, bl + take) =~= m2.subrange(start, m.len() + take));
            }
            bl = bl + take;
            pos = take;
            if bl == STRIPE {
                proof {
                    let k = (m.len() / 32) as nat;
                    assert(32 * k == start);
                    lemma_stripe_shift(stripes(init, m2, k), buffer@, 0, m2, start);
                    assert(stripes(init, m2, k + 1) == stripe(
                        stripes(init, m2, k),
                        m2,
                        start,
                    ));
                    assert((m.len() + pos) / 32 == k + 1);
                }
                process_stripe(&mut acc, buffer.as_slice(), 0);
                bl = 0;
            }
        }
        if bl == 0 {
            pos = absorb_stripes(&mut acc, bytes, pos, Ghost(init), Ghost(m));
            let r = n - pos;
            copy_bytes(&mut buffer, 0, bytes, pos, r);
            proof {
                assert(buffer@.subrange(0, r as int) =~= m2.subrange(
                    m2.len() - r,
                    m2.len() as int,
                ));
            }
            bl = r;
        }
        *self = Xxh64 {
            acc,
            buffer,
            buffer_len: bl,
            total_len: self.total_len + n as u64,
            seed,
            written: Ghost(m2),
        };
    }

    /// The digest of the bytes written so far; the hasher is left unchanged.
    #[verifier::rlimit(40)]
    pub fn finish(&self) -> (r: u64)
        ensures
            r == self.digest(),
    {
        proof {
            use_type_invariant(self);
        }
        let ghost m = self.written@;
        let len = self.total_len;
        let bl = self.buffer_len;
        let ghost base: int = m.len() - bl;
        let mut h = if len < 32 {
            self.seed.wrapping_add(PRIME64_5)
        } else {
            converge_lanes(&self.acc)
        };
        h = h.wrapping_add(len);
        let ghost h1 = h;
        let buf = self.buffer.as_slice();
        let mut off: usize = 0;
        while bl - off >= 8
            invariant
                off <= bl < 32,
                off % 8 == 0,
                0 <= base,
                buf@ == self.buffer@,
                base == m.len() - bl,
                self.buffer@.subrange(0, bl as int) == m.subrange(base, m.len() as int),
                h == tail8(h1, m, base, (off / 8) as nat),
            decreases bl - off,
        {
            proof {
                lemma_window(buf@, m, base, bl as int, off as int, off + 8);
                assert((off + 8) / 8 == off / 8 + 1);
            }
            h = rotate_left(h ^ round(0, read_u64(buf, off)), 27).wrapping_mul(
                PRIME64_1,
            ).wrapping_add(PRIME64_4);
            off = off + 8;
        }
        if bl - off >= 4 {
            proof {
                lemma_window(buf@, m, base, bl as int, off as int, off + 4);
            }
            let w = read_le(buf, off, 4);
            h = rotate_left(h ^ w.wrapping_mul(PRIME64_1), 23).wrapping_mul(
                PRIME64_2,
            ).wrapping_add(PRIME64_3);
            off = off + 4;
        }
        let ghost h3 = h;
        let ghost off1 = off;
        while off < bl
            invariant
                off1 <= off <= bl < 32,
                0 <= base,
                buf@ == self.buffer@,
                base == m.len() - bl,
                self.buffer@.subrange(0, bl as int) == m.subrange(base, m.len() as int),
                h == tail1(h3, m, base + off1, (off - off1) as nat),
            decreases bl - off,
        {
            proof {
                lemma_window(buf@, m, base, bl as int, off as int, off + 1);
                assert(buf@.subrange(off as int, off + 1)[0] == buf@[off as int]);
                assert(m.subrange(base + off, base + off + 1)[0] == m[base + off]);
                assert((off + 1 - off1) as nat == (off - off1) as nat + 1);
            }
            h = rotate_left(h ^ (buf[off] as u64).wrapping_mul(PRIME64_5), 11).wrapping_mul(
                PRIME64_1,
            );
            off = off + 1;
        }
        proof {
            assert(base == 32 * (m.len() / 32));
        }
        h = (h ^ (h >> 33)).wrapping_mul(PRIME64_2);
        h = (h ^ (h >> 29)).wrapping_mul(PRIME64_3);
        h ^ (h >> 32)
    }
}


impl Hasher<u64> for Xxh64 {
    open spec fn written(&self) -> Seq<u8> {
        self.input()
    }

    open spec fn ints_little(&self) -> bool {
        host_little()
    }

    fn writes_ints_little(&self) -> (r: bool) {
        host_is_little_endian()
    }

    open spec fn digest_of(&self, m: Seq<u8>) -> u64 {
        xxh64(self.seed(), m)
    }

    fn finish(&self) -> (r: u64) {
        Xxh64::finish(self)
    }

    fn write(&mut self, bytes: &[u8]) {
        Xxh64::write(self, bytes)
    }
}

/// Factory of [`Xxh64`] hashers with a given seed.
pub struct Xxh64BuildHasher {
    seed: u64,
}

impl Xxh64BuildHasher {
    /// The seed of the hashers built.
    pub closed spec fn seed(&self) -> u64 {
        self.seed
    }

    /// A factory with seed zero.
    pub fn new() -> (r: Self)
        ensures
            r.seed() == 0,
    {
        Xxh64BuildHasher { seed: 0 }
    }

    /// A factory with `seed`.
    pub fn with_seed(seed: u64) -> (r: Self)
        ensures
            r.seed() == seed,
    {
        Xxh64BuildHasher { seed }
    }
}

impl BuildHasher<u64> for Xxh64BuildHasher {
    type Hasher = Xxh64;

    open spec fn ints_little(&self) -> bool {
        host_little()
    }

    open spec fn digest_of(&self, m: Seq<u8>) -> u64 {
        xxh64(self.seed(), m)
    }

    fn build_hasher(&self) -> (h: Xxh64) {
        Xxh64::with_seed(self.seed)
    }
}

impl Default for Xxh64 {
    fn default() -> (r: Self)
        ensures
            r.seed() == 0,
            r.input() == Seq::<u8>::empty(),
    {
        Self::new()
    }
}

impl Default for Xxh64BuildHasher {
    fn default() -> (r: Self)
        ensures
            r.seed() == 0,
    {
        Self::new()
    }
}

impl Clone for Xxh64 {
    /// An independent hasher in the same state.
    fn clone(&self) -> (r: Self)
        ensures
            r.seed() == self.seed(),
            r.input() == self.input(),
    {
        proof {
            use_type_invariant(self);
        }
        Xxh64 {
            acc: self.acc,
            buffer: self.buffer,
            buffer_len: self.buffer_len,
            total_len: self.total_len,
            seed: self.seed,
            written: Ghost(self.written@),
        }
    }
}

} // verus!
