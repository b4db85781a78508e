//! Properties that hold of every hasher and every input.

use vstd::prelude::*;
use crate::fnv::{fnv, Type};
use crate::fnv::{FnvBuildHasher, FnvDefaultBuildHasher, Version as FnvVersion};
use crate::hasher::{BuildHasher, Hasher};
use vstd::string::StringSliceAdditionalSpecFns;
use vstd::utf8::{encode_scalar, encode_utf8};
use crate::spooky::{SpookyBuildHasherV, SpookyDefaultBuildHasherV, Version as SpookyVersion};
use crate::spooky::{join128, spooky_hash};
use crate::xxh64::xxh64;

verus! {

/// The bytes written after `w` once each of `chunks` has been written in turn.
pub open spec fn fed(w: Seq<u8>, chunks: Seq<Seq<u8>>) -> Seq<u8>
    decreases chunks.len(),
{
    if chunks.len() == 0 {
        w
    } else {
        fed(w, chunks.drop_last()) + chunks.last()
    }
}

/// The concatenation of `chunks`.
pub open spec fn concat(chunks: Seq<Seq<u8>>) -> Seq<u8>
    decreases chunks.len(),
{
    if chunks.len() == 0 {
        Seq::empty()
    } else {
        concat(chunks.drop_last()) + chunks.last()
    }
}

proof fn lemma_fed_concat(w: Seq<u8>, chunks: Seq<Seq<u8>>)
    ensures
        fed(w, chunks) == w + concat(chunks),
    decreases chunks.len(),
{
    if chunks.len() == 0 {
        assert(w + Seq::<u8>::empty() =~= w);
    } else {
        lemma_fed_concat(w, chunks.drop_last());
        assert(w + concat(chunks.drop_last()) + chunks.last() =~= w + (concat(chunks.drop_last())
            + chunks.last()));
    }
}

/// Chunk invariance: writing `chunks` one after another into any hasher
/// leaves the same digest as writing their concatenation in one call.
///
/// A hasher's `write` appends to what was written and leaves the digest of
/// each byte sequence unchanged, so the digest after the chunks is
/// `h.digest_of(fed(h.written(), chunks))`.
pub proof fn lemma_chunk_invariance<T, H: Hasher<T>>(h: H, chunks: Seq<Seq<u8>>)
    ensures
        h.digest_of(fed(h.written(), chunks)) == h.digest_of(h.written() + concat(chunks)),
{
    lemma_fed_concat(h.written(), chunks);
}

/// The same for xxHash64 from a fresh hasher: the digest of the chunks fed
/// one after another is xxHash64 of their concatenation.
pub proof fn lemma_xxh64_chunk_invariance(seed: u64, chunks: Seq<Seq<u8>>)
    ensures
        xxh64(seed, fed(Seq::empty(), chunks)) == xxh64(seed, concat(chunks)),
{
    lemma_fed_concat(Seq::empty(), chunks);
    assert(Seq::<u8>::empty() + concat(chunks) =~= concat(chunks));
}

/// The same for SpookyHash.
pub proof fn lemma_spooky_chunk_invariance(
    version: u8,
    seed1: u64,
    seed2: u64,
    chunks: Seq<Seq<u8>>,
)
    ensures
        spooky_hash(version, seed1, seed2, fed(Seq::empty(), chunks)) == spooky_hash(
            version,
            seed1,
            seed2,
            concat(chunks),
        ),
{
    lemma_fed_concat(Seq::empty(), chunks);
    assert(Seq::<u8>::empty() + concat(chunks) =~= concat(chunks));
}

/// The same for FNV.
pub proof fn lemma_fnv_chunk_invariance<T: Type>(xor_first: bool, seed: T, chunks: Seq<Seq<u8>>)
    ensures
        fnv(xor_first, seed, fed(Seq::empty(), chunks)) == fnv(xor_first, seed, concat(chunks)),
{
    lemma_fed_concat(Seq::empty(), chunks);
    assert(Seq::<u8>::empty() + concat(chunks) =~= concat(chunks));
}

/// FNV's seed is its digest of the empty input: the offset basis for the
/// default seed, and any custom seed unchanged.
pub proof fn lemma_fnv_empty<T: Type>(xor_first: bool, seed: T)
    ensures
        fnv(xor_first, seed, Seq::empty()) == seed,
{
}

/// FNV over `a + b` continues from the digest of `a` as if it were the seed.
pub proof fn lemma_fnv_continues<T: Type>(xor_first: bool, seed: T, a: Seq<u8>, b: Seq<u8>)
    ensures
        fnv(xor_first, seed, a + b) == fnv(xor_first, fnv(xor_first, seed, a), b),
    decreases b.len(),
{
    if b.len() == 0 {
        assert(a + b =~= a);
    } else {
        lemma_fnv_continues(xor_first, seed, a, b.drop_last());
        assert((a + b).drop_last() =~= a + b.drop_last());
    }
}

/// The low and the high 64 bits of a joined 128-bit value are its two halves.
pub proof fn lemma_join128_halves(lo: u64, hi: u64)
    ensures
        join128(lo, hi) as u64 == lo,
        (join128(lo, hi) >> 64u128) as u64 == hi,
{
    assert(((lo as u128) | ((hi as u128) << 64u128)) as u64 == lo) by (bit_vector);
    assert((((lo as u128) | ((hi as u128) << 64u128)) >> 64u128) as u64 == hi) by (bit_vector);
}

/// Cross-width consistency: a SpookyHash hasher's 64-bit and 32-bit digests
/// are the low 64 and 32 bits of its 128-bit digest, and the 32-bit digest is
/// the low half of the 64-bit one.
pub proof fn lemma_spooky_widths<V: crate::spooky::Version>(
    h: crate::spooky::SpookyV<V>,
    m: Seq<u8>,
)
    ensures
        Hasher::<u64>::digest_of(&h, m) == Hasher::<u128>::digest_of(&h, m) as u64,
        Hasher::<u32>::digest_of(&h, m) == Hasher::<u128>::digest_of(&h, m) as u32,
        Hasher::<u32>::digest_of(&h, m) == Hasher::<u64>::digest_of(&h, m) as u32,
{
    let x = Hasher::<u128>::digest_of(&h, m);
    assert((x as u64) as u32 == x as u32) by (bit_vector);
}

/// The default SpookyHash factory is the seeded one with both seeds zero: they
/// give the same digest of every input, at every width.
pub proof fn lemma_spooky_default_is_zero_seed<V: SpookyVersion>(
    seeded: SpookyBuildHasherV<V>,
    default: SpookyDefaultBuildHasherV<V>,
    m: Seq<u8>,
)
    requires
        seeded.seed1() == 0,
        seeded.seed2() == 0,
    ensures
        BuildHasher::<u128>::digest_of(&seeded, m) == BuildHasher::<u128>::digest_of(&default, m),
        BuildHasher::<u64>::digest_of(&seeded, m) == BuildHasher::<u64>::digest_of(&default, m),
        BuildHasher::<u32>::digest_of(&seeded, m) == BuildHasher::<u32>::digest_of(&default, m),
{
}

/// The default FNV factory is the seeded one at the offset basis.
pub proof fn lemma_fnv_default_is_offset_basis<T: Type, V: FnvVersion>(
    seeded: FnvBuildHasher<T, V>,
    default: FnvDefaultBuildHasher<V>,
    m: Seq<u8>,
)
    requires
        seeded.seed() == T::spec_offset_basis(),
    ensures
        BuildHasher::<T>::digest_of(&seeded, m) == BuildHasher::<T>::digest_of(&default, m),
{
}

proof fn lemma_scalar_bytes_not_ff(c: u32)
    ensures
        forall|i: int| 0 <= i < encode_scalar(c).len() ==> #[trigger] encode_scalar(c)[i] != 0xffu8,
{
    assert((c & 0x7F) as u8 != 0xffu8) by (bit_vector);
    assert(0xC0u8 | ((c >> 6u32) & 0x1F) as u8 != 0xffu8) by (bit_vector);
    assert(0xE0u8 | ((c >> 12u32) & 0x0F) as u8 != 0xffu8) by (bit_vector);
    assert(0xF0u8 | ((c >> 18u32) & 0x7) as u8 != 0xffu8) by (bit_vector);
    assert(0x80u8 | (c & 0x3F) as u8 != 0xffu8) by (bit_vector);
    assert(0x80u8 | ((c >> 6u32) & 0x3F) as u8 != 0xffu8) by (bit_vector);
    assert(0x80u8 | ((c >> 12u32) & 0x3F) as u8 != 0xffu8) by (bit_vector);
}

/// No UTF-8 text holds the byte `0xff`.
pub proof fn lemma_utf8_has_no_ff(chars: Seq<char>)
    ensures
        forall|i: int| 0 <= i < encode_utf8(chars).len() ==> #[trigger] encode_utf8(chars)[i] != 0xffu8,
    decreases chars.len(),
{
    if chars.len() > 0 {
        lemma_scalar_bytes_not_ff(chars[0] as u32);
        lemma_utf8_has_no_ff(chars.drop_first());
        let head = encode_scalar(chars[0] as u32);
        let tail = encode_utf8(chars.drop_first());
        assert forall|i: int| 0 <= i < (head + tail).len() implies #[trigger] (head + tail)[i]
            != 0xffu8 by {
            if i >= head.len() {
                assert((head + tail)[i] == tail[i - head.len()]);
            }
        }
    }
}

/// Strings are written prefix-free: when what one string writes, followed by
/// anything, equals what another string writes, followed by anything, the two
/// strings have the same bytes and what follows them is the same.
pub proof fn lemma_str_prefix_free<T>(a: &str, b: &str, rest_a: Seq<u8>, rest_b: Seq<u8>, little: bool)
    requires
        crate::hasher::Hash::<T>::hash_bytes(&a, little) + rest_a == crate::hasher::Hash::<T>::hash_bytes(&b, little) + rest_b,
    ensures
        a.spec_bytes() == b.spec_bytes(),
        rest_a == rest_b,
{
    let x = a.spec_bytes();
    let y = b.spec_bytes();
    let s = x + seq![0xffu8] + rest_a;
    assert(s =~= crate::hasher::Hash::<T>::hash_bytes(&a, little) + rest_a);
    assert(s =~= y + seq![0xffu8] + rest_b);
    lemma_utf8_has_no_ff(a@);
    lemma_utf8_has_no_ff(b@);
    if x.len() < y.len() {
        assert(s[x.len() as int] == 0xffu8);
        assert(s[x.len() as int] == y[x.len() as int]);
    } else if y.len() < x.len() {
        assert(s[y.len() as int] == 0xffu8);
        assert(s[y.len() as int] == x[y.len() as int]);
    }
    assert(x =~= s.subrange(0, x.len() as int));
    assert(y =~= s.subrange(0, y.len() as int));
    assert(rest_a =~= s.subrange(x.len() as int + 1, s.len() as int));
    assert(rest_b =~= s.subrange(y.len() as int + 1, s.len() as int));
}

} // verus!
