//! FNV-1 and FNV-1a: one multiply and one xor per byte, no finalization.

use core::marker::PhantomData;
use vstd::prelude::*;
use crate::hasher::{host_is_little_endian, host_little, BuildHasher, Hasher};

verus! {

/// An integer type that FNV can run on, with its offset basis and prime.
pub trait Type: Copy + Sized {
    /// The offset basis: the default seed.
    spec fn spec_offset_basis() -> Self;

    /// The FNV prime of this width.
    spec fn spec_prime() -> Self;

    /// Multiplication modulo 2 to the width.
    spec fn spec_mul(a: Self, b: Self) -> Self;

    /// `a` with a byte xored into its lowest eight bits.
    spec fn spec_xor(a: Self, b: u8) -> Self;

    /// The offset basis.
    fn offset_basis() -> (r: Self)
        ensures
            r == Self::spec_offset_basis(),
    ;

    /// The prime.
    fn prime() -> (r: Self)
        ensures
            r == Self::spec_prime(),
    ;

    /// Wrapping multiplication.
    fn mul_wrapping(self, rhs: Self) -> (r: Self)
        ensures
            r == Self::spec_mul(self, rhs),
    ;

    /// Xors a byte into the lowest eight bits.
    fn xor_byte(self, b: u8) -> (r: Self)
        ensures
            r == Self::spec_xor(self, b),
    ;
}

impl Type for u32 {
    open spec fn spec_offset_basis() -> u32 {
        0x811c9dc5
    }

    open spec fn spec_prime() -> u32 {
        0x01000193
    }

    open spec fn spec_mul(a: u32, b: u32) -> u32 {
        a.wrapping_mul(b)
    }

    open spec fn spec_xor(a: u32, b: u8) -> u32 {
        a ^ (b as u32)
    }

    fn offset_basis() -> (r: u32) {
        0x811c9dc5
    }

    fn prime() -> (r: u32) {
        0x01000193
    }

    fn mul_wrapping(self, rhs: u32) -> (r: u32) {
        self.wrapping_mul(rhs)
    }

    fn xor_byte(self, b: u8) -> (r: u32) {
        self ^ (b as u32)
    }
}

impl Type for u64 {
    open spec fn spec_offset_basis() -> u64 {
        0xcbf29ce484222325
    }

    open spec fn spec_prime() -> u64 {
        0x100000001b3
    }

    open spec fn spec_mul(a: u64, b: u64) -> u64 {
        a.wrapping_mul(b)
    }

    open spec fn spec_xor(a: u64, b: u8) -> u64 {
        a ^ (b as u64)
    }

    fn offset_basis() -> (r: u64) {
        0xcbf29ce484222325
    }

    fn prime() -> (r: u64) {
        0x100000001b3
    }

    fn mul_wrapping(self, rhs: u64) -> (r: u64) {
        self.wrapping_mul(rhs)
    }

    fn xor_byte(self, b: u8) -> (r: u64) {
        self ^ (b as u64)
    }
}

impl Type for u128 {
    open spec fn spec_offset_basis() -> u128 {
        0x6c62272e07bb014262b821756295c58d
    }

    open spec fn spec_prime() -> u128 {
        0x0000000001000000000000000000013b
    }

    open spec fn spec_mul(a: u128, b: u128) -> u128 {
        a.wrapping_mul(b)
    }

    open spec fn spec_xor(a: u128, b: u8) -> u128 {
        a ^ (b as u128)
    }

    fn offset_basis() -> (r: u128) {
        0x6c62272e07bb014262b821756295c58d
    }

    fn prime() -> (r: u128) {
        0x0000000001000000000000000000013b
    }

    fn mul_wrapping(self, rhs: u128) -> (r: u128) {
        self.wrapping_mul(rhs)
    }

    fn xor_byte(self, b: u8) -> (r: u128) {
        self ^ (b as u128)
    }
}

/// Selects the FNV variant: whether each byte is xored in before the multiply.
pub trait Version {
    /// Whether the xor comes before the multiply (FNV-1a) or after it (FNV-1).
    spec fn spec_xor_first() -> bool;

    /// Whether the xor comes before the multiply.
    fn xor_before_multiply() -> (r: bool)
        ensures
            r == Self::spec_xor_first(),
    ;
}

/// Selector for FNV-1: multiply, then xor.
#[derive(Clone, Copy, Debug, Default)]
pub struct V1;

/// Selector for FNV-1a: xor, then multiply.
#[derive(Clone, Copy, Debug, Default)]
pub struct V1A;

impl Version for V1 {
    open spec fn spec_xor_first() -> bool {
        false
    }

    fn xor_before_multiply() -> (r: bool) {
        false
    }
}

impl Version for V1A {
    open spec fn spec_xor_first() -> bool {
        true
    }

    fn xor_before_multiply() -> (r: bool) {
        true
    }
}

/// One byte folded into the accumulator.
pub open spec fn fnv_step<T: Type>(xor_first: bool, h: T, b: u8) -> T {
    if xor_first {
        T::spec_mul(T::spec_xor(h, b), T::spec_prime())
    } else {
        T::spec_xor(T::spec_mul(h, T::spec_prime()), b)
    }
}

/// FNV of `m` starting from `seed`: every byte folded in, in order.
pub open spec fn fnv<T: Type>(xor_first: bool, seed: T, m: Seq<u8>) -> T
    decreases m.len(),
{
    if m.len() == 0 {
        seed
    } else {
        fnv_step(xor_first, fnv(xor_first, seed, m.drop_last()), m.last())
    }
}

/// Hasher using a variant of the FNV algorithm.
pub struct Fnv<T: Type, V: Version> {
    hash: T,
    seed: Ghost<T>,
    written: Ghost<Seq<u8>>,
    version: PhantomData<V>,
}

/// Hasher using FNV-1a.
pub type Fnv1a<T> = Fnv<T, V1A>;

/// FNV-1a with a 32-bit digest.
pub type Fnv1a32 = Fnv1a<u32>;

/// FNV-1a with a 64-bit digest.
pub type Fnv1a64 = Fnv1a<u64>;

/// FNV-1a with a 128-bit digest.
pub type Fnv1a128 = Fnv1a<u128>;

impl<T: Type, V: Version> Fnv<T, V> {
    #[verifier::type_invariant]
    spec fn inv(self) -> bool {
        self.hash == fnv(V::spec_xor_first(), self.seed@, self.written@)
    }

    /// The bytes written so far.
    pub closed spec fn input(&self) -> Seq<u8> {
        self.written@
    }

    /// The seed: the accumulator before any byte.
    pub closed spec fn seed(&self) -> T {
        self.seed@
    }

    /// Creates a hasher seeded with the offset basis.
    pub fn new() -> (r: Self)
        ensures
            r.seed() == T::spec_offset_basis(),
            r.input() == Seq::<u8>::empty(),
    {
        Self::with_seed(T::offset_basis())
    }

    /// Creates a hasher seeded with `seed`.
    pub fn with_seed(seed: T) -> (r: Self)
        ensures
            r.seed() == seed,
            r.input() == Seq::<u8>::empty(),
    {
        Fnv { hash: seed, seed: Ghost(seed), written: Ghost(Seq::empty()), version: PhantomData }
    }
}

impl<T: Type, V: Version> Hasher<T> for Fnv<T, V> {
    open spec fn written(&self) -> Seq<u8> {
        self.input()
    }

    open spec fn ints_little(&self) -> bool {
        host_little()
    }

    fn writes_ints_little(&self) -> (r: bool) {
        host_is_little_endian()
    }

    open spec fn digest_of(&self, m: Seq<u8>) -> T {
        fnv(V::spec_xor_first(), self.seed(), m)
    }

    fn finish(&self) -> (r: T) {
        proof {
            use_type_invariant(self);
        }
        self.hash
    }

    fn write(&mut self, bytes: &[u8]) {
        proof {
            use_type_invariant(&*self);
        }
        let xor_first = V::xor_before_multiply();
        let prime = T::prime();
        let ghost m = self.written@;
        let ghost seed = self.seed@;
        let mut h = self.hash;
        let n = bytes.len();
        let mut i: usize = 0;
        assert(m + bytes@.subrange(0, 0) =~= m);
        while i < n
            invariant
                i <= n == bytes@.len(),
                xor_first == V::spec_xor_first(),
                prime == T::spec_prime(),
                h == fnv(xor_first, seed, m + bytes@.subrange(0, i as int)),
            decreases n - i,
        {
            let ghost before = m + bytes@.subrange(0, i as int);
            let ghost after = m + bytes@.subrange(0, i + 1);
            assert(after.drop_last() =~= before);
            assert(after.last() == bytes@[i as int]);
            let b = bytes[i];
            if xor_first {
                h = h.xor_byte(b).mul_wrapping(prime);
            } else {
                h = h.mul_wrapping(prime).xor_byte(b);
            }
            i = i + 1;
        }
        assert(m + bytes@.subrange(0, n as int) =~= m + bytes@);
        *self = Fnv { hash: h, seed: Ghost(seed), written: Ghost(m + bytes@), version: PhantomData };
    }
}

/// Factory of [`Fnv`] hashers with a given seed.
pub struct FnvBuildHasher<T: Type, V: Version> {
    seed: T,
    version: PhantomData<V>,
}

/// Factory of FNV-1a hashers with a given seed.
pub type Fnv1aBuildHasher<T> = FnvBuildHasher<T, V1A>;

impl<T: Type, V: Version> FnvBuildHasher<T, V> {
    /// The seed of the hashers built.
    pub closed spec fn seed(&self) -> T {
        self.seed
    }

    /// A factory seeded with the offset basis.
    pub fn new() -> (r: Self)
        ensures
            r.seed() == T::spec_offset_basis(),
    {
        Self::with_seed(T::offset_basis())
    }

    /// A factory seeded with `seed`.
    pub fn with_seed(seed: T) -> (r: Self)
        ensures
            r.seed() == seed,
    {
        FnvBuildHasher { seed, version: PhantomData }
    }
}

impl<T: Type, V: Version> BuildHasher<T> for FnvBuildHasher<T, V> {
    type Hasher = Fnv<T, V>;

    open spec fn ints_little(&self) -> bool {
        host_little()
    }

    open spec fn digest_of(&self, m: Seq<u8>) -> T {
        fnv(V::spec_xor_first(), self.seed(), m)
    }

    fn build_hasher(&self) -> (h: Fnv<T, V>) {
        Fnv::with_seed(self.seed)
    }
}

/// Factory of [`Fnv`] hashers seeded with the offset basis; it holds nothing.
pub struct FnvDefaultBuildHasher<V: Version> {
    version: PhantomData<V>,
}

/// Factory of FNV-1a hashers seeded with the offset basis.
pub type Fnv1aDefaultBuildHasher = FnvDefaultBuildHasher<V1A>;

impl<V: Version> FnvDefaultBuildHasher<V> {
    /// The factory.
    pub fn new() -> (r: Self) {
        FnvDefaultBuildHasher { version: PhantomData }
    }
}

impl<T: Type, V: Version> BuildHasher<T> for FnvDefaultBuildHasher<V> {
    type Hasher = Fnv<T, V>;

    open spec fn ints_little(&self) -> bool {
        host_little()
    }

    open spec fn digest_of(&self, m: Seq<u8>) -> T {
        fnv(V::spec_xor_first(), T::spec_offset_basis(), m)
    }

    fn build_hasher(&self) -> (h: Fnv<T, V>) {
        Fnv::new()
    }
}

impl<T: Type, V: Version> Default for Fnv<T, V> {
    fn default() -> (r: Self)
        ensures
            r.seed() == T::spec_offset_basis(),
            r.input() == Seq::<u8>::empty(),
    {
        Self::new()
    }
}

impl<T: Type, V: Version> Default for FnvBuildHasher<T, V> {
    fn default() -> (r: Self)
        ensures
            r.seed() == T::spec_offset_basis(),
    {
        Self::new()
    }
}

impl<V: Version> Default for FnvDefaultBuildHasher<V> {
    fn default() -> (r: Self) {
        Self::new()
    }
}

impl<T: Type, V: Version> Clone for Fnv<T, V> {
    /// An independent hasher in the same state.
    fn clone(&self) -> (r: Self)
        ensures
            r.seed() == self.seed(),
            r.input() == self.input(),
    {
        proof {
            use_type_invariant(self);
        }
        Fnv { hash: self.hash, seed: Ghost(self.seed@), written: Ghost(self.written@), version: PhantomData }
    }
}

} // verus!
