//! Unsigned integers wider than 128 bits, for FNV at 256, 512 and 1024 bits.
//! Their multiplication is bnum's.

use vstd::prelude::*;
use crate::bytes::{le_val, pow256};
use crate::fnv::{Fnv, FnvBuildHasher, Type, V1A};

verus! {

/// An unsigned integer of `N` bytes, stored least significant byte first.
#[derive(Clone, Copy, Debug, PartialEq, Eq)]
pub struct Uint<const N: usize> {
    bytes: [u8; N],
}

/// 256-bit unsigned integer.
pub type U256 = Uint<32>;

/// 512-bit unsigned integer.
pub type U512 = Uint<64>;

/// 1024-bit unsigned integer.
pub type U1024 = Uint<128>;

/// FNV-1a with a 256-bit digest.
pub type Fnv1a256 = Fnv<U256, V1A>;

/// FNV-1a with a 512-bit digest.
pub type Fnv1a512 = Fnv<U512, V1A>;

/// FNV-1a with a 1024-bit digest.
pub type Fnv1a1024 = Fnv<U1024, V1A>;

/// Factory of 256-bit FNV-1a hashers.
pub type Fnv1a256BuildHasher = FnvBuildHasher<U256, V1A>;

impl<const N: usize> Uint<N> {
    /// The bytes, least significant first.
    pub closed spec fn bytes(self) -> Seq<u8> {
        self.bytes@
    }

    /// The number this integer stands for.
    pub open spec fn value(self) -> nat {
        le_val(self.bytes())
    }

    /// The integer whose bytes, least significant first, are `bytes`.
    pub fn from_le_bytes(bytes: [u8; N]) -> (r: Self)
        ensures
            r.bytes() == bytes@,
    {
        Uint { bytes }
    }

    /// The bytes, least significant first.
    pub fn to_le_bytes(self) -> (r: [u8; N])
        ensures
            r@ == self.bytes(),
    {
        self.bytes
    }

    /// This integer with `b` xored into its lowest byte.
    fn xor_low_byte(self, b: u8) -> (r: Self)
        requires
            N > 0,
        ensures
            r == low_byte_xor(self, b),
    {
        let mut bytes = self.bytes;
        bytes[0] = bytes[0] ^ b;
        let r = Uint { bytes };
        proof {
            let p = self.bytes().update(0, self.bytes()[0] ^ b);
            assert(r.bytes() =~= p);
            let c = low_byte_xor(self, b);
            assert(c.bytes() == p);
            assert(c.bytes =~= r.bytes);
        }
        r
    }
}

/// The `N`-byte integer whose value is the product of those of `a` and `b`
/// modulo `256^N`.
pub open spec fn product_of<const N: usize>(a: Uint<N>, b: Uint<N>) -> Uint<N> {
    choose|r: Uint<N>| r.value() == (a.value() * b.value()) % pow256(N as nat)
}

/// `a` with `b` xored into its lowest byte.
pub open spec fn low_byte_xor<const N: usize>(a: Uint<N>, b: u8) -> Uint<N> {
    choose|r: Uint<N>| r.bytes() == a.bytes().update(0, a.bytes()[0] ^ b)
}

proof fn lemma_le_val_injective(a: Seq<u8>, b: Seq<u8>)
    requires
        a.len() == b.len(),
        le_val(a) == le_val(b),
    ensures
        a == b,
    decreases a.len(),
{
    if a.len() > 0 {
        let x = le_val(a.drop_first());
        let y = le_val(b.drop_first());
        let a0 = a[0] as nat;
        let b0 = b[0] as nat;
        assert(a0 + 256 * x == b0 + 256 * y);
        assert(a0 == b0 && x == y) by (nonlinear_arith)
            requires
                a0 + 256 * x == b0 + 256 * y,
                a0 < 256,
                b0 < 256,
        ;
        lemma_le_val_injective(a.drop_first(), b.drop_first());
        assert forall|i: int| 0 <= i < a.len() implies a[i] == b[i] by {
            if i > 0 {
                assert(a[i] == a.drop_first()[i - 1]);
                assert(b[i] == b.drop_first()[i - 1]);
            }
        }
        assert(a =~= b);
    }
}

proof fn lemma_product_of<const N: usize>(a: Uint<N>, b: Uint<N>, r: Uint<N>)
    requires
        r.value() == (a.value() * b.value()) % pow256(N as nat),
    ensures
        r == product_of(a, b),
{
    let c = product_of(a, b);
    assert(c.value() == r.value());
    assert(c.bytes@.len() == N && r.bytes@.len() == N);
    lemma_le_val_injective(c.bytes@, r.bytes@);
    assert(c.bytes =~= r.bytes);
}

/// Relies on bnum's `wrapping_mul` on its 256-bit unsigned integer: the
/// product modulo 2^256; `from_le_bytes` and `to_le_bytes` convert.
#[verifier::external_body]
fn mul_256(a: [u8; 32], b: [u8; 32]) -> (r: [u8; 32])
    ensures
        le_val(r@) == (le_val(a@) * le_val(b@)) % pow256(32),
{
    let x = bnum::types::U256::from_le_bytes(a);
    let y = bnum::types::U256::from_le_bytes(b);
    x.wrapping_mul(y).to_le_bytes()
}

impl Type for Uint<32> {
    /// The 256-bit offset basis, 0xdd268dbcaac550362d98c384c4e576ccc8b1536847b6bbb31023b4c8caee0535.
    closed spec fn spec_offset_basis() -> Self {
        Uint { bytes: [
            0x35, 0x05, 0xee, 0xca, 0xc8, 0xb4, 0x23, 0x10, 0xb3, 0xbb, 0xb6, 0x47,
            0x68, 0x53, 0xb1, 0xc8, 0xcc, 0x76, 0xe5, 0xc4, 0x84, 0xc3, 0x98, 0x2d,
            0x36, 0x50, 0xc5, 0xaa, 0xbc, 0x8d, 0x26, 0xdd,
        ] }
    }

    /// The 256-bit FNV prime, 0x1000000000000000000000000000000000000000163.
    closed spec fn spec_prime() -> Self {
        Uint { bytes: [
            0x63, 0x01, 0x00, 0x00, 0x00, 0x00, 0x00, 0x00, 0x00, 0x00, 0x00, 0x00,
            0x00, 0x00, 0x00, 0x00, 0x00, 0x00, 0x00, 0x00, 0x00, 0x01, 0x00, 0x00,
            0x00, 0x00, 0x00, 0x00, 0x00, 0x00, 0x00, 0x00,
        ] }
    }

    open spec fn spec_mul(a: Self, b: Self) -> Self {
        product_of(a, b)
    }

    open spec fn spec_xor(a: Self, b: u8) -> Self {
        low_byte_xor(a, b)
    }

    fn offset_basis() -> (r: Self) {
        Uint { bytes: [
            0x35, 0x05, 0xee, 0xca, 0xc8, 0xb4, 0x23, 0x10, 0xb3, 0xbb, 0xb6, 0x47,
            0x68, 0x53, 0xb1, 0xc8, 0xcc, 0x76, 0xe5, 0xc4, 0x84, 0xc3, 0x98, 0x2d,
            0x36, 0x50, 0xc5, 0xaa, 0xbc, 0x8d, 0x26, 0xdd,
        ] }
    }

    fn prime() -> (r: Self) {
        Uint { bytes: [
            0x63, 0x01, 0x00, 0x00, 0x00, 0x00, 0x00, 0x00, 0x00, 0x00, 0x00, 0x00,
            0x00, 0x00, 0x00, 0x00, 0x00, 0x00, 0x00, 0x00, 0x00, 0x01, 0x00, 0x00,
            0x00, 0x00, 0x00, 0x00, 0x00, 0x00, 0x00, 0x00,
        ] }
    }

    fn mul_wrapping(self, rhs: Self) -> (r: Self) {
        let r = Uint { bytes: mul_256(self.bytes, rhs.bytes) };
        proof {
            lemma_product_of(self, rhs, r);
        }
        r
    }

    fn xor_byte(self, b: u8) -> (r: Self) {
        self.xor_low_byte(b)
    }
}

/// Relies on bnum's `wrapping_mul` on its 512-bit unsigned integer: the
/// product modulo 2^512; `from_le_bytes` and `to_le_bytes` convert.
#[verifier::external_body]
fn mul_512(a: [u8; 64], b: [u8; 64]) -> (r: [u8; 64])
    ensures
        le_val(r@) == (le_val(a@) * le_val(b@)) % pow256(64),
{
    let x = bnum::types::U512::from_le_bytes(a);
    let y = bnum::types::U512::from_le_bytes(b);
    x.wrapping_mul(y).to_le_bytes()
}

impl Type for Uint<64> {
    /// The 512-bit offset basis, 0xb86db0b1171f4416dca1e50f309990acac87d059c90000000000000000000d21e948f68a34c192f62ea79bc942dbe7ce182036415f56e34bac982aac4afe9fd9.
    closed spec fn spec_offset_basis() -> Self {
        Uint { bytes: [
            0xd9, 0x9f, 0xfe, 0x4a, 0xac, 0x2a, 0x98, 0xac, 0x4b, 0xe3, 0x56, 0x5f,
            0x41, 0x36, 0x20, 0x18, 0xce, 0xe7, 0xdb, 0x42, 0xc9, 0x9b, 0xa7, 0x2e,
            0xf6, 0x92, 0xc1, 0x34, 0x8a, 0xf6, 0x48, 0xe9, 0x21, 0x0d, 0x00, 0x00,
            0x00, 0x00, 0x00, 0x00, 0x00, 0x00, 0x00, 0xc9, 0x59, 0xd0, 0x87, 0xac,
            0xac, 0x90, 0x99, 0x30, 0x0f, 0xe5, 0xa1, 0xdc, 0x16, 0x44, 0x1f, 0x17,
            0xb1, 0xb0, 0x6d, 0xb8,
        ] }
    }

    /// The 512-bit FNV prime, 0x100000000000000000000000000000000000000000000000000000000000000000000000000000000000157.
    closed spec fn spec_prime() -> Self {
        Uint { bytes: [
            0x57, 0x01, 0x00, 0x00, 0x00, 0x00, 0x00, 0x00, 0x00, 0x00, 0x00, 0x00,
            0x00, 0x00, 0x00, 0x00, 0x00, 0x00, 0x00, 0x00, 0x00, 0x00, 0x00, 0x00,
            0x00, 0x00, 0x00, 0x00, 0x00, 0x00, 0x00, 0x00, 0x00, 0x00, 0x00, 0x00,
            0x00, 0x00, 0x00, 0x00, 0x00, 0x00, 0x00, 0x01, 0x00, 0x00, 0x00, 0x00,
            0x00, 0x00, 0x00, 0x00, 0x00, 0x00, 0x00, 0x00, 0x00, 0x00, 0x00, 0x00,
            0x00, 0x00, 0x00, 0x00,
        ] }
    }

    open spec fn spec_mul(a: Self, b: Self) -> Self {
        product_of(a, b)
    }

    open spec fn spec_xor(a: Self, b: u8) -> Self {
        low_byte_xor(a, b)
    }

    fn offset_basis() -> (r: Self) {
        Uint { bytes: [
            0xd9, 0x9f, 0xfe, 0x4a, 0xac, 0x2a, 0x98, 0xac, 0x4b, 0xe3, 0x56, 0x5f,
            0x41, 0x36, 0x20, 0x18, 0xce, 0xe7, 0xdb, 0x42, 0xc9, 0x9b, 0xa7, 0x2e,
            0xf6, 0x92, 0xc1, 0x34, 0x8a, 0xf6, 0x48, 0xe9, 0x21, 0x0d, 0x00, 0x00,
            0x00, 0x00, 0x00, 0x00, 0x00, 0x00, 0x00, 0xc9, 0x59, 0xd0, 0x87, 0xac,
            0xac, 0x90, 0x99, 0x30, 0x0f, 0xe5, 0xa1, 0xdc, 0x16, 0x44, 0x1f, 0x17,
            0xb1, 0xb0, 0x6d, 0xb8,
        ] }
    }

    fn prime() -> (r: Self) {
        Uint { bytes: [
            0x57, 0x01, 0x00, 0x00, 0x00, 0x00, 0x00, 0x00, 0x00, 0x00, 0x00, 0x00,
            0x00, 0x00, 0x00, 0x00, 0x00, 0x00, 0x00, 0x00, 0x00, 0x00, 0x00, 0x00,
            0x00, 0x00, 0x00, 0x00, 0x00, 0x00, 0x00, 0x00, 0x00, 0x00, 0x00, 0x00,
            0x00, 0x00, 0x00, 0x00, 0x00, 0x00, 0x00, 0x01, 0x00, 0x00, 0x00, 0x00,
            0x00, 0x00, 0x00, 0x00, 0x00, 0x00, 0x00, 0x00, 0x00, 0x00, 0x00, 0x00,
            0x00, 0x00, 0x00, 0x00,
        ] }
    }

    fn mul_wrapping(self, rhs: Self) -> (r: Self) {
        let r = Uint { bytes: mul_512(self.bytes, rhs.bytes) };
        proof {
            lemma_product_of(self, rhs, r);
        }
        r
    }

    fn xor_byte(self, b: u8) -> (r: Self) {
        self.xor_low_byte(b)
    }
}

/// Relies on bnum's `wrapping_mul` on its 1024-bit unsigned integer: the
/// product modulo 2^1024; `from_le_bytes` and `to_le_bytes` convert.
#[verifier::external_body]
fn mul_1024(a: [u8; 128], b: [u8; 128]) -> (r: [u8; 128])
    ensures
        le_val(r@) == (le_val(a@) * le_val(b@)) % pow256(128),
{
    let x = bnum::types::U1024::from_le_bytes(a);
    let y = bnum::types::U1024::from_le_bytes(b);
    x.wrapping_mul(y).to_le_bytes()
}

impl Type for Uint<128> {
    /// The 1024-bit offset basis, 0x5f7a76758ecc4d32e56d5a591028b74b29fc4223fdada16c3bf34eda3674da9a21d9000000000000000000000000000000000000000000000000000000000000000000000000000000000000000000000000000004c6d7eb6e73802734510a555f256cc005ae556bde8cc9c6a93b21aff4b16c71ee90b3.
    closed spec fn spec_offset_basis() -> Self {
        Uint { bytes: [
            0xb3, 0x90, 0xee, 0x71, 0x6c, 0xb1, 0xf4, 0xaf, 0x21, 0x3b, 0xa9, 0xc6,
            0xc9, 0x8c, 0xde, 0x6b, 0x55, 0xae, 0x05, 0xc0, 0x6c, 0x25, 0x5f, 0x55,
            0x0a, 0x51, 0x34, 0x27, 0x80, 0x73, 0x6e, 0xeb, 0xd7, 0xc6, 0x04, 0x00,
            0x00, 0x00, 0x00, 0x00, 0x00, 0x00, 0x00, 0x00, 0x00, 0x00, 0x00, 0x00,
            0x00, 0x00, 0x00, 0x00, 0x00, 0x00, 0x00, 0x00, 0x00, 0x00, 0x00, 0x00,
            0x00, 0x00, 0x00, 0x00, 0x00, 0x00, 0x00, 0x00, 0x00, 0x00, 0x00, 0x00,
            0x00, 0x00, 0x00, 0x00, 0x00, 0x00, 0x00, 0x00, 0x00, 0x00, 0x00, 0x00,
            0x00, 0xd9, 0x21, 0x9a, 0xda, 0x74, 0x36, 0xda, 0x4e, 0xf3, 0x3b, 0x6c,
            0xa1, 0xad, 0xfd, 0x23, 0x42, 0xfc, 0x29, 0x4b, 0xb7, 0x28, 0x10, 0x59,
            0x5a, 0x6d, 0xe5, 0x32, 0x4d, 0xcc, 0x8e, 0x75, 0x76, 0x7a, 0x5f, 0x00,
            0x00, 0x00, 0x00, 0x00, 0x00, 0x00, 0x00, 0x00,
        ] }
    }

    /// The 1024-bit FNV prime, 0x10000000000000000000000000000000000000000000000000000000000000000000000000000000000000000000000000000000000000000000000000000000000000000000000000000000000000000000000018d.
    closed spec fn spec_prime() -> Self {
        Uint { bytes: [
            0x8d, 0x01, 0x00, 0x00, 0x00, 0x00, 0x00, 0x00, 0x00, 0x00, 0x00, 0x00,
            0x00, 0x00, 0x00, 0x00, 0x00, 0x00, 0x00, 0x00, 0x00, 0x00, 0x00, 0x00,
            0x00, 0x00, 0x00, 0x00, 0x00, 0x00, 0x00, 0x00, 0x00, 0x00, 0x00, 0x00,
            0x00, 0x00, 0x00, 0x00, 0x00, 0x00, 0x00, 0x00, 0x00, 0x00, 0x00, 0x00,
            0x00, 0x00, 0x00, 0x00, 0x00, 0x00, 0x00, 0x00, 0x00, 0x00, 0x00, 0x00,
            0x00, 0x00, 0x00, 0x00, 0x00, 0x00, 0x00, 0x00, 0x00, 0x00, 0x00, 0x00,
            0x00, 0x00, 0x00, 0x00, 0x00, 0x00, 0x00, 0x00, 0x00, 0x00, 0x00, 0x00,
            0x00, 0x01, 0x00, 0x00, 0x00, 0x00, 0x00, 0x00, 0x00, 0x00, 0x00, 0x00,
            0x00, 0x00, 0x00, 0x00, 0x00, 0x00, 0x00, 0x00, 0x00, 0x00, 0x00, 0x00,
            0x00, 0x00, 0x00, 0x00, 0x00, 0x00, 0x00, 0x00, 0x00, 0x00, 0x00, 0x00,
            0x00, 0x00, 0x00, 0x00, 0x00, 0x00, 0x00, 0x00,
        ] }
    }

    open spec fn spec_mul(a: Self, b: Self) -> Self {
        product_of(a, b)
    }

    open spec fn spec_xor(a: Self, b: u8) -> Self {
        low_byte_xor(a, b)
    }

    fn offset_basis() -> (r: Self) {
        Uint { bytes: [
            0xb3, 0x90, 0xee, 0x71, 0x6c, 0xb1, 0xf4, 0xaf, 0x21, 0x3b, 0xa9, 0xc6,
            0xc9, 0x8c, 0xde, 0x6b, 0x55, 0xae, 0x05, 0xc0, 0x6c, 0x25, 0x5f, 0x55,
            0x0a, 0x51, 0x34, 0x27, 0x80, 0x73, 0x6e, 0xeb, 0xd7, 0xc6, 0x04, 0x00,
            0x00, 0x00, 0x00, 0x00, 0x00, 0x00, 0x00, 0x00, 0x00, 0x00, 0x00, 0x00,
            0x00, 0x00, 0x00, 0x00, 0x00, 0x00, 0x00, 0x00, 0x00, 0x00, 0x00, 0x00,
            0x00, 0x00, 0x00, 0x00, 0x00, 0x00, 0x00, 0x00, 0x00, 0x00, 0x00, 0x00,
            0x00, 0x00, 0x00, 0x00, 0x00, 0x00, 0x00, 0x00, 0x00, 0x00, 0x00, 0x00,
            0x00, 0xd9, 0x21, 0x9a, 0xda, 0x74, 0x36, 0xda, 0x4e, 0xf3, 0x3b, 0x6c,
            0xa1, 0xad, 0xfd, 0x23, 0x42, 0xfc, 0x29, 0x4b, 0xb7, 0x28, 0x10, 0x59,
            0x5a, 0x6d, 0xe5, 0x32, 0x4d, 0xcc, 0x8e, 0x75, 0x76, 0x7a, 0x5f, 0x00,
            0x00, 0x00, 0x00, 0x00, 0x00, 0x00, 0x00, 0x00,
        ] }
    }

    fn prime() -> (r: Self) {
        Uint { bytes: [
            0x8d, 0x01, 0x00, 0x00, 0x00, 0x00, 0x00, 0x00, 0x00, 0x00, 0x00, 0x00,
            0x00, 0x00, 0x00, 0x00, 0x00, 0x00, 0x00, 0x00, 0x00, 0x00, 0x00, 0x00,
            0x00, 0x00, 0x00, 0x00, 0x00, 0x00, 0x00, 0x00, 0x00, 0x00, 0x00, 0x00,
            0x00, 0x00, 0x00, 0x00, 0x00, 0x00, 0x00, 0x00, 0x00, 0x00, 0x00, 0x00,
            0x00, 0x00, 0x00, 0x00, 0x00, 0x00, 0x00, 0x00, 0x00, 0x00, 0x00, 0x00,
            0x00, 0x00, 0x00, 0x00, 0x00, 0x00, 0x00, 0x00, 0x00, 0x00, 0x00, 0x00,
            0x00, 0x00, 0x00, 0x00, 0x00, 0x00, 0x00, 0x00, 0x00, 0x00, 0x00, 0x00,
            0x00, 0x01, 0x00, 0x00, 0x00, 0x00, 0x00, 0x00, 0x00, 0x00, 0x00, 0x00,
            0x00, 0x00, 0x00, 0x00, 0x00, 0x00, 0x00, 0x00, 0x00, 0x00, 0x00, 0x00,
            0x00, 0x00, 0x00, 0x00, 0x00, 0x00, 0x00, 0x00, 0x00, 0x00, 0x00, 0x00,
            0x00, 0x00, 0x00, 0x00, 0x00, 0x00, 0x00, 0x00,
        ] }
    }

    fn mul_wrapping(self, rhs: Self) -> (r: Self) {
        let r = Uint { bytes: mul_1024(self.bytes, rhs.bytes) };
        proof {
            lemma_product_of(self, rhs, r);
        }
        r
    }

    fn xor_byte(self, b: u8) -> (r: Self) {
        self.xor_low_byte(b)
    }
}

} // verus!
