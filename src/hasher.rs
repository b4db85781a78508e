//! The hashing abstraction: hashers that are generic over the digest type,
//! values that feed themselves into a hasher, and factories of hashers.

use vstd::prelude::*;
use vstd::endian::{endianness, Endian};
use vstd::string::StringSliceAdditionalSpecFns;
use crate::bytes::{be_bytes, le_bytes};

verus! {

/// The encoding of the low `n` bytes of `x`, least significant first when `little`.
pub open spec fn int_bytes(x: u128, n: nat, little: bool) -> Seq<u8> {
    if little {
        le_bytes(x, n)
    } else {
        be_bytes(x, n)
    }
}

/// Whether integers are laid out least significant byte first on this host.
pub open spec fn host_little() -> bool {
    endianness() == Endian::Little
}

/// The number of bytes in a `usize` on this host.
pub open spec fn usize_size() -> nat {
    core::mem::size_of::<usize>() as nat
}

/// Relies on `u16::from_ne_bytes`: the bytes `[1, 0]` read in the host's
/// byte order give 1 on a little-endian host and 256 on a big-endian one.
#[verifier::external_body]
fn probe_byte_order() -> (r: u16)
    ensures
        r == 1 || r == 256,
        r == 1 <==> host_little(),
{
    u16::from_ne_bytes([1, 0])
}

/// Whether integers are laid out least significant byte first on this host.
pub fn host_is_little_endian() -> (r: bool)
    ensures
        r == host_little(),
{
    probe_byte_order() == 1
}

/// The low `n` bytes of `x`, least significant first when `little`.
pub fn encode_int(x: u128, n: usize, little: bool) -> (r: Vec<u8>)
    requires
        n <= 16,
    ensures
        r@ == int_bytes(x, n as nat, little),
{
    let mut r: Vec<u8> = Vec::new();
    let mut i: usize = 0;
    while i < n
        invariant
            i <= n <= 16,
            r@.len() == i,
            forall|k: int|
                0 <= k < i ==> #[trigger] r@[k] == int_bytes(x, n as nat, little)[k],
        decreases n - i,
    {
        let shift: usize = if little {
            8 * i
        } else {
            8 * (n - 1 - i)
        };
        r.push((x >> (shift as u128)) as u8);
        i = i + 1;
    }
    assert(r@ =~= int_bytes(x, n as nat, little));
    r
}

/// The number of bytes in a `usize` on this host.
fn usize_bytes() -> (r: usize)
    ensures
        r == usize_size(),
        r == 4 || r == 8,
{
    proof {
        broadcast use vstd::layout::layout_of_primitives;
    }
    let r = core::mem::size_of::<usize>();
    assert(r * 8 == usize::BITS);
    r
}

/// A hasher whose digest is a `T`.
///
/// A hasher is described by the bytes written into it, by the digest it gives
/// for each byte sequence, and by the byte order of its integer writes.
/// Writing appends and changes neither of the latter two.
pub trait Hasher<T> {
    /// The bytes written so far.
    spec fn written(&self) -> Seq<u8>;

    /// The digest this hasher gives once exactly `m` has been written.
    spec fn digest_of(&self, m: Seq<u8>) -> T;

    /// Whether `write_u16`, `write_u32` and the like write least significant
    /// byte first.
    spec fn ints_little(&self) -> bool;

    /// Whether `write_u16`, `write_u32` and the like write least significant
    /// byte first.
    fn writes_ints_little(&self) -> (r: bool)
        ensures
            r == self.ints_little(),
    ;

    /// The digest of the bytes written so far.
    fn finish(&self) -> (r: T)
        ensures
            r == self.digest_of(self.written()),
    ;

    /// Writes `bytes`.
    fn write(&mut self, bytes: &[u8])
        requires
            old(self).written().len() + bytes@.len() <= u64::MAX,
        ensures
            final(self).written() == old(self).written() + bytes@,
            forall|m: Seq<u8>| #[trigger] final(self).digest_of(m) == old(self).digest_of(m),
            final(self).ints_little() == old(self).ints_little(),
    ;

    /// Writes one byte.
    fn write_u8(&mut self, i: u8)
        requires
            old(self).written().len() + 1 <= u64::MAX,
        ensures
            final(self).written() == old(self).written() + seq![i],
            forall|m: Seq<u8>| #[trigger] final(self).digest_of(m) == old(self).digest_of(m),
            final(self).ints_little() == old(self).ints_little(),
    {
        let b: [u8; 1] = [i];
        assert(b@ =~= seq![i]);
        self.write(b.as_slice());
    }

    /// Writes one signed byte.
    fn write_i8(&mut self, i: i8)
        requires
            old(self).written().len() + 1 <= u64::MAX,
        ensures
            final(self).written() == old(self).written() + seq![i as u8],
            forall|m: Seq<u8>| #[trigger] final(self).digest_of(m) == old(self).digest_of(m),
            final(self).ints_little() == old(self).ints_little(),
    {
        self.write_u8(i as u8);
    }

    /// Writes `i` least significant byte first.
    fn write_u16_le(&mut self, i: u16)
        requires
            old(self).written().len() + 2 <= u64::MAX,
        ensures
            final(self).written() == old(self).written() + int_bytes(i as u128, 2, true),
            forall|m: Seq<u8>| #[trigger] final(self).digest_of(m) == old(self).digest_of(m),
            final(self).ints_little() == old(self).ints_little(),
    {
        let b = encode_int(i as u128, 2, true);
        self.write(b.as_slice());
    }

    /// Writes `i` most significant byte first.
    fn write_u16_be(&mut self, i: u16)
        requires
            old(self).written().len() + 2 <= u64::MAX,
        ensures
            final(self).written() == old(self).written() + int_bytes(i as u128, 2, false),
            forall|m: Seq<u8>| #[trigger] final(self).digest_of(m) == old(self).digest_of(m),
            final(self).ints_little() == old(self).ints_little(),
    {
        let b = encode_int(i as u128, 2, false);
        self.write(b.as_slice());
    }

    /// Writes `i` in this hasher's integer byte order, by default the host's.
    fn write_u16(&mut self, i: u16)
        requires
            old(self).written().len() + 2 <= u64::MAX,
        ensures
            final(self).written() == old(self).written() + int_bytes(
                i as u128,
                2,
                old(self).ints_little(),
            ),
            forall|m: Seq<u8>| #[trigger] final(self).digest_of(m) == old(self).digest_of(m),
            final(self).ints_little() == old(self).ints_little(),
    {
        let b = encode_int(i as u128, 2, self.writes_ints_little());
        self.write(b.as_slice());
    }

    /// Writes `i` least significant byte first.
    fn write_u32_le(&mut self, i: u32)
        requires
            old(self).written().len() + 4 <= u64::MAX,
        ensures
            final(self).written() == old(self).written() + int_bytes(i as u128, 4, true),
            forall|m: Seq<u8>| #[trigger] final(self).digest_of(m) == old(self).digest_of(m),
            final(self).ints_little() == old(self).ints_little(),
    {
        let b = encode_int(i as u128, 4, true);
        self.write(b.as_slice());
    }

    /// Writes `i` most significant byte first.
    fn write_u32_be(&mut self, i: u32)
        requires
            old(self).written().len() + 4 <= u64::MAX,
        ensures
            final(self).written() == old(self).written() + int_bytes(i as u128, 4, false),
            forall|m: Seq<u8>| #[trigger] final(self).digest_of(m) == old(self).digest_of(m),
            final(self).ints_little() == old(self).ints_little(),
    {
        let b = encode_int(i as u128, 4, false);
        self.write(b.as_slice());
    }

    /// Writes `i` in this hasher's integer byte order, by default the host's.
    fn write_u32(&mut self, i: u32)
        requires
            old(self).written().len() + 4 <= u64::MAX,
        ensures
            final(self).written() == old(self).written() + int_bytes(
                i as u128,
                4,
                old(self).ints_little(),
            ),
            forall|m: Seq<u8>| #[trigger] final(self).digest_of(m) == old(self).digest_of(m),
            final(self).ints_little() == old(self).ints_little(),
    {
        let b = encode_int(i as u128, 4, self.writes_ints_little());
        self.write(b.as_slice());
    }

    /// Writes `i` least significant byte first.
    fn write_u64_le(&mut self, i: u64)
        requires
            old(self).written().len() + 8 <= u64::MAX,
        ensures
            final(self).written() == old(self).written() + int_bytes(i as u128, 8, true),
            forall|m: Seq<u8>| #[trigger] final(self).digest_of(m) == old(self).digest_of(m),
            final(self).ints_little() == old(self).ints_little(),
    {
        let b = encode_int(i as u128, 8, true);
        self.write(b.as_slice());
    }

    /// Writes `i` most significant byte first.
    fn write_u64_be(&mut self, i: u64)
        requires
            old(self).written().len() + 8 <= u64::MAX,
        ensures
            final(self).written() == old(self).written() + int_bytes(i as u128, 8, false),
            forall|m: Seq<u8>| #[trigger] final(self).digest_of(m) == old(self).digest_of(m),
            final(self).ints_little() == old(self).ints_little(),
    {
        let b = encode_int(i as u128, 8, false);
        self.write(b.as_slice());
    }

    /// Writes `i` in this hasher's integer byte order, by default the host's.
    fn write_u64(&mut self, i: u64)
        requires
            old(self).written().len() + 8 <= u64::MAX,
        ensures
            final(self).written() == old(self).written() + int_bytes(
                i as u128,
                8,
                old(self).ints_little(),
            ),
            forall|m: Seq<u8>| #[trigger] final(self).digest_of(m) == old(self).digest_of(m),
            final(self).ints_little() == old(self).ints_little(),
    {
        let b = encode_int(i as u128, 8, self.writes_ints_little());
        self.write(b.as_slice());
    }

    /// Writes `i` least significant byte first.
    fn write_u128_le(&mut self, i: u128)
        requires
            old(self).written().len() + 16 <= u64::MAX,
        ensures
            final(self).written() == old(self).written() + int_bytes(i as u128, 16, true),
            forall|m: Seq<u8>| #[trigger] final(self).digest_of(m) == old(self).digest_of(m),
            final(self).ints_little() == old(self).ints_little(),
    {
        let b = encode_int(i as u128, 16, true);
        self.write(b.as_slice());
    }

    /// Writes `i` most significant byte first.
    fn write_u128_be(&mut self, i: u128)
        requires
            old(self).written().len() + 16 <= u64::MAX,
        ensures
            final(self).written() == old(self).written() + int_bytes(i as u128, 16, false),
            forall|m: Seq<u8>| #[trigger] final(self).digest_of(m) == old(self).digest_of(m),
            final(self).ints_little() == old(self).ints_little(),
    {
        let b = encode_int(i as u128, 16, false);
        self.write(b.as_slice());
    }

    /// Writes `i` in this hasher's integer byte order, by default the host's.
    fn write_u128(&mut self, i: u128)
        requires
            old(self).written().len() + 16 <= u64::MAX,
        ensures
            final(self).written() == old(self).written() + int_bytes(
                i as u128,
                16,
                old(self).ints_little(),
            ),
            forall|m: Seq<u8>| #[trigger] final(self).digest_of(m) == old(self).digest_of(m),
            final(self).ints_little() == old(self).ints_little(),
    {
        let b = encode_int(i as u128, 16, self.writes_ints_little());
        self.write(b.as_slice());
    }

    /// Writes `i` least significant byte first.
    fn write_usize_le(&mut self, i: usize)
        requires
            old(self).written().len() + usize_size() <= u64::MAX,
        ensures
            final(self).written() == old(self).written() + int_bytes(i as u128, usize_size(), true),
            forall|m: Seq<u8>| #[trigger] final(self).digest_of(m) == old(self).digest_of(m),
            final(self).ints_little() == old(self).ints_little(),
    {
        let b = encode_int(i as u128, usize_bytes(), true);
        self.write(b.as_slice());
    }

    /// Writes `i` most significant byte first.
    fn write_usize_be(&mut self, i: usize)
        requires
            old(self).written().len() + usize_size() <= u64::MAX,
        ensures
            final(self).written() == old(self).written() + int_bytes(i as u128, usize_size(), false),
            forall|m: Seq<u8>| #[trigger] final(self).digest_of(m) == old(self).digest_of(m),
            final(self).ints_little() == old(self).ints_little(),
    {
        let b = encode_int(i as u128, usize_bytes(), false);
        self.write(b.as_slice());
    }

    /// Writes `i` in this hasher's integer byte order, by default the host's.
    fn write_usize(&mut self, i: usize)
        requires
            old(self).written().len() + usize_size() <= u64::MAX,
        ensures
            final(self).written() == old(self).written() + int_bytes(
                i as u128,
                usize_size(),
                old(self).ints_little(),
            ),
            forall|m: Seq<u8>| #[trigger] final(self).digest_of(m) == old(self).digest_of(m),
            final(self).ints_little() == old(self).ints_little(),
    {
        let b = encode_int(i as u128, usize_bytes(), self.writes_ints_little());
        self.write(b.as_slice());
    }

    /// Writes `i` least significant byte first.
    fn write_i16_le(&mut self, i: i16)
        requires
            old(self).written().len() + 2 <= u64::MAX,
        ensures
            final(self).written() == old(self).written() + int_bytes(i as u16 as u128, 2, true),
            forall|m: Seq<u8>| #[trigger] final(self).digest_of(m) == old(self).digest_of(m),
            final(self).ints_little() == old(self).ints_little(),
    {
        let b = encode_int(i as u16 as u128, 2, true);
        self.write(b.as_slice());
    }

    /// Writes `i` most significant byte first.
    fn write_i16_be(&mut self, i: i16)
        requires
            old(self).written().len() + 2 <= u64::MAX,
        ensures
            final(self).written() == old(self).written() + int_bytes(i as u16 as u128, 2, false),
            forall|m: Seq<u8>| #[trigger] final(self).digest_of(m) == old(self).digest_of(m),
            final(self).ints_little() == old(self).ints_little(),
    {
        let b = encode_int(i as u16 as u128, 2, false);
        self.write(b.as_slice());
    }

    /// Writes `i` in this hasher's integer byte order, by default the host's.
    fn write_i16(&mut self, i: i16)
        requires
            old(self).written().len() + 2 <= u64::MAX,
        ensures
            final(self).written() == old(self).written() + int_bytes(
                i as u16 as u128,
                2,
                old(self).ints_little(),
            ),
            forall|m: Seq<u8>| #[trigger] final(self).digest_of(m) == old(self).digest_of(m),
            final(self).ints_little() == old(self).ints_little(),
    {
        let b = encode_int(i as u16 as u128, 2, self.writes_ints_little());
        self.write(b.as_slice());
    }

    /// Writes `i` least significant byte first.
    fn write_i32_le(&mut self, i: i32)
        requires
            old(self).written().len() + 4 <= u64::MAX,
        ensures
            final(self).written() == old(self).written() + int_bytes(i as u32 as u128, 4, true),
            forall|m: Seq<u8>| #[trigger] final(self).digest_of(m) == old(self).digest_of(m),
            final(self).ints_little() == old(self).ints_little(),
    {
        let b = encode_int(i as u32 as u128, 4, true);
        self.write(b.as_slice());
    }

    /// Writes `i` most significant byte first.
    fn write_i32_be(&mut self, i: i32)
        requires
            old(self).written().len() + 4 <= u64::MAX,
        ensures
            final(self).written() == old(self).written() + int_bytes(i as u32 as u128, 4, false),
            forall|m: Seq<u8>| #[trigger] final(self).digest_of(m) == old(self).digest_of(m),
            final(self).ints_little() == old(self).ints_little(),
    {
        let b = encode_int(i as u32 as u128, 4, false);
        self.write(b.as_slice());
    }

    /// Writes `i` in this hasher's integer byte order, by default the host's.
    fn write_i32(&mut self, i: i32)
        requires
            old(self).written().len() + 4 <= u64::MAX,
        ensures
            final(self).written() == old(self).written() + int_bytes(
                i as u32 as u128,
                4,
                old(self).ints_little(),
            ),
            forall|m: Seq<u8>| #[trigger] final(self).digest_of(m) == old(self).digest_of(m),
            final(self).ints_little() == old(self).ints_little(),
    {
        let b = encode_int(i as u32 as u128, 4, self.writes_ints_little());
        self.write(b.as_slice());
    }

    /// Writes `i` least significant byte first.
    fn write_i64_le(&mut self, i: i64)
        requires
            old(self).written().len() + 8 <= u64::MAX,
        ensures
            final(self).written() == old(self).written() + int_bytes(i as u64 as u128, 8, true),
            forall|m: Seq<u8>| #[trigger] final(self).digest_of(m) == old(self).digest_of(m),
            final(self).ints_little() == old(self).ints_little(),
    {
        let b = encode_int(i as u64 as u128, 8, true);
        self.write(b.as_slice());
    }

    /// Writes `i` most significant byte first.
    fn write_i64_be(&mut self, i: i64)
        requires
            old(self).written().len() + 8 <= u64::MAX,
        ensures
            final(self).written() == old(self).written() + int_bytes(i as u64 as u128, 8, false),
            forall|m: Seq<u8>| #[trigger] final(self).digest_of(m) == old(self).digest_of(m),
            final(self).ints_little() == old(self).ints_little(),
    {
        let b = encode_int(i as u64 as u128, 8, false);
        self.write(b.as_slice());
    }

    /// Writes `i` in this hasher's integer byte order, by default the host's.
    fn write_i64(&mut self, i: i64)
        requires
            old(self).written().len() + 8 <= u64::MAX,
        ensures
            final(self).written() == old(self).written() + int_bytes(
                i as u64 as u128,
                8,
                old(self).ints_little(),
            ),
            forall|m: Seq<u8>| #[trigger] final(self).digest_of(m) == old(self).digest_of(m),
            final(self).ints_little() == old(self).ints_little(),
    {
        let b = encode_int(i as u64 as u128, 8, self.writes_ints_little());
        self.write(b.as_slice());
    }

    /// Writes `i` least significant byte first.
    fn write_i128_le(&mut self, i: i128)
        requires
            old(self).written().len() + 16 <= u64::MAX,
        ensures
            final(self).written() == old(self).written() + int_bytes(i as u128, 16, true),
            forall|m: Seq<u8>| #[trigger] final(self).digest_of(m) == old(self).digest_of(m),
            final(self).ints_little() == old(self).ints_little(),
    {
        let b = encode_int(i as u128, 16, true);
        self.write(b.as_slice());
    }

    /// Writes `i` most significant byte first.
    fn write_i128_be(&mut self, i: i128)
        requires
            old(self).written().len() + 16 <= u64::MAX,
        ensures
            final(self).written() == old(self).written() + int_bytes(i as u128, 16, false),
            forall|m: Seq<u8>| #[trigger] final(self).digest_of(m) == old(self).digest_of(m),
            final(self).ints_little() == old(self).ints_little(),
    {
        let b = encode_int(i as u128, 16, false);
        self.write(b.as_slice());
    }

    /// Writes `i` in this hasher's integer byte order, by default the host's.
    fn write_i128(&mut self, i: i128)
        requires
            old(self).written().len() + 16 <= u64::MAX,
        ensures
            final(self).written() == old(self).written() + int_bytes(
                i as u128,
                16,
                old(self).ints_little(),
            ),
            forall|m: Seq<u8>| #[trigger] final(self).digest_of(m) == old(self).digest_of(m),
            final(self).ints_little() == old(self).ints_little(),
    {
        let b = encode_int(i as u128, 16, self.writes_ints_little());
        self.write(b.as_slice());
    }

    /// Writes `i` least significant byte first.
    fn write_isize_le(&mut self, i: isize)
        requires
            old(self).written().len() + usize_size() <= u64::MAX,
        ensures
            final(self).written() == old(self).written() + int_bytes(i as usize as u128, usize_size(), true),
            forall|m: Seq<u8>| #[trigger] final(self).digest_of(m) == old(self).digest_of(m),
            final(self).ints_little() == old(self).ints_little(),
    {
        let b = encode_int(i as usize as u128, usize_bytes(), true);
        self.write(b.as_slice());
    }

    /// Writes `i` most significant byte first.
    fn write_isize_be(&mut self, i: isize)
        requires
            old(self).written().len() + usize_size() <= u64::MAX,
        ensures
            final(self).written() == old(self).written() + int_bytes(i as usize as u128, usize_size(), false),
            forall|m: Seq<u8>| #[trigger] final(self).digest_of(m) == old(self).digest_of(m),
            final(self).ints_little() == old(self).ints_little(),
    {
        let b = encode_int(i as usize as u128, usize_bytes(), false);
        self.write(b.as_slice());
    }

    /// Writes `i` in this hasher's integer byte order, by default the host's.
    fn write_isize(&mut self, i: isize)
        requires
            old(self).written().len() + usize_size() <= u64::MAX,
        ensures
            final(self).written() == old(self).written() + int_bytes(
                i as usize as u128,
                usize_size(),
                old(self).ints_little(),
            ),
            forall|m: Seq<u8>| #[trigger] final(self).digest_of(m) == old(self).digest_of(m),
            final(self).ints_little() == old(self).ints_little(),
    {
        let b = encode_int(i as usize as u128, usize_bytes(), self.writes_ints_little());
        self.write(b.as_slice());
    }

    /// Writes the length of a sequence that is about to be written.
    fn write_length_prefix(&mut self, len: usize)
        requires
            old(self).written().len() + usize_size() <= u64::MAX,
        ensures
            final(self).written() == old(self).written() + int_bytes(
                len as u128,
                usize_size(),
                old(self).ints_little(),
            ),
            forall|m: Seq<u8>| #[trigger] final(self).digest_of(m) == old(self).digest_of(m),
            final(self).ints_little() == old(self).ints_little(),
    {
        self.write_usize(len);
    }

    /// Writes the bytes of `s` followed by the terminator `0xff`, which no
    /// UTF-8 text holds, so that strings written back to back stay apart.
    fn write_str(&mut self, s: &str)
        requires
            old(self).written().len() + s.spec_bytes().len() + 1 <= u64::MAX,
        ensures
            final(self).written() == old(self).written() + s.spec_bytes() + seq![0xffu8],
            forall|m: Seq<u8>| #[trigger] final(self).digest_of(m) == old(self).digest_of(m),
            final(self).ints_little() == old(self).ints_little(),
    {
        self.write(s.as_bytes());
        self.write_u8(0xff);
    }
}

/// A value that can feed itself into a hasher.
pub trait Hash<T> {
    /// The bytes this value writes into a hasher whose integer writes are
    /// least significant byte first when `little`.
    spec fn hash_bytes(&self, little: bool) -> Seq<u8>;

    /// Writes this value into `state`.
    fn hash<H: Hasher<T>>(&self, state: &mut H)
        requires
            old(state).written().len() + self.hash_bytes(old(state).ints_little()).len()
                <= u64::MAX,
        ensures
            final(state).written() == old(state).written() + self.hash_bytes(
                old(state).ints_little(),
            ),
            forall|m: Seq<u8>| #[trigger] final(state).digest_of(m) == old(state).digest_of(m),
            final(state).ints_little() == old(state).ints_little(),
    ;
}

/// The bytes that the values of `s` write one after another.
pub open spec fn seq_hash_bytes<T, U: Hash<T>>(s: Seq<U>, little: bool) -> Seq<u8>
    decreases s.len(),
{
    if s.len() == 0 {
        Seq::empty()
    } else {
        seq_hash_bytes::<T, U>(s.drop_last(), little) + s.last().hash_bytes(little)
    }
}

proof fn lemma_seq_hash_bytes_prefix<T, U: Hash<T>>(s: Seq<U>, i: int, little: bool)
    requires
        0 <= i <= s.len(),
    ensures
        seq_hash_bytes::<T, U>(s.take(i), little).len() <= seq_hash_bytes::<T, U>(s, little).len(),
    decreases s.len() - i,
{
    if i < s.len() {
        lemma_seq_hash_bytes_prefix::<T, U>(s, i + 1, little);
        assert(s.take(i + 1).drop_last() =~= s.take(i));
    } else {
        assert(s.take(i) =~= s);
    }
}

/// Writes the values of `data` one after another, with no length prefix.
pub fn hash_slice<T, U: Hash<T>, H: Hasher<T>>(data: &[U], state: &mut H)
    requires
        old(state).written().len() + seq_hash_bytes::<T, U>(data@, old(state).ints_little()).len()
            <= u64::MAX,
    ensures
        final(state).written() == old(state).written() + seq_hash_bytes::<T, U>(
            data@,
            old(state).ints_little(),
        ),
        forall|m: Seq<u8>| #[trigger] final(state).digest_of(m) == old(state).digest_of(m),
            final(state).ints_little() == old(state).ints_little(),
{
    let n = data.len();
    let ghost start = state.written();
    let ghost little = state.ints_little();
    let mut i: usize = 0;
    assert(data@.take(0) =~= Seq::<U>::empty());
    assert(start + Seq::<u8>::empty() =~= start);
    while i < n
        invariant
            i <= n == data@.len(),
            start == old(state).written(),
            little == old(state).ints_little(),
            start.len() + seq_hash_bytes::<T, U>(data@, little).len() <= u64::MAX,
            state.written() == start + seq_hash_bytes::<T, U>(data@.take(i as int), little),
            state.ints_little() == little,
            forall|m: Seq<u8>| #[trigger] state.digest_of(m) == old(state).digest_of(m),
        decreases n - i,
    {
        proof {
            lemma_seq_hash_bytes_prefix::<T, U>(data@, i + 1, little);
            assert(data@.take(i + 1).drop_last() =~= data@.take(i as int));
            assert(data@.take(i + 1).last() == data@[i as int]);
        }
        data[i].hash(state);
        i = i + 1;
        proof {
            let before = seq_hash_bytes::<T, U>(data@.take(i - 1), little);
            assert(start + before + data@[i - 1].hash_bytes(little) =~= start + (before
                + data@[i - 1].hash_bytes(little)));
        }
    }
    assert(data@.take(n as int) =~= data@);
}

/// A factory of hashers that all give the same digest for the same bytes.
pub trait BuildHasher<T> {
    /// The hasher built.
    type Hasher: Hasher<T>;

    /// The digest that a built hasher gives once exactly `m` has been written.
    spec fn digest_of(&self, m: Seq<u8>) -> T;

    /// Whether the built hashers write integers least significant byte first.
    spec fn ints_little(&self) -> bool;

    /// A fresh hasher.
    fn build_hasher(&self) -> (h: Self::Hasher)
        ensures
            h.written() == Seq::<u8>::empty(),
            forall|m: Seq<u8>| #[trigger] h.digest_of(m) == self.digest_of(m),
            h.ints_little() == self.ints_little(),
    ;

    /// The digest of one value.
    fn hash_one<U: Hash<T>>(&self, x: U) -> (r: T)
        requires
            x.hash_bytes(self.ints_little()).len() <= u64::MAX,
        ensures
            r == self.digest_of(x.hash_bytes(self.ints_little())),
    {
        let mut h = self.build_hasher();
        x.hash(&mut h);
        assert(h.written() =~= x.hash_bytes(self.ints_little()));
        h.finish()
    }
}

impl<T> Hash<T> for u8 {
    open spec fn hash_bytes(&self, little: bool) -> Seq<u8> {
        seq![*self]
    }

    fn hash<H: Hasher<T>>(&self, state: &mut H) {
        state.write_u8(*self)
    }
}

impl<T> Hash<T> for i8 {
    open spec fn hash_bytes(&self, little: bool) -> Seq<u8> {
        seq![*self as u8]
    }

    fn hash<H: Hasher<T>>(&self, state: &mut H) {
        state.write_i8(*self)
    }
}

impl<T> Hash<T> for bool {
    open spec fn hash_bytes(&self, little: bool) -> Seq<u8> {
        seq![if *self { 1u8 } else { 0u8 }]
    }

    fn hash<H: Hasher<T>>(&self, state: &mut H) {
        state.write_u8(if *self { 1 } else { 0 })
    }
}

impl<T> Hash<T> for char {
    open spec fn hash_bytes(&self, little: bool) -> Seq<u8> {
        int_bytes(*self as u32 as u128, 4, little)
    }

    fn hash<H: Hasher<T>>(&self, state: &mut H) {
        state.write_u32(*self as u32)
    }
}

impl<T> Hash<T> for u16 {
    open spec fn hash_bytes(&self, little: bool) -> Seq<u8> {
        int_bytes(*self as u128, 2, little)
    }

    fn hash<H: Hasher<T>>(&self, state: &mut H) {
        state.write_u16(*self)
    }
}

impl<T> Hash<T> for u32 {
    open spec fn hash_bytes(&self, little: bool) -> Seq<u8> {
        int_bytes(*self as u128, 4, little)
    }

    fn hash<H: Hasher<T>>(&self, state: &mut H) {
        state.write_u32(*self)
    }
}

impl<T> Hash<T> for u64 {
    open spec fn hash_bytes(&self, little: bool) -> Seq<u8> {
        int_bytes(*self as u128, 8, little)
    }

    fn hash<H: Hasher<T>>(&self, state: &mut H) {
        state.write_u64(*self)
    }
}

impl<T> Hash<T> for u128 {
    open spec fn hash_bytes(&self, little: bool) -> Seq<u8> {
        int_bytes(*self as u128, 16, little)
    }

    fn hash<H: Hasher<T>>(&self, state: &mut H) {
        state.write_u128(*self)
    }
}

impl<T> Hash<T> for usize {
    open spec fn hash_bytes(&self, little: bool) -> Seq<u8> {
        int_bytes(*self as u128, usize_size(), little)
    }

    fn hash<H: Hasher<T>>(&self, state: &mut H) {
        state.write_usize(*self)
    }
}

impl<T> Hash<T> for i16 {
    open spec fn hash_bytes(&self, little: bool) -> Seq<u8> {
        int_bytes(*self as u16 as u128, 2, little)
    }

    fn hash<H: Hasher<T>>(&self, state: &mut H) {
        state.write_i16(*self)
    }
}

impl<T> Hash<T> for i32 {
    open spec fn hash_bytes(&self, little: bool) -> Seq<u8> {
        int_bytes(*self as u32 as u128, 4, little)
    }

    fn hash<H: Hasher<T>>(&self, state: &mut H) {
        state.write_i32(*self)
    }
}

impl<T> Hash<T> for i64 {
    open spec fn hash_bytes(&self, little: bool) -> Seq<u8> {
        int_bytes(*self as u64 as u128, 8, little)
    }

    fn hash<H: Hasher<T>>(&self, state: &mut H) {
        state.write_i64(*self)
    }
}

impl<T> Hash<T> for i128 {
    open spec fn hash_bytes(&self, little: bool) -> Seq<u8> {
        int_bytes(*self as u128, 16, little)
    }

    fn hash<H: Hasher<T>>(&self, state: &mut H) {
        state.write_i128(*self)
    }
}

impl<T> Hash<T> for isize {
    open spec fn hash_bytes(&self, little: bool) -> Seq<u8> {
        int_bytes(*self as usize as u128, usize_size(), little)
    }

    fn hash<H: Hasher<T>>(&self, state: &mut H) {
        state.write_isize(*self)
    }
}

impl<T> Hash<T> for () {
    open spec fn hash_bytes(&self, little: bool) -> Seq<u8> {
        Seq::empty()
    }

    fn hash<H: Hasher<T>>(&self, state: &mut H) {
        assert(state.written() + Seq::<u8>::empty() =~= state.written());
    }
}

impl<'a, T> Hash<T> for &'a str {
    open spec fn hash_bytes(&self, little: bool) -> Seq<u8> {
        (*self).spec_bytes() + seq![0xffu8]
    }

    fn hash<H: Hasher<T>>(&self, state: &mut H) {
        state.write_str(*self);
        assert(old(state).written() + (*self).spec_bytes() + seq![0xffu8] =~= old(state).written()
            + ((*self).spec_bytes() + seq![0xffu8]));
    }
}

impl<T, A: Hash<T>, B: Hash<T>> Hash<T> for (A, B) {
    open spec fn hash_bytes(&self, little: bool) -> Seq<u8> {
        self.0.hash_bytes(little) + self.1.hash_bytes(little)
    }

    fn hash<H: Hasher<T>>(&self, state: &mut H) {
        self.0.hash(state);
        self.1.hash(state);
        assert(old(state).written() + self.0.hash_bytes(old(state).ints_little())
            + self.1.hash_bytes(old(state).ints_little()) =~= old(state).written()
            + self.hash_bytes(old(state).ints_little()));
    }
}

impl<T, A: Hash<T>, B: Hash<T>, C: Hash<T>> Hash<T> for (A, B, C) {
    open spec fn hash_bytes(&self, little: bool) -> Seq<u8> {
        self.0.hash_bytes(little) + self.1.hash_bytes(little) + self.2.hash_bytes(little)
    }

    fn hash<H: Hasher<T>>(&self, state: &mut H) {
        self.0.hash(state);
        self.1.hash(state);
        self.2.hash(state);
        assert(old(state).written() + self.0.hash_bytes(old(state).ints_little())
            + self.1.hash_bytes(old(state).ints_little()) + self.2.hash_bytes(
            old(state).ints_little(),
        ) =~= old(state).written() + self.hash_bytes(old(state).ints_little()));
    }
}

/// The tag written before the fields of variant number `k` of an enum.
pub open spec fn variant_tag(k: u128, little: bool) -> Seq<u8> {
    int_bytes(k, usize_size(), little)
}

impl<T, U: Hash<T>> Hash<T> for Option<U> {
    open spec fn hash_bytes(&self, little: bool) -> Seq<u8> {
        match self {
            None => variant_tag(0, little),
            Some(x) => variant_tag(1, little) + x.hash_bytes(little),
        }
    }

    fn hash<H: Hasher<T>>(&self, state: &mut H) {
        proof {
            broadcast use vstd::layout::layout_of_primitives;
        }
        match self {
            None => state.write_isize(0),
            Some(x) => {
                state.write_isize(1);
                x.hash(state);
                assert(old(state).written() + variant_tag(1, old(state).ints_little())
                    + x.hash_bytes(old(state).ints_little()) =~= old(state).written()
                    + self.hash_bytes(old(state).ints_little()));
            },
        }
    }
}

impl<T, U: Hash<T>, E: Hash<T>> Hash<T> for Result<U, E> {
    open spec fn hash_bytes(&self, little: bool) -> Seq<u8> {
        match self {
            Ok(x) => variant_tag(0, little) + x.hash_bytes(little),
            Err(e) => variant_tag(1, little) + e.hash_bytes(little),
        }
    }

    fn hash<H: Hasher<T>>(&self, state: &mut H) {
        proof {
            broadcast use vstd::layout::layout_of_primitives;
        }
        match self {
            Ok(x) => {
                state.write_isize(0);
                x.hash(state);
                assert(old(state).written() + variant_tag(0, old(state).ints_little())
                    + x.hash_bytes(old(state).ints_little()) =~= old(state).written()
                    + self.hash_bytes(old(state).ints_little()));
            },
            Err(e) => {
                state.write_isize(1);
                e.hash(state);
                assert(old(state).written() + variant_tag(1, old(state).ints_little())
                    + e.hash_bytes(old(state).ints_little()) =~= old(state).written()
                    + self.hash_bytes(old(state).ints_little()));
            },
        }
    }
}

impl<'a, T, U: Hash<T>> Hash<T> for &'a [U] {
    /// The length, then each element.
    open spec fn hash_bytes(&self, little: bool) -> Seq<u8> {
        int_bytes(self@.len() as u128, usize_size(), little) + seq_hash_bytes::<T, U>(self@, little)
    }

    fn hash<H: Hasher<T>>(&self, state: &mut H) {
        let ghost little = state.ints_little();
        state.write_length_prefix(self.len());
        hash_slice(*self, state);
        assert(old(state).written() + int_bytes(self@.len() as u128, usize_size(), little)
            + seq_hash_bytes::<T, U>(self@, little) =~= old(state).written() + self.hash_bytes(
            little,
        ));
    }
}

impl<T, U: Hash<T>> Hash<T> for Vec<U> {
    /// The length, then each element, as for a slice.
    open spec fn hash_bytes(&self, little: bool) -> Seq<u8> {
        int_bytes(self@.len() as u128, usize_size(), little) + seq_hash_bytes::<T, U>(self@, little)
    }

    fn hash<H: Hasher<T>>(&self, state: &mut H) {
        self.as_slice().hash(state);
    }
}

/// A byte slice hashed as it is: its bytes one by one, with no length prefix.
pub struct RawBytes<'a>(pub &'a [u8]);

impl<'a, T> Hash<T> for RawBytes<'a> {
    open spec fn hash_bytes(&self, little: bool) -> Seq<u8> {
        self.0@
    }

    fn hash<H: Hasher<T>>(&self, state: &mut H) {
        let bytes = self.0;
        let n = bytes.len();
        let ghost start = state.written();
        let mut i: usize = 0;
        while i < n
            invariant
                i <= n == bytes@.len(),
                start == old(state).written(),
                start.len() + n <= u64::MAX,
                state.written() == start + bytes@.subrange(0, i as int),
                state.ints_little() == old(state).ints_little(),
                forall|m: Seq<u8>| #[trigger] state.digest_of(m) == old(state).digest_of(m),
            decreases n - i,
        {
            state.write_u8(bytes[i]);
            i = i + 1;
            assert(start + bytes@.subrange(0, i - 1) + seq![bytes@[i - 1]] =~= start
                + bytes@.subrange(0, i as int));
        }
        assert(bytes@.subrange(0, n as int) =~= bytes@);
    }
}

} // verus!
