//! Hashers that write integers in a fixed byte order, so that digests agree
//! between little-endian and big-endian hosts.

use core::marker::PhantomData;
use vstd::prelude::*;
use crate::fnv::{Fnv, Type, Version as FnvVersion};
use crate::hasher::{BuildHasher, Hasher};
use crate::spooky::{SpookyV, Version as SpookyVersion};
use crate::xxh64::Xxh64;

verus! {

/// Marks a hashing algorithm whose digest depends only on the bytes written,
/// never on the host's byte order.
pub trait EndianIndependentAlgorithm {}

/// Marks a hasher whose integer writes do not depend on the host's byte order.
pub trait EndianIndependentWrites {}

/// A hasher whose digests agree on every host.
pub trait EndianIndependentHasher<T>:
    Hasher<T> + EndianIndependentAlgorithm + EndianIndependentWrites {}

impl<T, H> EndianIndependentHasher<T> for H
    where H: Hasher<T> + EndianIndependentAlgorithm + EndianIndependentWrites {}

impl<T, H: Hasher<T> + EndianIndependentAlgorithm> EndianIndependentAlgorithm for HasherLe<T, H> {}

impl<T, H: Hasher<T>> EndianIndependentWrites for HasherLe<T, H> {}

impl<T, H: Hasher<T> + EndianIndependentAlgorithm> EndianIndependentAlgorithm for HasherBe<T, H> {}

impl<T, H: Hasher<T>> EndianIndependentWrites for HasherBe<T, H> {}

impl<T: Type, V: FnvVersion> EndianIndependentAlgorithm for Fnv<T, V> {}

impl EndianIndependentAlgorithm for Xxh64 {}

impl<V: SpookyVersion> EndianIndependentAlgorithm for SpookyV<V> {}

/// A hasher that writes every integer least significant byte first, whatever the host's byte order,
/// and otherwise behaves as the hasher it wraps.
pub struct HasherLe<T, H: Hasher<T>> {
    inner: H,
    digest: PhantomData<T>,
}

impl<T, H: Hasher<T>> HasherLe<T, H> {
    /// The wrapped hasher.
    pub closed spec fn inner(&self) -> H {
        self.inner
    }

    /// Wraps `hasher`.
    pub fn new(hasher: H) -> (r: Self)
        ensures
            r.inner() == hasher,
    {
        HasherLe { inner: hasher, digest: PhantomData }
    }
}

impl<T, H: Hasher<T>> Hasher<T> for HasherLe<T, H> {
    open spec fn written(&self) -> Seq<u8> {
        self.inner().written()
    }

    open spec fn digest_of(&self, m: Seq<u8>) -> T {
        self.inner().digest_of(m)
    }

    open spec fn ints_little(&self) -> bool {
        true
    }

    fn writes_ints_little(&self) -> (r: bool) {
        true
    }

    fn finish(&self) -> (r: T) {
        self.inner.finish()
    }

    fn write(&mut self, bytes: &[u8]) {
        self.inner.write(bytes)
    }
}

/// A factory of [`HasherLe`] hashers around the hashers of another factory.
pub struct BuildHasherLe<T, B: BuildHasher<T>> {
    inner: B,
    digest: PhantomData<T>,
}

impl<T, B: BuildHasher<T>> BuildHasherLe<T, B> {
    /// The wrapped factory.
    pub closed spec fn inner(&self) -> B {
        self.inner
    }

    /// Wraps `build_hasher`.
    pub fn new(build_hasher: B) -> (r: Self)
        ensures
            r.inner() == build_hasher,
    {
        BuildHasherLe { inner: build_hasher, digest: PhantomData }
    }
}

impl<T, B: BuildHasher<T>> BuildHasher<T> for BuildHasherLe<T, B> {
    type Hasher = HasherLe<T, B::Hasher>;

    open spec fn digest_of(&self, m: Seq<u8>) -> T {
        self.inner().digest_of(m)
    }

    open spec fn ints_little(&self) -> bool {
        true
    }

    fn build_hasher(&self) -> (h: HasherLe<T, B::Hasher>) {
        HasherLe::new(self.inner.build_hasher())
    }
}

/// A hasher that writes every integer most significant byte first, whatever the host's byte order,
/// and otherwise behaves as the hasher it wraps.
pub struct HasherBe<T, H: Hasher<T>> {
    inner: H,
    digest: PhantomData<T>,
}

impl<T, H: Hasher<T>> HasherBe<T, H> {
    /// The wrapped hasher.
    pub closed spec fn inner(&self) -> H {
        self.inner
    }

    /// Wraps `hasher`.
    pub fn new(hasher: H) -> (r: Self)
        ensures
            r.inner() == hasher,
    {
        HasherBe { inner: hasher, digest: PhantomData }
    }
}

impl<T, H: Hasher<T>> Hasher<T> for HasherBe<T, H> {
    open spec fn written(&self) -> Seq<u8> {
        self.inner().written()
    }

    open spec fn digest_of(&self, m: Seq<u8>) -> T {
        self.inner().digest_of(m)
    }

    open spec fn ints_little(&self) -> bool {
        false
    }

    fn writes_ints_little(&self) -> (r: bool) {
        false
    }

    fn finish(&self) -> (r: T) {
        self.inner.finish()
    }

    fn write(&mut self, bytes: &[u8]) {
        self.inner.write(bytes)
    }
}

/// A factory of [`HasherBe`] hashers around the hashers of another factory.
pub struct BuildHasherBe<T, B: BuildHasher<T>> {
    inner: B,
    digest: PhantomData<T>,
}

impl<T, B: BuildHasher<T>> BuildHasherBe<T, B> {
    /// The wrapped factory.
    pub closed spec fn inner(&self) -> B {
        self.inner
    }

    /// Wraps `build_hasher`.
    pub fn new(build_hasher: B) -> (r: Self)
        ensures
            r.inner() == build_hasher,
    {
        BuildHasherBe { inner: build_hasher, digest: PhantomData }
    }
}

impl<T, B: BuildHasher<T>> BuildHasher<T> for BuildHasherBe<T, B> {
    type Hasher = HasherBe<T, B::Hasher>;

    open spec fn digest_of(&self, m: Seq<u8>) -> T {
        self.inner().digest_of(m)
    }

    open spec fn ints_little(&self) -> bool {
        false
    }

    fn build_hasher(&self) -> (h: HasherBe<T, B::Hasher>) {
        HasherBe::new(self.inner.build_hasher())
    }
}

} // verus!
