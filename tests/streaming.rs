use hash_t::fnv::{Fnv, Fnv1a, V1A};
use hash_t::hasher::Hasher;
use hash_t::spooky::{SpookyV, V1, V2};
use hash_t::xxh64::Xxh64;

fn sample(n: usize) -> Vec<u8> {
    (0..n).map(|i| (i * 31 + 7) as u8).collect()
}

const SPLITS: [usize; 14] = [0, 1, 7, 8, 15, 16, 31, 32, 95, 96, 191, 192, 193, 300];

fn xxh64_of_chunks(seed: u64, data: &[u8], cut: usize, step: usize) -> u64 {
    let mut h = Xxh64::with_seed(seed);
    h.write(&data[..cut]);
    let mut rest = &data[cut..];
    while !rest.is_empty() {
        let n = step.min(rest.len());
        h.write(&rest[..n]);
        rest = &rest[n..];
    }
    h.finish()
}

fn spooky_of_chunks<V: hash_t::spooky::Version>(
    seed: (u64, u64),
    data: &[u8],
    cut: usize,
    step: usize,
) -> u128 {
    let mut h = SpookyV::<V>::with_seed(seed.0, seed.1);
    h.write(&data[..cut]);
    let mut rest = &data[cut..];
    while !rest.is_empty() {
        let n = step.min(rest.len());
        h.write(&rest[..n]);
        rest = &rest[n..];
    }
    h.finish128()
}

#[test]
fn xxh64_chunk_invariance() {
    for len in [0, 5, 31, 32, 33, 64, 100, 400] {
        let data = sample(len);
        let mut whole = Xxh64::with_seed(99);
        whole.write(&data);
        let expected = whole.finish();
        for &cut in SPLITS.iter().filter(|&&c| c <= len) {
            for step in [1, 3, 32, 50] {
                assert_eq!(xxh64_of_chunks(99, &data, cut, step), expected, "{len} {cut} {step}");
            }
        }
    }
}

#[test]
fn spooky_chunk_invariance() {
    for len in [0, 15, 16, 31, 32, 95, 96, 191, 192, 193, 287, 288, 400, 700] {
        let data = sample(len);
        let mut whole1 = SpookyV::<V1>::with_seed(3, 4);
        whole1.write(&data);
        let mut whole2 = SpookyV::<V2>::with_seed(3, 4);
        whole2.write(&data);
        for &cut in SPLITS.iter().filter(|&&c| c <= len) {
            for step in [1, 13, 96, 150, 200] {
                assert_eq!(spooky_of_chunks::<V1>((3, 4), &data, cut, step), whole1.finish128());
                assert_eq!(spooky_of_chunks::<V2>((3, 4), &data, cut, step), whole2.finish128());
            }
        }
    }
}

#[test]
fn fnv_chunk_invariance() {
    let data = sample(100);
    let mut whole = Fnv1a::<u64>::new();
    whole.write(&data);
    for cut in [0, 1, 50, 99, 100] {
        let mut h = Fnv::<u64, V1A>::new();
        h.write(&data[..cut]);
        h.write(&data[cut..]);
        assert_eq!(h.finish(), whole.finish());
    }
}

#[test]
fn finish_leaves_hasher_unchanged() {
    let data = sample(250);
    let mut h = SpookyV::<V2>::new();
    h.write(&data[..200]);
    let first = h.finish128();
    assert_eq!(h.finish128(), first);
    h.write(&data[200..]);
    let mut whole = SpookyV::<V2>::new();
    whole.write(&data);
    assert_eq!(h.finish128(), whole.finish128());

    let mut x = Xxh64::new();
    x.write(&data[..40]);
    let f = x.finish();
    assert_eq!(x.finish(), f);
    x.write(&data[40..]);
    let mut xw = Xxh64::new();
    xw.write(&data);
    assert_eq!(x.finish(), xw.finish());
}

#[test]
fn spooky_cross_width() {
    for len in [0, 10, 100, 191, 192, 500] {
        let data = sample(len);
        for seed in [(0, 0), (1, 2), (u64::MAX, 17)] {
            let mut h = SpookyV::<V2>::with_seed(seed.0, seed.1);
            h.write(&data);
            let wide = h.finish128();
            assert_eq!(h.finish64(), wide as u64);
            assert_eq!(h.finish32(), wide as u32);
            assert_eq!(Hasher::<u64>::finish(&h), wide as u64);
            assert_eq!(Hasher::<u32>::finish(&h), wide as u32);
            assert_eq!(Hasher::<u128>::finish(&h), wide);
        }
    }
}

#[test]
fn seed_sensitivity() {
    let data = b"abc";
    let mut a = Xxh64::with_seed(1);
    a.write(data);
    let mut b = Xxh64::with_seed(2);
    b.write(data);
    assert_ne!(a.finish(), b.finish());

    let mut c = SpookyV::<V2>::with_seed(1, 0);
    c.write(data);
    let mut d = SpookyV::<V2>::with_seed(0, 1);
    d.write(data);
    assert_ne!(c.finish128(), d.finish128());

    let mut e = Fnv1a::<u64>::with_seed(1);
    e.write(data);
    let mut f = Fnv1a::<u64>::with_seed(2);
    f.write(data);
    assert_ne!(e.finish(), f.finish());
}

#[test]
fn zero_seed_is_default() {
    let data = sample(300);
    let mut a = Xxh64::new();
    a.write(&data);
    let mut b = Xxh64::with_seed(0);
    b.write(&data);
    assert_eq!(a.finish(), b.finish());

    let mut c = SpookyV::<V1>::new();
    c.write(&data);
    let mut d = SpookyV::<V1>::with_seed(0, 0);
    d.write(&data);
    assert_eq!(c.finish128(), d.finish128());

    let mut e = Fnv1a::<u32>::new();
    e.write(&data);
    let mut f = Fnv1a::<u32>::with_seed(0x811c9dc5);
    f.write(&data);
    assert_eq!(e.finish(), f.finish());
}

#[test]
fn spooky_seed_128_halves() {
    let data = sample(40);
    let mut a = SpookyV::<V2>::with_seed_128(0x0123456789abcdef_fedcba9876543210);
    a.write(&data);
    let mut b = SpookyV::<V2>::with_seed(0xfedcba9876543210, 0x0123456789abcdef);
    b.write(&data);
    assert_eq!(a.finish128(), b.finish128());
}

#[test]
fn clone_snapshots_prefix() {
    let data = sample(400);
    let mut prefix = SpookyV::<V2>::with_seed(5, 6);
    prefix.write(&data[..250]);
    let mut a = prefix.clone();
    let mut b = prefix.clone();
    a.write(&data[250..300]);
    b.write(&data[250..400]);
    let mut whole_a = SpookyV::<V2>::with_seed(5, 6);
    whole_a.write(&data[..300]);
    let mut whole_b = SpookyV::<V2>::with_seed(5, 6);
    whole_b.write(&data);
    assert_eq!(a.finish128(), whole_a.finish128());
    assert_eq!(b.finish128(), whole_b.finish128());
    assert_eq!(prefix.finish128(), {
        let mut p = SpookyV::<V2>::with_seed(5, 6);
        p.write(&data[..250]);
        p.finish128()
    });

    let mut x = Xxh64::with_seed(8);
    x.write(&data[..45]);
    let mut y = x.clone();
    y.write(&data[45..]);
    let mut xw = Xxh64::with_seed(8);
    xw.write(&data);
    assert_eq!(y.finish(), xw.finish());

    let mut f = Fnv1a::<u32>::new();
    f.write(&data[..3]);
    let mut g = f.clone();
    g.write(&data[3..10]);
    let mut fw = Fnv1a::<u32>::new();
    fw.write(&data[..10]);
    assert_eq!(g.finish(), fw.finish());
}

#[test]
fn defaults_match_new() {
    let data = sample(77);
    let mut a = Xxh64::default();
    a.write(&data);
    let mut b = Xxh64::new();
    b.write(&data);
    assert_eq!(a.finish(), b.finish());

    let mut c = SpookyV::<V1>::default();
    c.write(&data);
    let mut d = SpookyV::<V1>::new();
    d.write(&data);
    assert_eq!(c.finish64(), d.finish64());

    let mut e = Fnv::<u128, V1A>::default();
    e.write(&data);
    let mut f = Fnv1a::<u128>::new();
    f.write(&data);
    assert_eq!(e.finish(), f.finish());
}
