use hash_t::fnv::{Fnv1aBuildHasher, Fnv1aDefaultBuildHasher};
use hash_t::hasher::{BuildHasher, Hasher, RawBytes};

fn fnv1a_default_seed<T: hash_t::hasher::Hash<u64>>(x: T) -> u64 {
    Fnv1aDefaultBuildHasher::new().hash_one(x)
}

fn fnv1a_custom_seed<T: hash_t::hasher::Hash<u64>>(x: T) -> u64 {
    Fnv1aBuildHasher::with_seed(0x55555555_55555555).hash_one(x)
}

#[test]
fn fnv1a_empty_default_seed() {
    assert_eq!(fnv1a_default_seed(()), 0xcbf29ce484222325);
}

#[test]
fn fnv1a_empty_custom_seed() {
    assert_eq!(fnv1a_custom_seed(()), 0x5555555555555555);
}

#[test]
fn fnv1a_bytes_default_seed() {
    let cases: [(&str, u64); 36] = [
        ("a", 0xaf63dc4c8601ec8c),
        ("ab", 0x89c4407b545986a),
        ("abc", 0xe71fa2190541574b),
        ("abcd", 0xfc179f83ee0724dd),
        ("abcde", 0x6348c52d762364a8),
        ("abcdef", 0xd80bda3fbe244a0a),
        ("abcdefg", 0x406e475017aa7737),
        ("abcdefgh", 0x25da8c1836a8d66d),
        ("abcdefghi", 0xfb321124e0e3a8cc),
        ("abcdefghij", 0xb9bbc7aa22d79212),
        ("abcdefghijk", 0x71a6bf19344de39b),
        ("abcdefghijkl", 0x6c3aaed3e05a5cb5),
        ("abcdefghijklm", 0x4213ea06398bc308),
        ("abcdefghijklmn", 0xd39a0e93c87d0652),
        ("abcdefghijklmno", 0xbcd021dac7199a7),
        ("abcdefghijklmnop", 0x7ef46f6c05086855),
        ("abcdefghijklmnopq", 0xc1c1788c8d48f52c),
        ("abcdefghijklmnopqr", 0x84b534d412f8eeba),
        ("abcdefghijklmnopqrs", 0x78d78d5c3cfdbf8b),
        ("abcdefghijklmnopqrst", 0x540532bba32d3e4d),
        ("abcdefghijklmnopqrstu", 0xf2136cd645e0b928),
        ("abcdefghijklmnopqrstuv", 0x37bb4e18bcdafaba),
        ("abcdefghijklmnopqrstuvw", 0x8e408108e8182a57),
        ("abcdefghijklmnopqrstuvwx", 0xcfc57122610faddd),
        ("abcdefghijklmnopqrstuvwxy", 0x1c2ce16aeda40dac),
        ("abcdefghijklmnopqrstuvwxyz", 0x8450deb1cdc382a2),
        ("abcdefghijklmnopqrstuvwxyz0", 0x98ecfa20a336de16),
        ("abcdefghijklmnopqrstuvwxyz01", 0x118b2c75563b7c45),
        ("abcdefghijklmnopqrstuvwxyz012", 0xaf9026187147e35),
        ("abcdefghijklmnopqrstuvwxyz0123", 0xb99d11b887d22432),
        ("abcdefghijklmnopqrstuvwxyz01234", 0x3809228eca133632),
        ("abcdefghijklmnopqrstuvwxyz012345", 0x4abbbfa15ea4cde5),
        ("abcdefghijklmnopqrstuvwxyz0123456", 0xa1d47233d209bd89),
        ("abcdefghijklmnopqrstuvwxyz01234567", 0x5bbcc0de68d69da),
        ("abcdefghijklmnopqrstuvwxyz012345678", 0x4b859d9ec24aeb06),
        ("abcdefghijklmnopqrstuvwxyz0123456789", 0x9ef613c4254dbc0d),
    ];
    for (s, h) in cases {
        assert_eq!(fnv1a_default_seed(RawBytes(s.as_bytes())), h, "{s}");
    }
}

#[test]
fn fnv1a_bytes_custom_seed() {
    let cases: [(&str, u64); 36] = [
        ("a", 0x555533ffffffc75c),
        ("ab", 0xff8e99ffff9f8e5a),
        ("abc", 0xdedde6ff5c1eaadb),
        ("abcd", 0xd1ba42e9881c228d),
        ("abcde", 0x7ba29ad247cf5038),
        ("abcdef", 0xe49d715005458fba),
        ("abcdefg", 0xbd1767f8f5337487),
        ("abcdefgh", 0x823a9b08a66fb21d),
        ("abcdefghi", 0xb947e3b2cfcc3b1c),
        ("abcdefghij", 0xa1635ed718090982),
        ("abcdefghijk", 0x44e4107dd75bd6eb),
        ("abcdefghijkl", 0x6b5e8cd4f10d8765),
        ("abcdefghijklm", 0x7f3055d599fc7298),
        ("abcdefghijklmn", 0x1b94cff4a7f75802),
        ("abcdefghijklmno", 0xd535c9b9694b4137),
        ("abcdefghijklmnop", 0x95a70d0deadfeba5),
        ("abcdefghijklmnopq", 0x2ac702a61a7db93c),
        ("abcdefghijklmnopqr", 0x2de2ce3f03a1df8a),
        ("abcdefghijklmnopqrs", 0x9a446e132c0f941b),
        ("abcdefghijklmnopqrst", 0x31db7993de79389d),
        ("abcdefghijklmnopqrstu", 0x31287e4307fbb238),
        ("abcdefghijklmnopqrstuv", 0x8380d9e690affa8a),
        ("abcdefghijklmnopqrstuvw", 0x23ed3fc7db077be7),
        ("abcdefghijklmnopqrstuvwx", 0x139eff992db70f2d),
        ("abcdefghijklmnopqrstuvwxy", 0xe3ba548ae0f0bbc),
        ("abcdefghijklmnopqrstuvwxyz", 0x3e65a07fc3910172),
        ("abcdefghijklmnopqrstuvwxyz0", 0x97b0fb194f652326),
        ("abcdefghijklmnopqrstuvwxyz01", 0x26ddc301e8daa015),
        ("abcdefghijklmnopqrstuvwxyz012", 0xe572833eab7e2245),
        ("abcdefghijklmnopqrstuvwxyz0123", 0x5fb7797d67548e82),
        ("abcdefghijklmnopqrstuvwxyz01234", 0xf952261694ae7f42),
        ("abcdefghijklmnopqrstuvwxyz012345", 0x55162f5ea4829735),
        ("abcdefghijklmnopqrstuvwxyz0123456", 0x174980d189e69a19),
        ("abcdefghijklmnopqrstuvwxyz01234567", 0x7880120d52d7fc2a),
        ("abcdefghijklmnopqrstuvwxyz012345678", 0x999abea3c5015296),
        ("abcdefghijklmnopqrstuvwxyz0123456789", 0x3449f47c13f7f5d),
    ];
    for (s, h) in cases {
        assert_eq!(fnv1a_custom_seed(RawBytes(s.as_bytes())), h, "{s}");
    }
}
