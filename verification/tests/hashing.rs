use compare_dirs::algo::{HashAlgo, ALLOWED_ALGOS};
use compare_dirs::hashing::hash_of;
use digest::Digest;

const ALGOS: [HashAlgo; 12] = [
    HashAlgo::Md5,
    HashAlgo::Sha1,
    HashAlgo::Sha256,
    HashAlgo::Sha512,
    HashAlgo::Sha3_256,
    HashAlgo::Sha3_512,
    HashAlgo::Blake2b,
    HashAlgo::Blake3,
    HashAlgo::Xxh32,
    HashAlgo::Xxh64,
    HashAlgo::Xxh3,
    HashAlgo::Crc32,
];

#[test]
fn digests_of_a_short_content() {
    let expected: [&str; 12] = [
        "900150983cd24fb0d6963f7d28e17f72",
        "a9993e364706816aba3e25717850c26c9cd0d89d",
        "ba7816bf8f01cfea414140de5dae2223b00361a396177a9cb410ff61f20015ad",
        "ddaf35a193617abacc417349ae20413112e6fa4e89a97ea20a9eeee64b55d39a2192992a274fc1a836ba3c23a3feebbd454d4423643ce80e2a9ac94fa54ca49f",
        "3a985da74fe225b2045c172d6bd390bd855f086e3e9d525b46bfe24511431532",
        "b751850b1a57168a5693cd924b6b096e08f621827444f70d884f5d0240d2712e10e116e9192af3c91a7ec57647e3934057340b4cf408d5a56592f8274eec53f0",
        "ba80a53f981c4d0d6a2797b69f12f6e94c212f14685ac4b74b12bb6fdbffa2d17d87c5392aab792dc252d5de4533cc9518d38aa8dbf1925ab92386edd4009923",
        "6437b3ac38465133ffb63b75273a8db548c558465d79db03fd359c6cd5bd9d85",
        "32d153ff",
        "44bc2cf5ad770999",
        "78af5f94892f3950",
        "352441c2",
    ];
    for i in 0..ALGOS.len() {
        assert_eq!(hash_of(b"abc", ALGOS[i]), expected[i]);
    }
}

#[test]
fn digests_of_the_empty_content() {
    assert_eq!(hash_of(b"", HashAlgo::Md5), "d41d8cd98f00b204e9800998ecf8427e");
    assert_eq!(hash_of(b"", HashAlgo::Sha1), "da39a3ee5e6b4b0d3255bfef95601890afd80709");
    assert_eq!(
        hash_of(b"", HashAlgo::Sha256),
        "e3b0c44298fc1c149afbf4c8996fb92427ae41e4649b934ca495991b7852b855"
    );
    assert_eq!(
        hash_of(b"", HashAlgo::Blake3),
        "af1349b9f5f9a1a6a0404dea36dcc9499bcb25c9adc112b7cc9a93cae41f3262"
    );
    assert_eq!(hash_of(b"", HashAlgo::Xxh32), "02cc5d05");
    assert_eq!(hash_of(b"", HashAlgo::Xxh64), "ef46db3751d8e999");
    assert_eq!(hash_of(b"", HashAlgo::Xxh3), "2d06800538d394c2");
    assert_eq!(hash_of(b"", HashAlgo::Crc32), "00000000");
}

#[test]
fn numbers_are_padded_with_zeros() {
    assert_eq!(hash_of(b"file6", HashAlgo::Crc32), "0083f546");
}

#[test]
fn digests_of_one_algorithm_have_one_length() {
    let widths: [usize; 12] = [32, 40, 64, 128, 64, 128, 128, 64, 8, 16, 16, 8];
    for i in 0..ALGOS.len() {
        for content in [&b""[..], &b"x"[..], &b"a longer content"[..]] {
            let text = hash_of(content, ALGOS[i]);
            assert_eq!(text.len(), widths[i]);
            assert!(text.chars().all(|c| c.is_ascii_digit() || ('a'..='f').contains(&c)));
        }
    }
}

fn hex(bytes: &[u8]) -> String {
    bytes.iter().map(|b| format!("{b:02x}")).collect()
}

fn in_pieces<D: Digest>(content: &[u8]) -> String {
    let mut hasher = D::new();
    for piece in content.chunks(65536) {
        hasher.update(piece);
    }
    hex(&hasher.finalize())
}

#[test]
fn content_may_be_hashed_in_pieces() {
    let content: Vec<u8> = (0..200_001u32).map(|i| (i * 7 % 251) as u8).collect();
    let mut blake3 = blake3::Hasher::new();
    let mut xxh32 = xxhash_rust::xxh32::Xxh32::new(0);
    let mut xxh64 = xxhash_rust::xxh64::Xxh64::new(0);
    let mut xxh3 = xxhash_rust::xxh3::Xxh3::new();
    let mut crc32 = crc32fast::Hasher::new();
    for piece in content.chunks(65536) {
        blake3.update(piece);
        xxh32.update(piece);
        xxh64.update(piece);
        xxh3.update(piece);
        crc32.update(piece);
    }
    let expected: [String; 12] = [
        in_pieces::<md5::Md5>(&content),
        in_pieces::<sha1::Sha1>(&content),
        in_pieces::<sha2::Sha256>(&content),
        in_pieces::<sha2::Sha512>(&content),
        in_pieces::<sha3::Sha3_256>(&content),
        in_pieces::<sha3::Sha3_512>(&content),
        in_pieces::<blake2::Blake2b512>(&content),
        blake3.finalize().to_hex().to_string(),
        format!("{:08x}", xxh32.digest()),
        format!("{:016x}", xxh64.digest()),
        format!("{:016x}", xxh3.digest()),
        format!("{:08x}", crc32.finalize()),
    ];
    for i in 0..ALGOS.len() {
        assert_eq!(hash_of(&content, ALGOS[i]), expected[i]);
    }
}

#[test]
fn both_names_of_an_algorithm_are_known() {
    let short: [&str; 12] = [
        "md5", "sha1", "sha256", "sha512", "sha3-256", "sha3-512", "blake2b", "blake3", "xxh32",
        "xxh64", "xxh3", "crc32",
    ];
    for i in 0..ALGOS.len() {
        assert_eq!(HashAlgo::from_name(ALLOWED_ALGOS[i]), Some(ALGOS[i]));
        assert_eq!(HashAlgo::from_name(short[i]), Some(ALGOS[i]));
    }
}

#[test]
fn other_names_are_unknown() {
    for name in ["", "md5 ", "MD5", "sha3", "b2", "blake2bsum", "xxh128sum"] {
        assert_eq!(HashAlgo::from_name(name), None);
    }
}
