//! Digests of file contents.

use digest::Digest;
use vstd::arithmetic::power::pow;
use vstd::prelude::*;

use crate::algo::HashAlgo;
use crate::text::{fixed_hex, hex_bytes, hex_number, hex_of, hex_value, is_hex_digit};
use crate::text::{law_fixed_hex_is_read_back, law_hex_tells_bytes_apart};
use crate::text::{law_hex_tells_numbers_apart, law_power_multiplies, power};
use crate::text::{lemma_fixed_hex_digits, lemma_fixed_hex_len};
use crate::text::{lemma_hex_of_digits, lemma_hex_of_len};

verus! {

/// Contents of this many bytes or more have a length in bits that no `u64` holds.
pub const CONTENT_LIMIT: u64 = 0x2000_0000_0000_0000;

/// The seed of the seeded hashes.
pub const SEED: u32 = 0;

/// The MD5 digest of a byte string.
pub uninterp spec fn md5_digest(data: Seq<u8>) -> Seq<u8>;

/// Calls `Digest::digest` of `md5::Md5`: the MD5 digest of `data`, 16 bytes long, a function of
/// `data` alone.
#[verifier::external_body]
fn md5(data: &[u8]) -> (r: Vec<u8>)
    ensures
        r@ == md5_digest(data@),
        r@.len() == 16,
{
    md5::Md5::digest(data).to_vec()
}

/// The SHA-1 digest of a byte string.
pub uninterp spec fn sha1_digest(data: Seq<u8>) -> Seq<u8>;

/// Calls `Digest::digest` of `sha1::Sha1`: the SHA-1 digest of `data`, 20 bytes long, a function
/// of `data` alone. The length in bits goes into the digest as a `u64`, so it has to fit one.
#[verifier::external_body]
fn sha1(data: &[u8]) -> (r: Vec<u8>)
    requires
        data@.len() < CONTENT_LIMIT,
    ensures
        r@ == sha1_digest(data@),
        r@.len() == 20,
{
    sha1::Sha1::digest(data).to_vec()
}

/// The SHA-256 digest of a byte string.
pub uninterp spec fn sha256_digest(data: Seq<u8>) -> Seq<u8>;

/// Calls `Digest::digest` of `sha2::Sha256`: the SHA-256 digest of `data`, 32 bytes long, a
/// function of `data` alone. The length in bits goes into the digest as a `u64`, so it has to
/// fit one.
#[verifier::external_body]
fn sha256(data: &[u8]) -> (r: Vec<u8>)
    requires
        data@.len() < CONTENT_LIMIT,
    ensures
        r@ == sha256_digest(data@),
        r@.len() == 32,
{
    sha2::Sha256::digest(data).to_vec()
}

/// The SHA-512 digest of a byte string.
pub uninterp spec fn sha512_digest(data: Seq<u8>) -> Seq<u8>;

/// Calls `Digest::digest` of `sha2::Sha512`: the SHA-512 digest of `data`, 64 bytes long, a
/// function of `data` alone.
#[verifier::external_body]
fn sha512(data: &[u8]) -> (r: Vec<u8>)
    ensures
        r@ == sha512_digest(data@),
        r@.len() == 64,
{
    sha2::Sha512::digest(data).to_vec()
}

/// The SHA3-256 digest of a byte string.
pub uninterp spec fn sha3_256_digest(data: Seq<u8>) -> Seq<u8>;

/// Calls `Digest::digest` of `sha3::Sha3_256`: the SHA3-256 digest of `data`, 32 bytes long, a
/// function of `data` alone.
#[verifier::external_body]
fn sha3_256(data: &[u8]) -> (r: Vec<u8>)
    ensures
        r@ == sha3_256_digest(data@),
        r@.len() == 32,
{
    sha3::Sha3_256::digest(data).to_vec()
}

/// The SHA3-512 digest of a byte string.
pub uninterp spec fn sha3_512_digest(data: Seq<u8>) -> Seq<u8>;

/// Calls `Digest::digest` of `sha3::Sha3_512`: the SHA3-512 digest of `data`, 64 bytes long, a
/// function of `data` alone.
#[verifier::external_body]
fn sha3_512(data: &[u8]) -> (r: Vec<u8>)
    ensures
        r@ == sha3_512_digest(data@),
        r@.len() == 64,
{
    sha3::Sha3_512::digest(data).to_vec()
}

/// The BLAKE2b-512 digest of a byte string.
pub uninterp spec fn blake2b_digest(data: Seq<u8>) -> Seq<u8>;

/// Calls `Digest::digest` of `blake2::Blake2b512`: the BLAKE2b-512 digest of `data`, 64 bytes
/// long, a function of `data` alone.
#[verifier::external_body]
fn blake2b(data: &[u8]) -> (r: Vec<u8>)
    ensures
        r@ == blake2b_digest(data@),
        r@.len() == 64,
{
    blake2::Blake2b512::digest(data).to_vec()
}

/// The BLAKE3 hash of a byte string.
pub uninterp spec fn blake3_digest(data: Seq<u8>) -> Seq<u8>;

/// Calls `blake3::hash`: the default BLAKE3 hash of `data`, 32 bytes long, a function of
/// `data` alone.
#[verifier::external_body]
fn blake3_hash(data: &[u8]) -> (r: Vec<u8>)
    ensures
        r@ == blake3_digest(data@),
        r@.len() == 32,
{
    blake3::hash(data).as_bytes().to_vec()
}

/// The XXH32 hash of a byte string under a seed.
pub uninterp spec fn xxh32_value(data: Seq<u8>, seed: u32) -> u32;

/// Calls `xxhash_rust::xxh32::xxh32`: a function of `data` and `seed` alone.
#[verifier::external_body]
fn xxh32(data: &[u8], seed: u32) -> (r: u32)
    ensures
        r == xxh32_value(data@, seed),
{
    xxhash_rust::xxh32::xxh32(data, seed)
}

/// The XXH64 hash of a byte string under a seed.
pub uninterp spec fn xxh64_value(data: Seq<u8>, seed: u64) -> u64;

/// Calls `xxhash_rust::xxh64::xxh64`: a function of `data` and `seed` alone.
#[verifier::external_body]
fn xxh64(data: &[u8], seed: u64) -> (r: u64)
    ensures
        r == xxh64_value(data@, seed),
{
    xxhash_rust::xxh64::xxh64(data, seed)
}

/// The 64-bit XXH3 hash of a byte string, with the default secret and no seed.
pub uninterp spec fn xxh3_value(data: Seq<u8>) -> u64;

/// Calls `xxhash_rust::xxh3::xxh3_64`: a function of `data` alone.
#[verifier::external_body]
fn xxh3(data: &[u8]) -> (r: u64)
    ensures
        r == xxh3_value(data@),
{
    xxhash_rust::xxh3::xxh3_64(data)
}

/// The CRC-32 checksum of a byte string.
pub uninterp spec fn crc32_value(data: Seq<u8>) -> u32;

/// Calls `crc32fast::hash`: a function of `data` alone.
#[verifier::external_body]
fn crc32(data: &[u8]) -> (r: u32)
    ensures
        r == crc32_value(data@),
{
    crc32fast::hash(data)
}

/// The digest of `data` in lower-case hexadecimal.
pub open spec fn digest_text(algo: HashAlgo, data: Seq<u8>) -> Seq<char> {
    match algo {
        HashAlgo::Md5 => hex_of(md5_digest(data)),
        HashAlgo::Sha1 => hex_of(sha1_digest(data)),
        HashAlgo::Sha256 => hex_of(sha256_digest(data)),
        HashAlgo::Sha512 => hex_of(sha512_digest(data)),
        HashAlgo::Sha3_256 => hex_of(sha3_256_digest(data)),
        HashAlgo::Sha3_512 => hex_of(sha3_512_digest(data)),
        HashAlgo::Blake2b => hex_of(blake2b_digest(data)),
        HashAlgo::Blake3 => hex_of(blake3_digest(data)),
        HashAlgo::Xxh32 => fixed_hex(xxh32_value(data, SEED) as nat, 8),
        HashAlgo::Xxh64 => fixed_hex(xxh64_value(data, SEED as u64) as nat, 16),
        HashAlgo::Xxh3 => fixed_hex(xxh3_value(data) as nat, 16),
        HashAlgo::Crc32 => fixed_hex(crc32_value(data) as nat, 8),
    }
}

/// How many hexadecimal digits the digests of an algorithm have.
pub open spec fn digest_width(algo: HashAlgo) -> nat {
    match algo {
        HashAlgo::Md5 => 32,
        HashAlgo::Sha1 => 40,
        HashAlgo::Sha256 => 64,
        HashAlgo::Sha512 => 128,
        HashAlgo::Sha3_256 => 64,
        HashAlgo::Sha3_512 => 128,
        HashAlgo::Blake2b => 128,
        HashAlgo::Blake3 => 64,
        HashAlgo::Xxh32 => 8,
        HashAlgo::Xxh64 => 16,
        HashAlgo::Xxh3 => 16,
        HashAlgo::Crc32 => 8,
    }
}

/// Every character of `s` is a lower-case hexadecimal digit.
pub open spec fn is_hex(s: Seq<char>) -> bool {
    forall|i: int| 0 <= i < s.len() ==> is_hex_digit(#[trigger] s[i])
}

/// `digest` is the digest of `data`, in as many lower-case hexadecimal digits as the digests of
/// the algorithm have.
pub open spec fn is_digest(algo: HashAlgo, data: Seq<u8>, digest: Seq<char>) -> bool {
    &&& digest == digest_text(algo, data)
    &&& digest.len() == digest_width(algo)
    &&& is_hex(digest)
}

/// A digest that comes as bytes, in hexadecimal.
fn from_bytes(bytes: Vec<u8>) -> (r: String)
    ensures
        r@ == hex_of(bytes@),
        r@.len() == 2 * bytes@.len(),
        is_hex(r@),
{
    proof {
        lemma_hex_of_len(bytes@);
        lemma_hex_of_digits(bytes@);
    }
    hex_bytes(bytes.as_slice())
}

/// A digest that comes as a number, in hexadecimal.
fn from_number(n: u64, width: usize) -> (r: String)
    ensures
        r@ == fixed_hex(n as nat, width as nat),
        r@.len() == width,
        is_hex(r@),
{
    proof {
        lemma_fixed_hex_len(n as nat, width as nat);
        lemma_fixed_hex_digits(n as nat, width as nat);
    }
    hex_number(n, width)
}

/// A digest tells two contents apart if and only if the algorithm does, applied to each of them
/// as a whole.
pub proof fn law_digests_tell_apart_what_the_algorithm_does(
    algo: HashAlgo,
    a: Seq<u8>,
    b: Seq<u8>,
)
    ensures
        algo is Md5 ==> (digest_text(algo, a) == digest_text(algo, b) <==> md5_digest(a)
            == md5_digest(b)),
        algo is Sha1 ==> (digest_text(algo, a) == digest_text(algo, b) <==> sha1_digest(a)
            == sha1_digest(b)),
        algo is Sha256 ==> (digest_text(algo, a) == digest_text(algo, b) <==> sha256_digest(a)
            == sha256_digest(b)),
        algo is Sha512 ==> (digest_text(algo, a) == digest_text(algo, b) <==> sha512_digest(a)
            == sha512_digest(b)),
        algo is Sha3_256 ==> (digest_text(algo, a) == digest_text(algo, b) <==> sha3_256_digest(a)
            == sha3_256_digest(b)),
        algo is Sha3_512 ==> (digest_text(algo, a) == digest_text(algo, b) <==> sha3_512_digest(a)
            == sha3_512_digest(b)),
        algo is Blake2b ==> (digest_text(algo, a) == digest_text(algo, b) <==> blake2b_digest(a)
            == blake2b_digest(b)),
        algo is Blake3 ==> (digest_text(algo, a) == digest_text(algo, b) <==> blake3_digest(a)
            == blake3_digest(b)),
        algo is Xxh32 ==> (digest_text(algo, a) == digest_text(algo, b) <==> xxh32_value(a, 0)
            == xxh32_value(b, 0)),
        algo is Xxh64 ==> (digest_text(algo, a) == digest_text(algo, b) <==> xxh64_value(a, 0)
            == xxh64_value(b, 0)),
        algo is Xxh3 ==> (digest_text(algo, a) == digest_text(algo, b) <==> xxh3_value(a)
            == xxh3_value(b)),
        algo is Crc32 ==> (digest_text(algo, a) == digest_text(algo, b) <==> crc32_value(a)
            == crc32_value(b)),
{
    lemma_hex_room();
    match algo {
        HashAlgo::Md5 => law_hex_tells_bytes_apart(md5_digest(a), md5_digest(b)),
        HashAlgo::Sha1 => law_hex_tells_bytes_apart(sha1_digest(a), sha1_digest(b)),
        HashAlgo::Sha256 => law_hex_tells_bytes_apart(sha256_digest(a), sha256_digest(b)),
        HashAlgo::Sha512 => law_hex_tells_bytes_apart(sha512_digest(a), sha512_digest(b)),
        HashAlgo::Sha3_256 => law_hex_tells_bytes_apart(sha3_256_digest(a), sha3_256_digest(b)),
        HashAlgo::Sha3_512 => law_hex_tells_bytes_apart(sha3_512_digest(a), sha3_512_digest(b)),
        HashAlgo::Blake2b => law_hex_tells_bytes_apart(blake2b_digest(a), blake2b_digest(b)),
        HashAlgo::Blake3 => law_hex_tells_bytes_apart(blake3_digest(a), blake3_digest(b)),
        HashAlgo::Xxh32 => law_hex_tells_numbers_apart(
            xxh32_value(a, 0) as nat,
            xxh32_value(b, 0) as nat,
            8,
        ),
        HashAlgo::Xxh64 => law_hex_tells_numbers_apart(
            xxh64_value(a, 0) as nat,
            xxh64_value(b, 0) as nat,
            16,
        ),
        HashAlgo::Xxh3 => law_hex_tells_numbers_apart(
            xxh3_value(a) as nat,
            xxh3_value(b) as nat,
            16,
        ),
        HashAlgo::Crc32 => law_hex_tells_numbers_apart(
            crc32_value(a) as nat,
            crc32_value(b) as nat,
            8,
        ),
    }
}

/// The text of a digest is what the algorithm gives for the whole content, in hexadecimal: the
/// bytes, or a number that the text writes.
pub proof fn law_digest_text_is_of_the_whole_content(algo: HashAlgo, a: Seq<u8>)
    ensures
        algo is Md5 ==> digest_text(algo, a) == hex_of(md5_digest(a)),
        algo is Sha1 ==> digest_text(algo, a) == hex_of(sha1_digest(a)),
        algo is Sha256 ==> digest_text(algo, a) == hex_of(sha256_digest(a)),
        algo is Sha512 ==> digest_text(algo, a) == hex_of(sha512_digest(a)),
        algo is Sha3_256 ==> digest_text(algo, a) == hex_of(sha3_256_digest(a)),
        algo is Sha3_512 ==> digest_text(algo, a) == hex_of(sha3_512_digest(a)),
        algo is Blake2b ==> digest_text(algo, a) == hex_of(blake2b_digest(a)),
        algo is Blake3 ==> digest_text(algo, a) == hex_of(blake3_digest(a)),
        algo is Xxh32 ==> hex_value(digest_text(algo, a)) == xxh32_value(a, 0),
        algo is Xxh64 ==> hex_value(digest_text(algo, a)) == xxh64_value(a, 0),
        algo is Xxh3 ==> hex_value(digest_text(algo, a)) == xxh3_value(a),
        algo is Crc32 ==> hex_value(digest_text(algo, a)) == crc32_value(a),
{
    lemma_hex_room();
    match algo {
        HashAlgo::Xxh32 => law_fixed_hex_is_read_back(xxh32_value(a, 0) as nat, 8),
        HashAlgo::Xxh64 => law_fixed_hex_is_read_back(xxh64_value(a, 0) as nat, 16),
        HashAlgo::Xxh3 => law_fixed_hex_is_read_back(xxh3_value(a) as nat, 16),
        HashAlgo::Crc32 => law_fixed_hex_is_read_back(crc32_value(a) as nat, 8),
        _ => {},
    }
}

/// Eight hexadecimal digits are enough for 32 bits, and sixteen for 64.
proof fn lemma_hex_room()
    ensures
        pow(16, 8) == 0x1_0000_0000,
        pow(16, 16) == 0x1_0000_0000_0000_0000,
{
    reveal_with_fuel(power, 17);
    law_power_multiplies(16, 8);
    law_power_multiplies(16, 16);
}

/// The digest of a file's content. It is never empty, and one algorithm's digests all have
/// the same length.
pub fn hash_of(content: &[u8], algo: HashAlgo) -> (r: String)
    requires
        content@.len() < CONTENT_LIMIT,
    ensures
        is_digest(algo, content@, r@),
        algo is Md5 ==> r@ == hex_of(md5_digest(content@)),
        algo is Sha1 ==> r@ == hex_of(sha1_digest(content@)),
        algo is Sha256 ==> r@ == hex_of(sha256_digest(content@)),
        algo is Sha512 ==> r@ == hex_of(sha512_digest(content@)),
        algo is Sha3_256 ==> r@ == hex_of(sha3_256_digest(content@)),
        algo is Sha3_512 ==> r@ == hex_of(sha3_512_digest(content@)),
        algo is Blake2b ==> r@ == hex_of(blake2b_digest(content@)),
        algo is Blake3 ==> r@ == hex_of(blake3_digest(content@)),
        algo is Xxh32 ==> r@ == fixed_hex(xxh32_value(content@, 0) as nat, 8),
        algo is Xxh64 ==> r@ == fixed_hex(xxh64_value(content@, 0) as nat, 16),
        algo is Xxh3 ==> r@ == fixed_hex(xxh3_value(content@) as nat, 16),
        algo is Crc32 ==> r@ == fixed_hex(crc32_value(content@) as nat, 8),
{
    match algo {
        HashAlgo::Md5 => from_bytes(md5(content)),
        HashAlgo::Sha1 => from_bytes(sha1(content)),
        HashAlgo::Sha256 => from_bytes(sha256(content)),
        HashAlgo::Sha512 => from_bytes(sha512(content)),
        HashAlgo::Sha3_256 => from_bytes(sha3_256(content)),
        HashAlgo::Sha3_512 => from_bytes(sha3_512(content)),
        HashAlgo::Blake2b => from_bytes(blake2b(content)),
        HashAlgo::Blake3 => from_bytes(blake3_hash(content)),
        HashAlgo::Xxh32 => from_number(xxh32(content, SEED) as u64, 8),
        HashAlgo::Xxh64 => from_number(xxh64(content, SEED as u64), 16),
        HashAlgo::Xxh3 => from_number(xxh3(content), 16),
        HashAlgo::Crc32 => from_number(crc32(content) as u64, 8),
    }
}

} // verus!
