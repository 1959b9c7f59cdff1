//! The hash algorithms and the names they go by.

use vstd::prelude::*;

use crate::text::same_text;

verus! {

/// A hash algorithm.
#[derive(Clone, Copy, Debug, PartialEq, Eq, Structural)]
pub enum HashAlgo {
    Md5,
    Sha1,
    Sha256,
    Sha512,
    Sha3_256,
    Sha3_512,
    Blake2b,
    Blake3,
    Xxh32,
    Xxh64,
    Xxh3,
    Crc32,
}

/// The name of the command-line tool that computes the same digest.
pub open spec fn tool_name(algo: HashAlgo) -> Seq<char> {
    match algo {
        HashAlgo::Md5 => "md5sum"@,
        HashAlgo::Sha1 => "sha1sum"@,
        HashAlgo::Sha256 => "sha256sum"@,
        HashAlgo::Sha512 => "sha512sum"@,
        HashAlgo::Sha3_256 => "sha3-256sum"@,
        HashAlgo::Sha3_512 => "sha3-512sum"@,
        HashAlgo::Blake2b => "b2sum"@,
        HashAlgo::Blake3 => "b3sum"@,
        HashAlgo::Xxh32 => "xxh32sum"@,
        HashAlgo::Xxh64 => "xxh64sum"@,
        HashAlgo::Xxh3 => "xxh3sum"@,
        HashAlgo::Crc32 => "crc32sum"@,
    }
}

/// The name of the algorithm itself.
pub open spec fn short_name(algo: HashAlgo) -> Seq<char> {
    match algo {
        HashAlgo::Md5 => "md5"@,
        HashAlgo::Sha1 => "sha1"@,
        HashAlgo::Sha256 => "sha256"@,
        HashAlgo::Sha512 => "sha512"@,
        HashAlgo::Sha3_256 => "sha3-256"@,
        HashAlgo::Sha3_512 => "sha3-512"@,
        HashAlgo::Blake2b => "blake2b"@,
        HashAlgo::Blake3 => "blake3"@,
        HashAlgo::Xxh32 => "xxh32"@,
        HashAlgo::Xxh64 => "xxh64"@,
        HashAlgo::Xxh3 => "xxh3"@,
        HashAlgo::Crc32 => "crc32"@,
    }
}

/// `name` is one of the two names of `algo`.
pub open spec fn goes_by(algo: HashAlgo, name: Seq<char>) -> bool {
    name == tool_name(algo) || name == short_name(algo)
}

/// No name stands for two algorithms.
pub proof fn law_names_are_unambiguous(a: HashAlgo, b: HashAlgo, name: Seq<char>)
    requires
        goes_by(a, name),
        goes_by(b, name),
    ensures
        a == b,
{
    reveal_strlit("md5sum");
    reveal_strlit("md5");
    reveal_strlit("sha1sum");
    reveal_strlit("sha1");
    reveal_strlit("sha256sum");
    reveal_strlit("sha256");
    reveal_strlit("sha512sum");
    reveal_strlit("sha512");
    reveal_strlit("sha3-256sum");
    reveal_strlit("sha3-256");
    reveal_strlit("sha3-512sum");
    reveal_strlit("sha3-512");
    reveal_strlit("b2sum");
    reveal_strlit("blake2b");
    reveal_strlit("b3sum");
    reveal_strlit("blake3");
    reveal_strlit("xxh32sum");
    reveal_strlit("xxh32");
    reveal_strlit("xxh64sum");
    reveal_strlit("xxh64");
    reveal_strlit("xxh3sum");
    reveal_strlit("xxh3");
    reveal_strlit("crc32sum");
    reveal_strlit("crc32");
    assert("md5sum"@.len() == 6);
    assert("md5"@.len() == 3);
    assert("sha1sum"@.len() == 7);
    assert("sha1"@.len() == 4);
    assert("sha256sum"@.len() == 9);
    assert("sha256"@.len() == 6);
    assert("sha512sum"@.len() == 9);
    assert("sha512"@.len() == 6);
    assert("sha3-256sum"@.len() == 11);
    assert("sha3-256"@.len() == 8);
    assert("sha3-512sum"@.len() == 11);
    assert("sha3-512"@.len() == 8);
    assert("b2sum"@.len() == 5);
    assert("blake2b"@.len() == 7);
    assert("b3sum"@.len() == 5);
    assert("blake3"@.len() == 6);
    assert("xxh32sum"@.len() == 8);
    assert("xxh32"@.len() == 5);
    assert("xxh64sum"@.len() == 8);
    assert("xxh64"@.len() == 5);
    assert("xxh3sum"@.len() == 7);
    assert("xxh3"@.len() == 4);
    assert("crc32sum"@.len() == 8);
    assert("crc32"@.len() == 5);
    // Names of different length differ; these characters tell the others apart.
    assert("sha1"@[0] == 's');
    assert("xxh3"@[0] == 'x');
    assert("b2sum"@[0] == 'b' && "b2sum"@[1] == '2');
    assert("b3sum"@[0] == 'b' && "b3sum"@[1] == '3');
    assert("xxh32"@[0] == 'x' && "xxh32"@[3] == '3');
    assert("xxh64"@[0] == 'x' && "xxh64"@[3] == '6');
    assert("crc32"@[0] == 'c');
    assert("md5sum"@[0] == 'm');
    assert("sha256"@[0] == 's' && "sha256"@[3] == '2');
    assert("sha512"@[0] == 's' && "sha512"@[3] == '5');
    assert("blake3"@[0] == 'b');
    assert("sha1sum"@[0] == 's');
    assert("blake2b"@[0] == 'b');
    assert("xxh3sum"@[0] == 'x');
    assert("sha3-256"@[0] == 's' && "sha3-256"@[5] == '2');
    assert("sha3-512"@[0] == 's' && "sha3-512"@[5] == '5');
    assert("xxh32sum"@[0] == 'x' && "xxh32sum"@[3] == '3');
    assert("xxh64sum"@[0] == 'x' && "xxh64sum"@[3] == '6');
    assert("crc32sum"@[0] == 'c');
    assert("sha256sum"@[3] == '2');
    assert("sha512sum"@[3] == '5');
    assert("sha3-256sum"@[5] == '2');
    assert("sha3-512sum"@[5] == '5');
}

/// The tool names, in the order in which they are offered.
pub const ALLOWED_ALGOS: [&'static str; 12] = [
    "md5sum",
    "sha1sum",
    "sha256sum",
    "sha512sum",
    "sha3-256sum",
    "sha3-512sum",
    "b2sum",
    "b3sum",
    "xxh32sum",
    "xxh64sum",
    "xxh3sum",
    "crc32sum",
];

/// Every name of every algorithm.
pub proof fn law_names_of_the_algorithms(name: Seq<char>)
    ensures
        goes_by(HashAlgo::Md5, name) <==> name == "md5sum"@ || name == "md5"@,
        goes_by(HashAlgo::Sha1, name) <==> name == "sha1sum"@ || name == "sha1"@,
        goes_by(HashAlgo::Sha256, name) <==> name == "sha256sum"@ || name == "sha256"@,
        goes_by(HashAlgo::Sha512, name) <==> name == "sha512sum"@ || name == "sha512"@,
        goes_by(HashAlgo::Sha3_256, name) <==> name == "sha3-256sum"@ || name == "sha3-256"@,
        goes_by(HashAlgo::Sha3_512, name) <==> name == "sha3-512sum"@ || name == "sha3-512"@,
        goes_by(HashAlgo::Blake2b, name) <==> name == "b2sum"@ || name == "blake2b"@,
        goes_by(HashAlgo::Blake3, name) <==> name == "b3sum"@ || name == "blake3"@,
        goes_by(HashAlgo::Xxh32, name) <==> name == "xxh32sum"@ || name == "xxh32"@,
        goes_by(HashAlgo::Xxh64, name) <==> name == "xxh64sum"@ || name == "xxh64"@,
        goes_by(HashAlgo::Xxh3, name) <==> name == "xxh3sum"@ || name == "xxh3"@,
        goes_by(HashAlgo::Crc32, name) <==> name == "crc32sum"@ || name == "crc32"@,
{
}

/// What is offered are the names of the tools of all algorithms, each of them once.
pub proof fn law_every_tool_is_offered_once(algo: HashAlgo)
    ensures
        ALLOWED_ALGOS@.len() == 12,
        exists|i: int| 0 <= i < 12 && goes_by(algo, #[trigger] ALLOWED_ALGOS@[i]@),
        forall|i: int, j: int|
            0 <= i < 12 && 0 <= j < 12 && goes_by(algo, #[trigger] ALLOWED_ALGOS@[i]@) && goes_by(
                algo,
                #[trigger] ALLOWED_ALGOS@[j]@,
            ) ==> i == j,
{
    let names = ALLOWED_ALGOS@;
    assert(goes_by(HashAlgo::Md5, names[0]@));
    assert(goes_by(HashAlgo::Sha1, names[1]@));
    assert(goes_by(HashAlgo::Sha256, names[2]@));
    assert(goes_by(HashAlgo::Sha512, names[3]@));
    assert(goes_by(HashAlgo::Sha3_256, names[4]@));
    assert(goes_by(HashAlgo::Sha3_512, names[5]@));
    assert(goes_by(HashAlgo::Blake2b, names[6]@));
    assert(goes_by(HashAlgo::Blake3, names[7]@));
    assert(goes_by(HashAlgo::Xxh32, names[8]@));
    assert(goes_by(HashAlgo::Xxh64, names[9]@));
    assert(goes_by(HashAlgo::Xxh3, names[10]@));
    assert(goes_by(HashAlgo::Crc32, names[11]@));
    assert forall|i: int, j: int|
        0 <= i < 12 && 0 <= j < 12 && goes_by(algo, #[trigger] names[i]@) && goes_by(
            algo,
            #[trigger] names[j]@,
        ) implies i == j by {
        lemma_offered(i);
        lemma_offered(j);
        law_names_are_unambiguous(algo, offered(i), names[i]@);
        law_names_are_unambiguous(algo, offered(j), names[j]@);
    }
}

/// The algorithm whose tool is offered at a place.
spec fn offered(i: int) -> HashAlgo {
    if i == 0 {
        HashAlgo::Md5
    } else if i == 1 {
        HashAlgo::Sha1
    } else if i == 2 {
        HashAlgo::Sha256
    } else if i == 3 {
        HashAlgo::Sha512
    } else if i == 4 {
        HashAlgo::Sha3_256
    } else if i == 5 {
        HashAlgo::Sha3_512
    } else if i == 6 {
        HashAlgo::Blake2b
    } else if i == 7 {
        HashAlgo::Blake3
    } else if i == 8 {
        HashAlgo::Xxh32
    } else if i == 9 {
        HashAlgo::Xxh64
    } else if i == 10 {
        HashAlgo::Xxh3
    } else {
        HashAlgo::Crc32
    }
}

/// The name at a place is that of the algorithm offered there.
proof fn lemma_offered(i: int)
    requires
        0 <= i < 12,
    ensures
        goes_by(offered(i), ALLOWED_ALGOS@[i]@),
{
}

impl HashAlgo {
    /// The algorithm that goes by `name`, if any does.
    pub fn from_name(name: &str) -> (r: Option<Self>)
        ensures
            forall|a: HashAlgo| #[trigger] goes_by(a, name@) <==> r == Some(a),
            r == Some(HashAlgo::Md5) <==> name@ == "md5sum"@ || name@ == "md5"@,
            r == Some(HashAlgo::Sha1) <==> name@ == "sha1sum"@ || name@ == "sha1"@,
            r == Some(HashAlgo::Sha256) <==> name@ == "sha256sum"@ || name@ == "sha256"@,
            r == Some(HashAlgo::Sha512) <==> name@ == "sha512sum"@ || name@ == "sha512"@,
            r == Some(HashAlgo::Sha3_256) <==> name@ == "sha3-256sum"@ || name@ == "sha3-256"@,
            r == Some(HashAlgo::Sha3_512) <==> name@ == "sha3-512sum"@ || name@ == "sha3-512"@,
            r == Some(HashAlgo::Blake2b) <==> name@ == "b2sum"@ || name@ == "blake2b"@,
            r == Some(HashAlgo::Blake3) <==> name@ == "b3sum"@ || name@ == "blake3"@,
            r == Some(HashAlgo::Xxh32) <==> name@ == "xxh32sum"@ || name@ == "xxh32"@,
            r == Some(HashAlgo::Xxh64) <==> name@ == "xxh64sum"@ || name@ == "xxh64"@,
            r == Some(HashAlgo::Xxh3) <==> name@ == "xxh3sum"@ || name@ == "xxh3"@,
            r == Some(HashAlgo::Crc32) <==> name@ == "crc32sum"@ || name@ == "crc32"@,
    {
        let r = if same_text(name, "md5sum") || same_text(name, "md5") {
            Some(HashAlgo::Md5)
        } else if same_text(name, "sha1sum") || same_text(name, "sha1") {
            Some(HashAlgo::Sha1)
        } else if same_text(name, "sha256sum") || same_text(name, "sha256") {
            Some(HashAlgo::Sha256)
        } else if same_text(name, "sha512sum") || same_text(name, "sha512") {
            Some(HashAlgo::Sha512)
        } else if same_text(name, "sha3-256sum") || same_text(name, "sha3-256") {
            Some(HashAlgo::Sha3_256)
        } else if same_text(name, "sha3-512sum") || same_text(name, "sha3-512") {
            Some(HashAlgo::Sha3_512)
        } else if same_text(name, "b2sum") || same_text(name, "blake2b") {
            Some(HashAlgo::Blake2b)
        } else if same_text(name, "b3sum") || same_text(name, "blake3") {
            Some(HashAlgo::Blake3)
        } else if same_text(name, "xxh32sum") || same_text(name, "xxh32") {
            Some(HashAlgo::Xxh32)
        } else if same_text(name, "xxh64sum") || same_text(name, "xxh64") {
            Some(HashAlgo::Xxh64)
        } else if same_text(name, "xxh3sum") || same_text(name, "xxh3") {
            Some(HashAlgo::Xxh3)
        } else if same_text(name, "crc32sum") || same_text(name, "crc32") {
            Some(HashAlgo::Crc32)
        } else {
            None
        };
        proof {
            assert forall|a: HashAlgo| #[trigger] goes_by(a, name@) implies r == Some(a) by {
                if let Some(b) = r {
                    law_names_are_unambiguous(a, b, name@);
                }
            }
            assert(goes_by(HashAlgo::Md5, name@) <==> r == Some(HashAlgo::Md5));
            assert(goes_by(HashAlgo::Sha1, name@) <==> r == Some(HashAlgo::Sha1));
            assert(goes_by(HashAlgo::Sha256, name@) <==> r == Some(HashAlgo::Sha256));
            assert(goes_by(HashAlgo::Sha512, name@) <==> r == Some(HashAlgo::Sha512));
            assert(goes_by(HashAlgo::Sha3_256, name@) <==> r == Some(HashAlgo::Sha3_256));
            assert(goes_by(HashAlgo::Sha3_512, name@) <==> r == Some(HashAlgo::Sha3_512));
            assert(goes_by(HashAlgo::Blake2b, name@) <==> r == Some(HashAlgo::Blake2b));
            assert(goes_by(HashAlgo::Blake3, name@) <==> r == Some(HashAlgo::Blake3));
            assert(goes_by(HashAlgo::Xxh32, name@) <==> r == Some(HashAlgo::Xxh32));
            assert(goes_by(HashAlgo::Xxh64, name@) <==> r == Some(HashAlgo::Xxh64));
            assert(goes_by(HashAlgo::Xxh3, name@) <==> r == Some(HashAlgo::Xxh3));
            assert(goes_by(HashAlgo::Crc32, name@) <==> r == Some(HashAlgo::Crc32));
        }
        r
    }
}

} // verus!
