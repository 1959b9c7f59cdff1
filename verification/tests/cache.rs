use compare_dirs::algo::HashAlgo;
use compare_dirs::cache::{cleanup_cache_file, register_cache_path};
use compare_dirs::cache::{CacheAction, CacheEvent, CacheFile, HashCache};
use compare_dirs::hashing::hash_of;

fn hashed(digest: &str) -> CacheEvent {
    CacheEvent::Hashed(Some(digest.to_string()))
}

fn asked(cache: &mut HashCache, key: &str) -> Option<String> {
    match cache.hash_of_cached(key, HashAlgo::Md5, key, CacheEvent::Asked) {
        CacheAction::Answer(digest) => Some(digest),
        CacheAction::Compute => None,
        other => panic!("{other:?}"),
    }
}

#[test]
fn digests_are_remembered() {
    let mut cache = HashCache::new(true);
    assert_eq!(asked(&mut cache, "a"), None);
    match cache.hash_of_cached("a", HashAlgo::Md5, "dir/a", hashed("0a")) {
        CacheAction::Record { digest, line } => {
            assert_eq!(digest, "0a");
            assert_eq!(line, "dir/a\t0a\n");
        }
        other => panic!("{other:?}"),
    }
    assert_eq!(asked(&mut cache, "a"), Some("0a".to_string()));
    assert_eq!(asked(&mut cache, "b"), None);
    let _ = cache.hash_of_cached("b", HashAlgo::Md5, "b", hashed("0b"));
    assert_eq!(asked(&mut cache, "a"), Some("0a".to_string()));
    assert_eq!(asked(&mut cache, "b"), Some("0b".to_string()));
}

#[test]
fn later_digest_replaces_the_earlier() {
    let mut cache = HashCache::new(true);
    let _ = cache.hash_of_cached("a", HashAlgo::Md5, "a", hashed("01"));
    let _ = cache.hash_of_cached("a", HashAlgo::Md5, "a", hashed("02"));
    assert_eq!(asked(&mut cache, "a"), Some("02".to_string()));
}

#[test]
fn digests_of_different_algorithms_are_kept_apart() {
    let algos = [
        HashAlgo::Md5,
        HashAlgo::Sha1,
        HashAlgo::Sha256,
        HashAlgo::Sha512,
        HashAlgo::Sha3_256,
        HashAlgo::Sha3_512,
        HashAlgo::Blake2b,
        HashAlgo::Blake3,
        HashAlgo::Xxh32,
        HashAlgo::Xxh64,
        HashAlgo::Xxh3,
        HashAlgo::Crc32,
    ];
    let mut cache = HashCache::new(true);
    for algo in algos {
        let asked = cache.hash_of_cached("p", algo, "p", CacheEvent::Asked);
        assert!(matches!(asked, CacheAction::Compute));
        let digest = hash_of(b"content", algo);
        let _ = cache.hash_of_cached("p", algo, "p", CacheEvent::Hashed(Some(digest)));
    }
    for algo in algos {
        match cache.hash_of_cached("p", algo, "p", CacheEvent::Asked) {
            CacheAction::Answer(digest) => assert_eq!(digest, hash_of(b"content", algo)),
            other => panic!("{other:?}"),
        }
    }
}

#[test]
fn new_cache_is_empty() {
    for enabled in [true, false] {
        let mut cache = HashCache::new(enabled);
        cache.enabled = true;
        assert_eq!(asked(&mut cache, "a"), None);
    }
}

#[test]
fn disabled_cache_remembers_nothing() {
    let mut cache = HashCache::new(false);
    match cache.hash_of_cached("a", HashAlgo::Md5, "a", hashed("0a")) {
        CacheAction::Answer(digest) => assert_eq!(digest, "0a"),
        other => panic!("{other:?}"),
    }
    assert_eq!(asked(&mut cache, "a"), None);
}

#[test]
fn unreadable_file_has_no_digest() {
    for enabled in [true, false] {
        let mut cache = HashCache::new(enabled);
        let action = cache.hash_of_cached("a", HashAlgo::Md5, "a", CacheEvent::Hashed(None));
        assert!(matches!(action, CacheAction::Fail));
        assert_eq!(asked(&mut cache, "a"), None);
    }
}

#[test]
fn cache_file_is_removed_once() {
    let mut file: CacheFile<String> = CacheFile::new();
    assert_eq!(cleanup_cache_file(&mut file), None);
    register_cache_path(&mut file, "/tmp/x".to_string());
    assert_eq!(cleanup_cache_file(&mut file), Some("/tmp/x".to_string()));
    assert_eq!(cleanup_cache_file(&mut file), None);
}

#[test]
fn cache_file_may_be_kept() {
    let mut file: CacheFile<String> = CacheFile::new();
    register_cache_path(&mut file, "/tmp/x".to_string());
    file.keep = true;
    assert_eq!(cleanup_cache_file(&mut file), None);
    assert_eq!(file.path, Some("/tmp/x".to_string()));
}
