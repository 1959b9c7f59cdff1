[package]
name = "compare_dirs"
version = "0.1.0"
edition = "2021"
publish = false

[dependencies]
blake2 = "0.10"
blake3 = "=1.8.7"
clap = { version = "=4.6.7", features = ["derive"] }
crc32fast = "=1.5.4"
ctrlc = "=3.5.2"
digest = "0.10"
md-5 = "0.10"
num_cpus = "=1.17.0"
sha1 = "0.10"
sha2 = "0.10"
sha3 = "0.10"
signal-hook = "=0.3.18"
terminal_size = "=0.4.4"
walkdir = "=2.5.0"
xxhash-rust = { version = "=0.8.19", features = ["xxh32", "xxh64", "xxh3"] }
