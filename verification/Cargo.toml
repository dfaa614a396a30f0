[package]
name = "repo_index"
version = "0.1.0"
edition = "2021"
publish = false

[dependencies]
chrono = "*"
lenient_semver = "*"
libflate = "*"
md-5 = "*"
reqwest = { version = "*", default-features = false }
sha1 = "*"
sha2 = "*"
tracing = "*"
zstd = "*"
