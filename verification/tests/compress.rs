use std::io::Read;

use repo_index::compress::{gzip_compression, zstd_compress};

fn sample_bytes() -> Vec<u8> {
    (0u32..4096).map(|i| (i * 31 % 251) as u8).collect()
}

#[test]
fn test_gzip_deterministic() {
    let data = sample_bytes();
    let a = gzip_compression(&data);
    let b = gzip_compression(&data);
    assert_eq!(a, b);
    assert_ne!(a, data);
}

#[test]
fn test_zstd_deterministic() {
    let data = sample_bytes();
    let a = zstd_compress(&data, 0);
    let b = zstd_compress(&data, 0);
    assert_eq!(a, b);
    assert_ne!(a, data);
}

#[test]
fn test_gzip_roundtrip() {
    let data = sample_bytes();
    let gz = gzip_compression(&data);
    let mut decoder = libflate::gzip::Decoder::new(&gz[..]).unwrap();
    let mut plain = Vec::new();
    decoder.read_to_end(&mut plain).unwrap();
    assert_eq!(plain, data);
    // The deterministic header carries a zeroed modification time.
    assert_eq!(decoder.header().modification_time(), 0);
}

#[test]
fn test_zstd_roundtrip() {
    let data = sample_bytes();
    let z = zstd_compress(&data, 0);
    let plain = zstd::stream::decode_all(&z[..]).unwrap();
    assert_eq!(plain, data);
}
