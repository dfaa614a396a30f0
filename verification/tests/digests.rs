use repo_index::digest::{hashsum, HashAlgo};

#[test]
fn test_digest_empty_vectors() {
    assert_eq!(hashsum(HashAlgo::Md5, b""), "d41d8cd98f00b204e9800998ecf8427e");
    assert_eq!(
        hashsum(HashAlgo::Sha1, b""),
        "da39a3ee5e6b4b0d3255bfef95601890afd80709"
    );
    assert_eq!(
        hashsum(HashAlgo::Sha256, b""),
        "e3b0c44298fc1c149afbf4c8996fb92427ae41e4649b934ca495991b7852b855"
    );
    assert_eq!(
        hashsum(HashAlgo::Sha512, b""),
        "cf83e1357eefb8bdf1542850d66d8007d620e4050b5715dc83f4a921d36ce9ce\
         47d0d13c5d85f2b0ff8318d2877eec2f63b931bd47417a81a538327af927da3e"
            .replace(char::is_whitespace, "")
    );
}

#[test]
fn test_digest_abc_vectors() {
    assert_eq!(hashsum(HashAlgo::Md5, b"abc"), "900150983cd24fb0d6963f7d28e17f72");
    assert_eq!(
        hashsum(HashAlgo::Sha1, b"abc"),
        "a9993e364706816aba3e25717850c26c9cd0d89d"
    );
    assert_eq!(
        hashsum(HashAlgo::Sha256, b"abc"),
        "ba7816bf8f01cfea414140de5dae2223b00361a396177a9cb410ff61f20015ad"
    );
    assert_eq!(
        hashsum(HashAlgo::Sha512, b"abc"),
        "ddaf35a193617abacc417349ae20413112e6fa4e89a97ea20a9eeee64b55d39a\
         2192992a274fc1a836ba3c23a3feebbd454d4423643ce80e2a9ac94fa54ca49f"
            .replace(char::is_whitespace, "")
    );
}
