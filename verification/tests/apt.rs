use repo_index::apt_index::{AptIndices, DebianPackage, IndexError};
use repo_index::compress::gzip_compression;
use repo_index::digest::{hashsum, HashAlgo};
use repo_index::package::Package;

fn fixture_data(seed: u32, len: u32) -> Vec<u8> {
    (0..len).map(|i| ((i * 7 + seed * 13) % 251) as u8).collect()
}

fn fixture_package(name: &str, ver: &str, data: Option<Vec<u8>>, created: i64) -> Package {
    let url = format!("https://example.invalid/releases/{ver}/{name}");
    let mut pack = Package::detect_package(name, ver.to_owned(), url, created).unwrap();
    if let Some(d) = data {
        pack.set_data(d);
    }
    pack
}

fn control_text(name: &str) -> String {
    format!(
        "Package: {name}\nVersion: 2.0.0\nArchitecture: amd64\nDescription: example\n  text\n\n"
    )
}

#[test]
fn test_apt_package_index_exact() {
    let data = fixture_data(1, 2048);
    let pack = fixture_package(
        "OpenBangla-Keyboard_2.0.0-ubuntu20.04.deb",
        "2.0.0",
        Some(data.clone()),
        0,
    );
    let controls = vec![control_text("openbangla-keyboard")];
    let indices = AptIndices::new(std::slice::from_ref(&pack), &controls);

    let packages = indices.get_package_index();
    let expected = format!(
        "Package: openbangla-keyboard\nVersion: 2.0.0\nArchitecture: amd64\n\
         Description: example\n  text\n\
         Filename: pool/stable/2.0.0/OpenBangla-Keyboard_2.0.0-ubuntu20.04.deb\n\
         Size: {}\nMD5sum: {}\nSHA1: {}\nSHA256: {}\nSHA512: {}",
        data.len(),
        hashsum(HashAlgo::Md5, &data),
        hashsum(HashAlgo::Sha1, &data),
        hashsum(HashAlgo::Sha256, &data),
        hashsum(HashAlgo::Sha512, &data),
    );
    assert_eq!(packages, expected);
}

#[test]
fn test_apt_release_index() {
    let created = chrono::DateTime::parse_from_rfc2822("Wed, 8 Nov 2023 16:40:12 +0000")
        .unwrap()
        .timestamp();
    let pack = fixture_package(
        "OpenBangla-Keyboard_2.0.0-ubuntu20.04.deb",
        "2.0.0",
        Some(fixture_data(1, 2048)),
        created,
    );
    let controls = vec![control_text("openbangla-keyboard")];
    let indices = AptIndices::new(std::slice::from_ref(&pack), &controls);

    let packages = indices.get_package_index();
    let release = indices.get_release_index();

    assert!(release.starts_with("Origin: . stable\nLabel: . stable\n"));
    assert!(release.contains("Date: Wed, 8 Nov 2023 16:40:12 +0000\n"));
    assert!(release.contains("MD5Sum:\n"));
    assert!(release.contains("SHA1:\n"));
    assert!(release.contains("SHA256:\n"));
    assert!(release.contains("SHA512:\n"));

    // Round-trip size accounting: each file entry carries the exact byte
    // length of the listing it describes.
    let gz = gzip_compression(packages.as_bytes());
    assert!(release.contains(&format!(
        " {} {} main/binary-amd64/Packages\n",
        hashsum(HashAlgo::Sha256, packages.as_bytes()),
        packages.len(),
    )));
    assert!(release.contains(&format!(
        " {} {} main/binary-amd64/Packages.gz\n",
        hashsum(HashAlgo::Sha256, &gz),
        gz.len(),
    )));
}

#[test]
fn test_apt_index_idempotent() {
    let pack = fixture_package(
        "fcitx-openbangla_3.0.0.deb",
        "3.0.0",
        Some(fixture_data(2, 3000)),
        1_700_000_000,
    );
    let controls = vec![control_text("fcitx-openbangla")];
    let a = AptIndices::new(std::slice::from_ref(&pack), &controls);
    let b = AptIndices::new(std::slice::from_ref(&pack), &controls);
    assert_eq!(a.get_package_index(), b.get_package_index());
    assert_eq!(a.get_release_index(), b.get_release_index());
}

#[test]
fn test_apt_partial_availability() {
    let with_data = fixture_package(
        "fcitx-openbangla_3.0.0.deb",
        "3.0.0",
        Some(fixture_data(3, 1024)),
        0,
    );
    let without_data = fixture_package("ibus-openbangla_3.0.0.deb", "3.0.0", None, 0);
    let packages = vec![with_data, without_data];
    let controls = vec![
        control_text("fcitx-openbangla"),
        control_text("ibus-openbangla"),
    ];
    let indices = AptIndices::new(&packages, &controls);

    let listing = indices.get_package_index();
    assert_eq!(listing.matches("Filename: ").count(), 1);
    assert!(listing.contains("pool/stable/3.0.0/fcitx-openbangla_3.0.0.deb"));
    assert!(!listing.contains("ibus"));
}

#[test]
fn test_missing_raw_data_error() {
    let pack = fixture_package("ibus-openbangla_3.0.0.deb", "3.0.0", None, 0);
    let r = DebianPackage::from_package(&pack, "Package: x\n");
    assert_eq!(r.unwrap_err(), IndexError::MissingRawData);
}

#[test]
fn test_two_package_fixture_lengths_pinned() {
    // The two-package fixture set: the plain listing's byte length and its
    // deterministic gzip compression's byte length are pinned so that any
    // change of the document shape or the compressor's output is deliberate.
    let package1 = fixture_package(
        "fcitx-openbangla_3.0.0.deb",
        "3.0.0",
        Some(fixture_data(4, 4096)),
        0,
    );
    let package2 = fixture_package(
        "ibus-openbangla_3.0.0.deb",
        "3.0.0",
        Some(fixture_data(5, 4096)),
        0,
    );
    let packages = vec![package1, package2];
    let controls = vec![
        control_text("fcitx-openbangla"),
        control_text("ibus-openbangla"),
    ];
    let indices = AptIndices::new(&packages, &controls);

    let listing = indices.get_package_index();
    assert_eq!(listing.as_bytes().len(), 904);
    let listing_gz = gzip_compression(listing.as_bytes());
    assert_eq!(listing_gz.len(), 517);

    // Stanzas keep the order of the input pool.
    assert!(listing.find("fcitx-openbangla").unwrap() < listing.find("ibus-openbangla").unwrap());
}

#[test]
fn test_empty_pool_release() {
    let indices = AptIndices::new(&[], &[]);
    assert_eq!(indices.get_package_index(), "");
    let release = indices.get_release_index();
    // The empty pool is dated with the epoch and describes the zero-byte
    // listing and its compression.
    assert!(release.contains("Date: Thu, 1 Jan 1970 00:00:00 +0000\n"));
    assert!(release.contains(&format!(
        " {} 0 main/binary-amd64/Packages\n",
        hashsum(HashAlgo::Md5, b""),
    )));
}
