use repo_index::compress::zstd_compress;
use repo_index::digest::{hashsum, HashAlgo};
use repo_index::package::Package;
use repo_index::rpm_index::{
    get_filelists_index, get_other_index, get_primary_index, get_repomd_index, Metadata,
    RPMPackage,
};

fn fixture_data(seed: u32, len: u32) -> Vec<u8> {
    (0..len).map(|i| ((i * 11 + seed * 17) % 251) as u8).collect()
}

fn fixture_rpm() -> RPMPackage {
    let name = "OpenBangla-Keyboard_2.0.0-fedora38.rpm";
    let url = format!("https://example.invalid/releases/2.0.0/{name}");
    let mut pack = Package::detect_package(name, "2.0.0".to_owned(), url, 0).unwrap();
    pack.set_data(fixture_data(1, 2048));
    RPMPackage::from_package(
        &pack,
        "openbangla-keyboard".to_owned(),
        "x86_64".to_owned(),
        1_699_461_612,
        vec![
            "/usr/bin/openbangla-gui".to_owned(),
            "/usr/share/openbangla-keyboard/layouts/avrophonetic.json".to_owned(),
        ],
    )
    .unwrap()
}

#[test]
fn test_rpm_indices() {
    let data = fixture_data(1, 2048);
    let packages = vec![fixture_rpm()];

    let primary = get_primary_index(&packages);
    let expected_primary = format!(
        "<?xml version=\"1.0\" encoding=\"UTF-8\"?>\n\
         <metadata xmlns=\"http://linux.duke.edu/metadata/common\" packages=\"1\">\n\
         <package type=\"rpm\">\n  <name>openbangla-keyboard</name>\n  <arch>x86_64</arch>\n\
         \x20 <version ver=\"2.0.0\"/>\n\
         \x20 <checksum type=\"sha256\" pkgid=\"YES\">{}</checksum>\n\
         \x20 <size package=\"2048\"/>\n  <time package=\"1699461612\"/>\n\
         \x20 <location href=\"pool/stable/2.0.0/OpenBangla-Keyboard_2.0.0-fedora38.rpm\"/>\n\
         </package>\n</metadata>\n",
        hashsum(HashAlgo::Sha256, &data),
    );
    assert_eq!(primary, expected_primary);

    let filelists = get_filelists_index(&packages);
    let expected_filelists = "<?xml version=\"1.0\" encoding=\"UTF-8\"?>\n\
         <filelists xmlns=\"http://linux.duke.edu/metadata/filelists\" packages=\"1\">\n\
         <package name=\"openbangla-keyboard\" arch=\"x86_64\">\n\
         \x20 <version ver=\"2.0.0\"/>\n\
         \x20 <file>/usr/bin/openbangla-gui</file>\n\
         \x20 <file>/usr/share/openbangla-keyboard/layouts/avrophonetic.json</file>\n\
         </package>\n</filelists>\n";
    assert_eq!(filelists, expected_filelists);

    let other = get_other_index(&packages);
    let expected_other = "<?xml version=\"1.0\" encoding=\"UTF-8\"?>\n\
         <otherdata xmlns=\"http://linux.duke.edu/metadata/other\" packages=\"1\">\n\
         <package name=\"openbangla-keyboard\" arch=\"x86_64\">\n\
         \x20 <version ver=\"2.0.0\"/>\n</package>\n</otherdata>\n";
    assert_eq!(other, expected_other);

    let repomd = get_repomd_index(&packages);
    assert!(repomd.contains("<revision>1699461612</revision>"));
    for (kind, listing) in [
        ("primary", &primary),
        ("filelists", &filelists),
        ("other", &other),
    ] {
        let compressed = zstd_compress(listing.as_bytes(), 0);
        let entry = format!(
            "  <data type=\"{kind}\">\n    <checksum type=\"sha256\">{}</checksum>\n\
             \x20   <open-checksum type=\"sha256\">{}</open-checksum>\n\
             \x20   <location href=\"repodata/{kind}.xml.zst\"/>\n\
             \x20   <size>{}</size>\n    <open-size>{}</open-size>\n  </data>\n",
            hashsum(HashAlgo::Sha256, &compressed),
            hashsum(HashAlgo::Sha256, listing.as_bytes()),
            compressed.len(),
            listing.as_bytes().len(),
        );
        assert!(repomd.contains(&entry), "missing {kind} entry in:\n{repomd}");
    }
}

#[test]
fn test_rpm_indices_idempotent() {
    let packages = vec![fixture_rpm()];
    assert_eq!(get_primary_index(&packages), get_primary_index(&packages));
    assert_eq!(get_repomd_index(&packages), get_repomd_index(&packages));
}

#[test]
fn test_rpm_empty_pool() {
    let packages: Vec<RPMPackage> = Vec::new();
    let repomd = get_repomd_index(&packages);
    // An empty pool gives the zero timestamp and describes empty listings.
    assert!(repomd.contains("<revision>0</revision>"));
    let primary = get_primary_index(&packages);
    assert!(primary.contains("packages=\"0\""));
}

#[test]
fn test_metadata_sizes() {
    let m = Metadata::create("hello repodata".to_owned());
    assert_eq!(m.open_size, "hello repodata".len());
    assert_eq!(m.size, zstd_compress(b"hello repodata", 0).len());
    assert_eq!(m.open_sha256, hashsum(HashAlgo::Sha256, b"hello repodata"));
}
