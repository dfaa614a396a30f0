use repo_index::package::{
    parse_version, split_at_numeric, split_extention, Arch, Dist, Package, SemVer, Type,
};

#[test]
fn test_package() {
    let pack = Package::detect_package(
        "OpenBangla-Keyboard_2.0.0-ubuntu22.04.deb",
        "2.0.0".to_owned(),
        String::new(),
        0,
    )
    .unwrap();
    assert_eq!(pack.version(), "2.0.0");
    assert_eq!(pack.dist, Some(Dist::Ubuntu(Some(SemVer::new(22, 4, 0)))));
    assert_eq!(pack.tipe, Type::Deb);

    let pack = Package::detect_package(
        "OpenBangla-Keyboard_2.0.0-fedora36.rpm",
        "2.0.0".to_owned(),
        String::new(),
        0,
    )
    .unwrap();
    assert_eq!(pack.version(), "2.0.0");
    assert_eq!(pack.dist, Some(Dist::Fedora(Some(SemVer::new(36, 0, 0)))));
    assert_eq!(pack.tipe, Type::Rpm);

    let pack = Package::detect_package(
        "caprine_2.56.1_amd64.deb",
        "v2.56.1".to_owned(),
        String::new(),
        0,
    )
    .unwrap();
    assert_eq!(pack.version(), "v2.56.1");
    assert_eq!(pack.dist, None);
    assert_eq!(pack.tipe, Type::Deb);
}

#[test]
fn test_split_extension() {
    assert_eq!(
        split_extention("OpenBangla-Keyboard_2.0.0-ubuntu22.04.deb"),
        Some((Type::Deb, "OpenBangla-Keyboard_2.0.0-ubuntu22.04"))
    );
    assert_eq!(
        split_extention("OpenBangla-Keyboard_2.0.0-fedora36.rpm"),
        Some((Type::Rpm, "OpenBangla-Keyboard_2.0.0-fedora36"))
    );
    assert_eq!(split_extention("caprine_2.56.1_amd64.snap"), None);
    assert_eq!(split_extention("deb"), None);
}

#[test]
fn test_split_test() {
    assert_eq!(split_at_numeric("ubuntu24.10"), Some("24.10"));
    assert_eq!(split_at_numeric("ubuntu"), None);
}

#[test]
fn test_parse_version() {
    assert_eq!(parse_version("ubuntu22.10").unwrap(), SemVer::new(22, 10, 0));
    assert_eq!(parse_version("fedora37").unwrap(), SemVer::new(37, 0, 0));
}

#[test]
fn test_unrecognized_extension_is_error() {
    let r = Package::detect_package("tool-1.2.3.tar", "1.2.3".to_owned(), String::new(), 0);
    assert!(r.is_err());
    let r = Package::detect_package("noextension", "1".to_owned(), String::new(), 0);
    assert!(r.is_err());
}

#[test]
fn test_debian_hyphenated_and_bare_tokens() {
    // A hyphen already splits the codename off, so the version still parses.
    let pack = Package::detect_package(
        "OpenBangla-Keyboard_2.0.0-debian10-buster.deb",
        "2.0.0".to_owned(),
        String::new(),
        0,
    )
    .unwrap();
    assert_eq!(pack.dist, Some(Dist::Debian(Some(SemVer::new(10, 0, 0)))));

    // A bare keyword token still sets the family, with no version.
    let pack =
        Package::detect_package("tool-ubuntu.deb", "1".to_owned(), String::new(), 0).unwrap();
    assert_eq!(pack.dist, Some(Dist::Ubuntu(None)));
}

#[test]
fn test_file_name_from_url() {
    let pack = Package::detect_package(
        "a-ubuntu22.04.deb",
        "1".to_owned(),
        "https://example.invalid/releases/2.0.0/a-ubuntu22.04.deb".to_owned(),
        0,
    )
    .unwrap();
    assert_eq!(pack.file_name(), "a-ubuntu22.04.deb");
}

#[test]
fn test_arch_from_str() {
    assert_eq!("amd64".parse::<Arch>(), Ok(Arch::Amd64));
    assert!("arm64".parse::<Arch>().is_err());
}

#[test]
fn test_set_data_and_data() {
    let mut pack =
        Package::detect_package("a-fedora38.rpm", "1".to_owned(), String::new(), 0).unwrap();
    assert_eq!(pack.data(), None);
    pack.set_data(vec![1u8, 2, 3]);
    assert_eq!(pack.data(), Some(vec![1u8, 2, 3]));
}
