use repo_index::package::{Dist, Package, SemVer};
use repo_index::selector::select_packages;

fn openbangla_keyboard_packages() -> Vec<Package> {
    [
        package("OpenBangla-Keyboard_2.0.0-debian10-buster.deb"),
        package("OpenBangla-Keyboard_2.0.0-debian11.deb"),
        package("OpenBangla-Keyboard_2.0.0-debian9-stretch.deb"),
        package("OpenBangla-Keyboard_2.0.0-fedora29.rpm"),
        package("OpenBangla-Keyboard_2.0.0-fedora30.rpm"),
        package("OpenBangla-Keyboard_2.0.0-fedora31.rpm"),
        package("OpenBangla-Keyboard_2.0.0-fedora32.rpm"),
        package("OpenBangla-Keyboard_2.0.0-fedora33.rpm"),
        package("OpenBangla-Keyboard_2.0.0-fedora34.rpm"),
        package("OpenBangla-Keyboard_2.0.0-fedora35.rpm"),
        package("OpenBangla-Keyboard_2.0.0-fedora36.rpm"),
        package("OpenBangla-Keyboard_2.0.0-fedora37.rpm"),
        package("OpenBangla-Keyboard_2.0.0-fedora38.rpm"),
        package("OpenBangla-Keyboard_2.0.0-ubuntu18.04.deb"),
        package("OpenBangla-Keyboard_2.0.0-ubuntu19.10.deb"),
        package("OpenBangla-Keyboard_2.0.0-ubuntu20.04.deb"),
        package("OpenBangla-Keyboard_2.0.0-ubuntu21.04.deb"),
        package("OpenBangla-Keyboard_2.0.0-ubuntu22.04.deb"),
    ]
    .into()
}

fn multiple_packages() -> Vec<Package> {
    [
        package("fcitx-openbangla_3.0.0.deb"),
        package("ibus-openbangla_3.0.0.deb"),
    ]
    .into()
}

/// A shorthand for `Package::detect_package()`
fn package(p: &str) -> Package {
    Package::detect_package(p, String::new(), String::new(), 0).unwrap()
}

fn ubuntu(major: u64, minor: u64) -> Dist {
    Dist::Ubuntu(Some(SemVer::new(major, minor, 0)))
}

#[test]
fn test_package_selection_ubuntu() {
    let packages: Vec<Package> = openbangla_keyboard_packages();

    assert_eq!(
        select_packages(&packages, ubuntu(18, 4)),
        vec![&package("OpenBangla-Keyboard_2.0.0-ubuntu18.04.deb")]
    );
    assert_eq!(
        select_packages(&packages, ubuntu(20, 4)),
        vec![&package("OpenBangla-Keyboard_2.0.0-ubuntu20.04.deb")]
    );
    assert_eq!(
        select_packages(&packages, ubuntu(22, 4)),
        vec![&package("OpenBangla-Keyboard_2.0.0-ubuntu22.04.deb")]
    );
}

#[test]
fn test_package_selection_fedora() {
    let packages: Vec<Package> = openbangla_keyboard_packages();

    assert_eq!(
        select_packages(&packages, Dist::Fedora(Some(SemVer::new(38, 0, 0)))),
        vec![&package("OpenBangla-Keyboard_2.0.0-fedora38.rpm")]
    );
}

#[test]
fn test_multiple_package_selection() {
    let packages = multiple_packages();

    assert_eq!(
        select_packages(&packages, ubuntu(22, 4)),
        vec![
            &package("fcitx-openbangla_3.0.0.deb"),
            &package("ibus-openbangla_3.0.0.deb")
        ]
    );
}

#[test]
fn test_selection_version_absent_falls_back_to_family() {
    let packages = openbangla_keyboard_packages();

    // No ubuntu99.99 artifact exists: the whole Debian-format family subset
    // comes back (3 debian + 5 ubuntu packages), never an empty result.
    let selected = select_packages(&packages, ubuntu(99, 99));
    assert_eq!(selected.len(), 8);
    assert!(selected.iter().all(|p| p.is_deb()));
}

#[test]
fn test_selection_debian_has_no_version_refinement() {
    let packages = openbangla_keyboard_packages();

    // Debian requests are intentionally not narrowed by version: the whole
    // family subset is returned even when an exact match exists.
    let selected = select_packages(&packages, Dist::Debian(Some(SemVer::new(11, 0, 0))));
    assert_eq!(selected.len(), 8);
}

#[test]
fn test_selection_empty_pool() {
    let packages: Vec<Package> = Vec::new();
    assert_eq!(select_packages(&packages, ubuntu(22, 4)).len(), 0);
}
