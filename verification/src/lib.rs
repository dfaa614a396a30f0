//! Repository index generation for Debian (`apt`) and RPM (`dnf`/`yum`)
//! package repositories.
//!
//! The crate classifies package artifacts from their filenames, selects the
//! subset of a pool that applies to a requested distribution, and renders the
//! index documents (`Packages`, `Release`, `primary.xml`, `filelists.xml`,
//! `other.xml`, `repomd.xml`) together with the digests and sizes of their
//! plain and compressed forms.

pub mod apt_index;
pub mod compress;
pub mod digest;
pub mod package;
pub mod rpm_index;
pub mod selector;
pub mod strutil;
pub mod timefmt;
