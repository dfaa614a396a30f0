//! Cryptographic digests of byte buffers, rendered as lower-case hex.
//!
//! The hash functions themselves come from outside crates; each raw digest is
//! named by an uninterpreted spec function, and the hex rendering is verified.

use vstd::prelude::*;

use crate::strutil::{bytes_to_hex, hex_str};

verus! {

/// The algorithms the index documents embed digests for.
#[derive(Debug, Clone, Copy, PartialEq, Eq, Structural)]
pub enum HashAlgo {
    Md5,
    Sha1,
    Sha256,
    Sha512,
}

/// The MD5 digest of `data`: 16 bytes, a function of `data` alone.
pub uninterp spec fn md5_of(data: Seq<u8>) -> Seq<u8>;

/// The SHA-1 digest of `data`: 20 bytes, a function of `data` alone.
pub uninterp spec fn sha1_of(data: Seq<u8>) -> Seq<u8>;

/// The SHA-256 digest of `data`: 32 bytes, a function of `data` alone.
pub uninterp spec fn sha256_of(data: Seq<u8>) -> Seq<u8>;

/// The SHA-512 digest of `data`: 64 bytes, a function of `data` alone.
pub uninterp spec fn sha512_of(data: Seq<u8>) -> Seq<u8>;

/// Relies on `md5::Md5::digest` (the `md-5` crate): the 16-byte MD5 digest,
/// depending on the input bytes alone.
#[verifier::external_body]
fn md5_bytes(data: &[u8]) -> (r: Vec<u8>)
    ensures
        r@ == md5_of(data@),
        r@.len() == 16,
{
    <md5::Md5 as md5::Digest>::digest(data).to_vec()
}

/// Relies on `sha1::Sha1::digest`: the 20-byte SHA-1 digest, depending on the
/// input bytes alone.
#[verifier::external_body]
fn sha1_bytes(data: &[u8]) -> (r: Vec<u8>)
    ensures
        r@ == sha1_of(data@),
        r@.len() == 20,
{
    <sha1::Sha1 as sha1::Digest>::digest(data).to_vec()
}

/// Relies on `sha2::Sha256::digest`: the 32-byte SHA-256 digest, depending on
/// the input bytes alone.
#[verifier::external_body]
fn sha256_bytes(data: &[u8]) -> (r: Vec<u8>)
    ensures
        r@ == sha256_of(data@),
        r@.len() == 32,
{
    <sha2::Sha256 as sha2::Digest>::digest(data).to_vec()
}

/// Relies on `sha2::Sha512::digest`: the 64-byte SHA-512 digest, depending on
/// the input bytes alone.
#[verifier::external_body]
fn sha512_bytes(data: &[u8]) -> (r: Vec<u8>)
    ensures
        r@ == sha512_of(data@),
        r@.len() == 64,
{
    <sha2::Sha512 as sha2::Digest>::digest(data).to_vec()
}

/// The raw digest of `data` under `algo`.
pub open spec fn digest_of(algo: HashAlgo, data: Seq<u8>) -> Seq<u8> {
    match algo {
        HashAlgo::Md5 => md5_of(data),
        HashAlgo::Sha1 => sha1_of(data),
        HashAlgo::Sha256 => sha256_of(data),
        HashAlgo::Sha512 => sha512_of(data),
    }
}

/// The lower-case hex rendering of the digest of `data` under `algo`.
pub open spec fn hex_digest_of(algo: HashAlgo, data: Seq<u8>) -> Seq<char> {
    hex_str(digest_of(algo, data))
}

/// The hex-encoded digest of `data` under `algo`, as the index documents
/// embed it.
pub fn hashsum(algo: HashAlgo, data: &[u8]) -> (r: String)
    ensures
        r@ == hex_digest_of(algo, data@),
{
    let raw: Vec<u8> = match algo {
        HashAlgo::Md5 => md5_bytes(data),
        HashAlgo::Sha1 => sha1_bytes(data),
        HashAlgo::Sha256 => sha256_bytes(data),
        HashAlgo::Sha512 => sha512_bytes(data),
    };
    bytes_to_hex(raw.as_slice())
}

} // verus!
