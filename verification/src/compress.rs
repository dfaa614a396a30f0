//! Deterministic compression for the index documents.
//!
//! Both compressors are configured so that their output depends on the input
//! bytes (and, for zstd, the level) alone: the gzip header carries a zeroed
//! modification time and no name or comment, and zstd is used in its plain
//! one-shot mode. Each result is therefore named by an uninterpreted spec
//! function of the input.

use std::io::Write;

use vstd::prelude::*;

verus! {

/// The gzip compression of `data` with a zeroed modification-time header:
/// a function of `data` alone.
pub uninterp spec fn gzip_of(data: Seq<u8>) -> Seq<u8>;

/// The zstd compression of `data` at `level`: a function of `data` and
/// `level` alone.
pub uninterp spec fn zstd_of(data: Seq<u8>, level: int) -> Seq<u8>;

/// Relies on `libflate::gzip::Encoder` with a `HeaderBuilder` whose
/// modification time is forced to zero: the output depends on the input
/// bytes alone. The only error path is an `std::io::Error` from the sink,
/// which an in-memory `Vec` never produces.
#[verifier::external_body]
pub fn gzip_compression(data: &[u8]) -> (r: Vec<u8>)
    ensures
        r@ == gzip_of(data@),
{
    let header = libflate::gzip::HeaderBuilder::new().modification_time(0).finish();
    let options = libflate::gzip::EncodeOptions::new().header(header);
    let mut encoder = libflate::gzip::Encoder::with_options(Vec::new(), options).unwrap();
    encoder.write_all(data).unwrap();
    encoder.finish().into_result().unwrap()
}

/// Relies on `zstd::stream::encode_all` (level `0` selects the library
/// default): the output depends on the input bytes and the level alone. The
/// only error path is an `std::io::Error`, which an in-memory source and
/// sink never produce.
#[verifier::external_body]
pub fn zstd_compress(data: &[u8], level: i32) -> (r: Vec<u8>)
    ensures
        r@ == zstd_of(data@, level as int),
{
    zstd::stream::encode_all(data, level).unwrap()
}

} // verus!
