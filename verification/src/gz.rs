//! Gzip compression, delegated to the `flate2` crate.

use vstd::prelude::*;

verus! {

/// The gzip encoding of `data` at the default compression level with the
/// default (empty, zero-timestamp) gzip header.
pub uninterp spec fn gzip_of(data: Seq<u8>) -> Seq<u8>;

/// Relies on flate2's `GzEncoder::new` (at `Compression::default()`,
/// with the default `GzBuilder` header, whose modification time is
/// zero), `Write::write_all`, and `GzEncoder::finish`: together they
/// emit the gzip encoding of exactly the bytes written, a function of
/// the input alone. The sink is a `Vec`; a failure surfaces as `None`.
#[verifier::external_body]
pub(crate) fn gzip_compress(data: &[u8]) -> (r: Option<Vec<u8>>)
    ensures
        r matches Some(v) ==> v@ == gzip_of(data@),
{
    let mut enc = flate2::write::GzEncoder::new(Vec::new(), flate2::Compression::default());
    match std::io::Write::write_all(&mut enc, data) {
        Ok(()) => enc.finish().ok(),
        Err(_) => None,
    }
}

} // verus!
