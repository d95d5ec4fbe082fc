//! Snappy compression of tunnel data.

use vstd::prelude::*;

verus! {

/// `snap::Error`, carried opaquely.
#[verifier::external_type_specification]
#[verifier::external_body]
pub struct ExSnapError(snap::Error);

/// The bytes that `snap::raw::Encoder::compress_vec` makes of an input that it accepts.
pub uninterp spec fn snappy_compressed(data: Seq<u8>) -> Seq<u8>;

/// What `snap::raw::Decoder::decompress_vec` makes of an input: the bytes, or none where the
/// input is no Snappy data.
pub uninterp spec fn snappy_decompressed(data: Seq<u8>) -> Option<Seq<u8>>;

/// An input that is short enough to be compressed: even where Snappy makes it longer, the
/// outcome stays below 2^32 bytes.
pub open spec fn snappy_fits(len: nat) -> bool {
    32 + len + len / 6 <= u32::MAX
}

/// `snap::raw::Encoder::compress_vec` on a new encoder: compresses any input that is short
/// enough, to bytes that the decoder turns back into the input.
#[verifier::external_body]
fn snappy_compress(data: &[u8]) -> (r: Result<Vec<u8>, snap::Error>)
    ensures
        r is Ok <==> snappy_fits(data@.len()),
        r matches Ok(v) ==> v@ == snappy_compressed(data@),
        r matches Ok(v) ==> snappy_decompressed(v@) == Some(data@),
{
    snap::raw::Encoder::new().compress_vec(data)
}

/// `snap::raw::Decoder::decompress_vec` on a new decoder: the decompressed bytes, or an error
/// where the input is no Snappy data.
#[verifier::external_body]
fn snappy_decompress(data: &[u8]) -> (r: Result<Vec<u8>, snap::Error>)
    ensures
        r is Ok <==> snappy_decompressed(data@) is Some,
        r matches Ok(v) ==> snappy_decompressed(data@) == Some(v@),
{
    snap::raw::Decoder::new().decompress_vec(data)
}

/// Why data was not compressed or decompressed.
#[derive(Clone, Copy, Debug, PartialEq, Eq, Structural)]
pub enum CompressionError {
    /// The data is too long to be compressed.
    TooLong,
    /// The data is not in Snappy format.
    NotSnappy,
}

/// Compresses data with Snappy.
pub fn compress(data: &[u8]) -> (r: Result<Vec<u8>, CompressionError>)
    ensures
        !snappy_fits(data@.len()) ==> r == Err::<Vec<u8>, CompressionError>(
            CompressionError::TooLong,
        ),
        snappy_fits(data@.len()) ==> r is Ok,
        r matches Ok(v) ==> v@ == snappy_compressed(data@),
        r matches Ok(v) ==> snappy_decompressed(v@) == Some(data@),
{
    match snappy_compress(data) {
        Ok(compressed) => Ok(compressed),
        Err(_) => Err(CompressionError::TooLong),
    }
}

/// Decompresses Snappy data.
pub fn decompress(data: &[u8]) -> (r: Result<Vec<u8>, CompressionError>)
    ensures
        snappy_decompressed(data@) is None ==> r == Err::<Vec<u8>, CompressionError>(
            CompressionError::NotSnappy,
        ),
        snappy_decompressed(data@) is Some ==> r is Ok && r->Ok_0@ == snappy_decompressed(
            data@,
        )->0,
{
    match snappy_decompress(data) {
        Ok(decompressed) => Ok(decompressed),
        Err(_) => Err(CompressionError::NotSnappy),
    }
}

/// What is sent of some data once its compressed form is known: that form where it is
/// shorter, else the data itself; and whether it was compressed.
pub open spec fn shorter_form(data: Seq<u8>, compressed: Seq<u8>) -> (Seq<u8>, bool) {
    if compressed.len() < data.len() {
        (compressed, true)
    } else {
        (data, false)
    }
}

/// Chooses between data and its compressed form.
pub fn choose_shorter(data: &[u8], compressed: Vec<u8>) -> (r: (Vec<u8>, bool))
    ensures
        (r.0@, r.1) == shorter_form(data@, compressed@),
{
    if compressed.len() < data.len() {
        (compressed, true)
    } else {
        (vstd::slice::slice_to_vec(data), false)
    }
}

/// Compresses data of at least `min_size` bytes where that makes it shorter.
/// Returns the data to send and whether it is compressed.
pub fn compress_if_worthwhile(data: &[u8], min_size: usize) -> (r: Result<
    (Vec<u8>, bool),
    CompressionError,
>)
    ensures
        data@.len() < min_size ==> r is Ok && (r->Ok_0.0@, r->Ok_0.1) == (data@, false),
        data@.len() >= min_size && !snappy_fits(data@.len()) ==> r == Err::<
            (Vec<u8>, bool),
            CompressionError,
        >(CompressionError::TooLong),
        data@.len() >= min_size && snappy_fits(data@.len()) ==> r is Ok && (
            r->Ok_0.0@,
            r->Ok_0.1,
        ) == shorter_form(data@, snappy_compressed(data@)),
        r matches Ok((sent, true)) ==> snappy_decompressed(sent@) == Some(data@),
        r matches Ok((sent, false)) ==> sent@ == data@,
        r matches Ok((sent, _)) ==> sent@.len() <= data@.len(),
{
    if data.len() < min_size {
        return Ok((vstd::slice::slice_to_vec(data), false));
    }
    match compress(data) {
        Ok(compressed) => Ok(choose_shorter(data, compressed)),
        Err(e) => Err(e),
    }
}

} // verus!
