//! Calls into the hashing, hex-encoding, compression and UUID crates,
//! with what each crate documents of its result.
use vstd::prelude::*;
use sha2::{Digest, Sha256};
use hex::ToHex;
use std::io::{Read, Write};

verus! {

#[verifier::external_type_specification]
#[verifier::external_body]
pub struct ExIoError(std::io::Error);

/// The SHA-256 digest of a byte sequence.
pub uninterp spec fn sha256_of(data: Seq<u8>) -> Seq<u8>;

/// The gzip stream that `flate2`'s `GzEncoder`, at the default compression
/// level and with its default header, writes for a byte sequence.
pub uninterp spec fn gzip_compressed(data: Seq<u8>) -> Seq<u8>;

/// What `flate2`'s `GzDecoder` read to the end gives for a byte sequence:
/// the decompressed bytes, or nothing when it reports an error. A function
/// of the bytes alone.
pub uninterp spec fn gzip_decompressed(data: Seq<u8>) -> Option<Seq<u8>>;

/// Whether `flate2`'s `GzEncoder`, at the default level, compresses a byte
/// sequence into a `Vec` without error: a function of the bytes alone.
pub uninterp spec fn gzip_succeeds(data: Seq<u8>) -> bool;

/// The lower-case hexadecimal digit for a value below sixteen.
pub open spec fn hex_digit(d: int) -> char {
    if d < 10 {
        ((d + '0' as int) as u32) as char
    } else {
        ((d - 10 + 'a' as int) as u32) as char
    }
}

/// Lower-case hexadecimal: two digits per byte, high nibble first.
pub open spec fn hex_lower(data: Seq<u8>) -> Seq<char>
    decreases data.len(),
{
    if data.len() == 0 {
        Seq::empty()
    } else {
        hex_lower(data.drop_last()).push(hex_digit(data.last() as int / 16)).push(
            hex_digit(data.last() as int % 16),
        )
    }
}

/// `sha2::Sha256::digest`: the 32-byte SHA-256 digest of `data`, a
/// function of `data` alone.
#[verifier::external_body]
pub(crate) fn sha256_digest(data: &[u8]) -> (r: Vec<u8>)
    ensures
        r@ == sha256_of(data@),
        r@.len() == 32,
{
    Sha256::digest(data).to_vec()
}

/// `hex::ToHex::encode_hex`: the bytes as lower-case hexadecimal, two
/// digits per byte, as the crate documents.
#[verifier::external_body]
pub(crate) fn hex_encode(data: &[u8]) -> (r: String)
    ensures
        r@ == hex_lower(data@),
{
    data.encode_hex::<String>()
}

/// `flate2::write::GzEncoder` at the default level over a `Vec`: writes
/// `data` and finishes the stream. It succeeds exactly when
/// [`gzip_succeeds`] holds of the bytes, and then gives the gzip stream
/// named by [`gzip_compressed`].
#[verifier::external_body]
pub(crate) fn compress_binary(data: &[u8]) -> (r: Result<Vec<u8>, std::io::Error>)
    ensures
        r is Ok <==> gzip_succeeds(data@),
        r matches Ok(v) ==> v@ == gzip_compressed(data@),
{
    let mut encoder = flate2::write::GzEncoder::new(Vec::new(), flate2::Compression::default());
    match encoder.write_all(data) {
        Ok(()) => encoder.finish(),
        Err(e) => Err(e),
    }
}

/// `flate2::read::GzDecoder` read to the end: decompresses a gzip stream.
/// It succeeds exactly when [`gzip_decompressed`] gives bytes, and gives
/// them; a stream that `GzEncoder` wrote for some bytes decompresses to
/// those bytes, as the crate's own example shows.
#[verifier::external_body]
pub(crate) fn decompress_binary(data: &[u8]) -> (r: Result<Vec<u8>, std::io::Error>)
    ensures
        match gzip_decompressed(data@) {
            Some(v) => r is Ok && r->Ok_0@ == v,
            None => r is Err,
        },
        forall|x: Seq<u8>| #[trigger] gzip_compressed(x) == data@ ==> r is Ok && r->Ok_0@ == x,
{
    let mut decoder = flate2::read::GzDecoder::new(data);
    let mut out = Vec::new();
    match decoder.read_to_end(&mut out) {
        Ok(_) => Ok(out),
        Err(e) => Err(e),
    }
}

/// Whether `c` is a lower-case hexadecimal digit.
pub open spec fn is_lower_hex(c: char) -> bool {
    ('0' <= c && c <= '9') || ('a' <= c && c <= 'f')
}

/// The text form of a version-4 UUID: 36 characters in groups of 8, 4, 4,
/// 4 and 12 lower-case hexadecimal digits joined by `-`, with the version
/// digit `4` first in the third group and `8`, `9`, `a` or `b` first in the
/// fourth.
pub open spec fn uuid_v4_text(s: Seq<char>) -> bool {
    &&& s.len() == 36
    &&& forall|i: int| #![trigger s[i]] 0 <= i < 36 ==> if i == 8 || i == 13 || i == 18 || i == 23 {
        s[i] == '-'
    } else {
        is_lower_hex(s[i])
    }
    &&& s[14] == '4'
    &&& (s[19] == '8' || s[19] == '9' || s[19] == 'a' || s[19] == 'b')
}

/// `uuid::Uuid::new_v4` in its `Display` form, which is the lower-case
/// hyphenated one: a fresh random identifier whose version and variant
/// bits are fixed. Which one comes out is chance.
#[verifier::external_body]
pub(crate) fn new_uuid_v4() -> (r: String)
    ensures
        uuid_v4_text(r@),
{
    uuid::Uuid::new_v4().to_string()
}

/// The lower-case hexadecimal SHA-256 digest of a string's UTF-8 bytes.
pub fn sha256_hex(s: &str) -> (r: String)
    ensures
        r@ == hex_lower(sha256_of(vstd::utf8::encode_utf8(s@))),
{
    let digest = sha256_digest(s.as_bytes());
    hex_encode(digest.as_slice())
}

} // verus!
