//! Body compression with the `deflate` crate: raw DEFLATE, zlib and gzip
//! streams.
use vstd::prelude::*;

verus! {

/// What `deflate::deflate_bytes` gives for `data`: the raw DEFLATE stream at
/// the default compression level.
pub uninterp spec fn deflated(data: Seq<u8>) -> Seq<u8>;

/// What `deflate::deflate_bytes_zlib` gives for `data`: the DEFLATE stream
/// with a zlib header and trailer.
pub uninterp spec fn zlib_deflated(data: Seq<u8>) -> Seq<u8>;

/// The bytes of `n % 2^32`, least significant first.
pub open spec fn le32(n: nat) -> Seq<u8> {
    let m = n % 0x1_0000_0000;
    seq![(m % 256) as u8, ((m / 256) % 256) as u8, ((m / 65536) % 256) as u8, (m / 16777216) as u8]
}

/// One step of the CRC-32 register (IEEE polynomial, bit reflected) over a
/// single bit.
pub open spec fn crc_bit(c: u32) -> u32 {
    if c & 1u32 == 1u32 {
        (c >> 1u32) ^ 0xEDB8_8320u32
    } else {
        c >> 1u32
    }
}

/// The CRC-32 register after taking in the byte `b`.
pub open spec fn crc_byte(c: u32, b: u8) -> u32 {
    let x = c ^ (b as u32);
    crc_bit(crc_bit(crc_bit(crc_bit(crc_bit(crc_bit(crc_bit(crc_bit(x))))))))
}

/// The CRC-32 register after taking in `data`, from all ones.
pub open spec fn crc_register(data: Seq<u8>) -> u32
    decreases data.len(),
{
    if data.len() == 0 {
        0xFFFF_FFFFu32
    } else {
        crc_byte(crc_register(data.drop_last()), data.last())
    }
}

/// The CRC-32 (IEEE) checksum of `data`, as gzip stores it.
pub open spec fn crc32(data: Seq<u8>) -> u32 {
    crc_register(data) ^ 0xFFFF_FFFFu32
}

/// `out` is a gzip stream of `data` as `deflate::deflate_bytes_gzip` writes
/// it: the ten byte header (no flags, no time, no extra flags, then the
/// byte of the operating system the program was built for), the DEFLATE
/// stream of `data` that `deflate_bytes` gives, the CRC-32 of `data` and its
/// length modulo 2^32, each least significant byte first.
pub open spec fn is_gzip_of(out: Seq<u8>, data: Seq<u8>) -> bool {
    let d = deflated(data);
    &&& out.len() == d.len() + 18
    &&& out.subrange(0, 9) == seq![0x1fu8, 0x8b, 8, 0, 0, 0, 0, 0, 0]
    &&& out.subrange(10, 10 + d.len() as int) == d
    &&& out.subrange(out.len() - 8, out.len() - 4) == le32(crc32(data) as nat)
    &&& out.subrange(out.len() - 4, out.len() as int) == le32(data.len())
}

/// `deflate::deflate_bytes`.
#[verifier::external_body]
pub(crate) fn deflate_bytes(data: &[u8]) -> (r: Vec<u8>)
    ensures
        r@ == deflated(data@),
{
    deflate::deflate_bytes(data)
}

/// `deflate::deflate_bytes_zlib`.
#[verifier::external_body]
pub(crate) fn deflate_bytes_zlib(data: &[u8]) -> (r: Vec<u8>)
    ensures
        r@ == zlib_deflated(data@),
{
    deflate::deflate_bytes_zlib(data)
}

/// `deflate::deflate_bytes_gzip`: a gzip stream of the data (see
/// `is_gzip_of`); the header's byte for the operating system that the
/// program was built for is not stated here.
#[verifier::external_body]
pub(crate) fn deflate_bytes_gzip(data: &[u8]) -> (r: Vec<u8>)
    ensures
        is_gzip_of(r@, data@),
{
    deflate::deflate_bytes_gzip(data)
}

} // verus!
