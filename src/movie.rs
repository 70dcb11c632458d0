use vstd::prelude::*;

use crate::basic_data_types::{emit_rect, rect_bits, Rect};
use crate::io_bits::pack_bits;
use crate::primitives::{emit_bytes, emit_le_u16, emit_le_u32, emit_u8, le_u16_bytes, le_u32_bytes};
use crate::tags::{emit_tag_string, tag_string_bytes, tags_valid, Tag};

verus! {

/// Size of the signature that starts every file: magic, version and file length.
pub const SWF_SIGNATURE_SIZE: usize = 8;

#[derive(Clone, Copy, Debug, PartialEq, Eq)]
pub enum CompressionMethod {
    Uncompressed,
    Deflate,
    Lzma,
}

#[derive(Clone, Copy, Debug, PartialEq, Eq)]
pub struct SwfSignature {
    pub compression_method: CompressionMethod,
    pub swf_version: u8,
    pub uncompressed_file_length: usize,
}

/// The movie header. The frame rate is an 8.8 fixed-point number, held as its count of 1/256
/// steps.
#[derive(Clone, Copy, Debug, PartialEq, Eq)]
pub struct Header {
    pub swf_version: u8,
    pub frame_size: Rect,
    pub frame_rate: u16,
    pub frame_count: u16,
}

#[derive(Debug, PartialEq, Eq)]
pub struct Movie {
    pub header: Header,
    pub tags: Vec<Tag>,
}

#[derive(Clone, Copy, Debug, PartialEq, Eq)]
pub enum SwfEmitError {
    /// Writing the output failed.
    Io,
    UnsupportedCompression(CompressionMethod),
}

/// The zlib stream that miniz_oxide makes of `data` at its default level.
pub uninterp spec fn zlib_of(data: Seq<u8>) -> Seq<u8>;

/// The LZMA stream that lzma-rs makes of `data` with its default options.
pub uninterp spec fn lzma_of(data: Seq<u8>) -> Seq<u8>;

/// Relies on miniz_oxide::deflate::compress_to_vec_zlib: the zlib stream of `data` at the
/// default level, which depends on `data` alone.
#[verifier::external_body]
fn zlib_compress(data: &[u8]) -> (r: Vec<u8>)
    ensures
        r@ == zlib_of(data@),
{
    miniz_oxide::deflate::compress_to_vec_zlib(data, miniz_oxide::deflate::CompressionLevel::DefaultLevel as u8)
}

/// Relies on lzma_rs::lzma_compress: the LZMA stream of `data` with the default options, which
/// depends on `data` alone. Its errors come only from its reader and its writer, and neither a
/// byte slice nor a `Vec` fails.
#[verifier::external_body]
fn lzma_compress(data: &[u8]) -> (r: Vec<u8>)
    ensures
        r@ == lzma_of(data@),
{
    let mut input: &[u8] = data;
    let mut output: Vec<u8> = Vec::new();
    let _ = lzma_rs::lzma_compress(&mut input, &mut output);
    output
}

pub open spec fn compression_magic(m: CompressionMethod) -> Seq<u8> {
    match m {
        CompressionMethod::Deflate => seq![0x43u8, 0x57u8, 0x53u8],
        CompressionMethod::Lzma => seq![0x5au8, 0x57u8, 0x53u8],
        CompressionMethod::Uncompressed => seq![0x46u8, 0x57u8, 0x53u8],
    }
}

/// The magic, the version, and the file length as a 32-bit value.
pub open spec fn signature_bytes(s: SwfSignature) -> Seq<u8> {
    compression_magic(s.compression_method) + seq![s.swf_version] + le_u32_bytes(
        s.uncompressed_file_length as u32,
    )
}

/// The frame size, the frame rate and the frame count.
pub open spec fn header_bytes(h: Header) -> Seq<u8> {
    pack_bits(rect_bits(h.frame_size)) + le_u16_bytes(h.frame_rate) + le_u16_bytes(h.frame_count)
}

/// The header, then the tags and their end marker.
pub open spec fn movie_bytes(m: Movie) -> Seq<u8> {
    header_bytes(m.header) + tag_string_bytes(m.tags@, m.header.swf_version)
}

/// Every tag of the movie can be written.
pub open spec fn movie_valid(m: Movie) -> bool {
    tags_valid(m.tags@, m.header.swf_version)
}

/// What follows the signature: the movie as it is, or compressed.
pub open spec fn payload_of(m: Seq<u8>, method: CompressionMethod) -> Seq<u8> {
    match method {
        CompressionMethod::Uncompressed => m,
        CompressionMethod::Deflate => zlib_of(m),
        CompressionMethod::Lzma => lzma_of(m),
    }
}

/// The signature of a movie: the method, the version, and the length of the uncompressed file.
pub open spec fn movie_signature(m: Movie, method: CompressionMethod) -> SwfSignature {
    SwfSignature {
        compression_method: method,
        swf_version: m.header.swf_version,
        uncompressed_file_length: (SWF_SIGNATURE_SIZE + movie_bytes(m).len()) as usize,
    }
}

/// The whole file: the signature in plain, then the payload.
pub open spec fn swf_bytes(m: Movie, method: CompressionMethod) -> Seq<u8> {
    signature_bytes(movie_signature(m, method)) + payload_of(movie_bytes(m), method)
}

pub fn emit_compression_method(writer: &mut Vec<u8>, value: CompressionMethod)
    ensures
        final(writer)@ == old(writer)@ + compression_magic(value),
{
    match value {
        CompressionMethod::Deflate => {
            emit_u8(writer, 0x43);
        },
        CompressionMethod::Lzma => {
            emit_u8(writer, 0x5a);
        },
        CompressionMethod::Uncompressed => {
            emit_u8(writer, 0x46);
        },
    }
    emit_u8(writer, 0x57);
    emit_u8(writer, 0x53);
    proof {
        assert(final(writer)@ =~= old(writer)@ + compression_magic(value));
    }
}

pub fn emit_swf_signature(writer: &mut Vec<u8>, value: &SwfSignature)
    requires
        value.uncompressed_file_length <= u32::MAX,
    ensures
        final(writer)@ == old(writer)@ + signature_bytes(*value),
{
    emit_compression_method(writer, value.compression_method);
    emit_u8(writer, value.swf_version);
    emit_le_u32(writer, value.uncompressed_file_length as u32);
    proof {
        assert(final(writer)@ =~= old(writer)@ + signature_bytes(*value));
    }
}

pub fn emit_header(writer: &mut Vec<u8>, value: &Header)
    ensures
        final(writer)@ == old(writer)@ + header_bytes(*value),
{
    emit_rect(writer, &value.frame_size);
    emit_le_u16(writer, value.frame_rate);
    emit_le_u16(writer, value.frame_count);
    proof {
        assert(final(writer)@ =~= old(writer)@ + header_bytes(*value));
    }
}

pub fn emit_movie(writer: &mut Vec<u8>, value: &Movie)
    requires
        movie_valid(*value),
    ensures
        final(writer)@ == old(writer)@ + movie_bytes(*value),
{
    emit_header(writer, &value.header);
    emit_tag_string(writer, &value.tags, value.header.swf_version);
    proof {
        assert(final(writer)@ =~= old(writer)@ + movie_bytes(*value));
    }
}

/// Writes a signature, then the payload that it introduces.
pub fn emit_swf_with_payload(writer: &mut Vec<u8>, signature: &SwfSignature, payload: &[u8])
    requires
        signature.uncompressed_file_length <= u32::MAX,
    ensures
        final(writer)@ == old(writer)@ + signature_bytes(*signature) + payload@,
{
    emit_swf_signature(writer, signature);
    emit_bytes(writer, payload);
}

/// Writes a whole file. Every compression method is built in, so it always succeeds.
pub fn emit_swf(writer: &mut Vec<u8>, value: &Movie, compression_method: CompressionMethod) -> (r: Result<
    (),
    SwfEmitError,
>)
    requires
        movie_valid(*value),
        SWF_SIGNATURE_SIZE + movie_bytes(*value).len() <= u32::MAX,
    ensures
        r is Ok,
        final(writer)@ == old(writer)@ + swf_bytes(*value, compression_method),
{
    let mut movie_bytes: Vec<u8> = Vec::new();
    emit_movie(&mut movie_bytes, value);
    let signature = SwfSignature {
        compression_method,
        swf_version: value.header.swf_version,
        uncompressed_file_length: SWF_SIGNATURE_SIZE + movie_bytes.len(),
    };
    match compression_method {
        CompressionMethod::Uncompressed => {
            emit_swf_with_payload(writer, &signature, movie_bytes.as_slice());
        },
        CompressionMethod::Deflate => {
            let payload = zlib_compress(movie_bytes.as_slice());
            emit_swf_with_payload(writer, &signature, payload.as_slice());
        },
        CompressionMethod::Lzma => {
            let payload = lzma_compress(movie_bytes.as_slice());
            emit_swf_with_payload(writer, &signature, payload.as_slice());
        },
    }
    Ok(())
}

/// Without compression a file is the magic `FWS`, the version, the file length in 32 bits, then
/// the header and the tags as they are; the length is the file's own length wherever it fits in
/// 32 bits. With deflate it is the magic `CWS`, the same version and length bytes, then the zlib
/// stream of that same plain payload.
pub proof fn lemma_compression_choice(m: Movie)
    ensures
        ({
            let plain = swf_bytes(m, CompressionMethod::Uncompressed);
            let deflated = swf_bytes(m, CompressionMethod::Deflate);
            &&& plain.take(3) == seq![0x46u8, 0x57u8, 0x53u8]
            &&& plain[3] == m.header.swf_version
            &&& plain.len() <= u32::MAX ==> plain.subrange(4, 8) == le_u32_bytes(plain.len() as u32)
            &&& plain.len() == SWF_SIGNATURE_SIZE + movie_bytes(m).len()
            &&& plain.skip(8) == movie_bytes(m)
            &&& deflated.take(3) == seq![0x43u8, 0x57u8, 0x53u8]
            &&& deflated.subrange(3, 8) == plain.subrange(3, 8)
            &&& deflated.skip(8) == zlib_of(plain.skip(8))
        }),
{
    let plain = swf_bytes(m, CompressionMethod::Uncompressed);
    let deflated = swf_bytes(m, CompressionMethod::Deflate);
    let len = (SWF_SIGNATURE_SIZE + movie_bytes(m).len()) as usize;
    assert(plain.take(3) =~= seq![0x46u8, 0x57u8, 0x53u8]);
    assert(plain.subrange(4, 8) =~= le_u32_bytes(len as u32));
    assert(plain.len() == SWF_SIGNATURE_SIZE + movie_bytes(m).len());
    assert(plain[3] == m.header.swf_version);
    assert(plain.skip(8) =~= movie_bytes(m));
    assert(deflated.take(3) =~= seq![0x43u8, 0x57u8, 0x53u8]);
    assert(deflated.subrange(3, 8) =~= plain.subrange(3, 8));
    assert(deflated.skip(8) =~= zlib_of(movie_bytes(m)));
}

} // verus!
