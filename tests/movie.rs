use swf_emitter::basic_data_types::Rect;
use swf_emitter::emit_swf;
use swf_emitter::movie::{emit_swf_signature, CompressionMethod, Header, Movie, SwfSignature};
use swf_emitter::tags::Tag;

fn empty_movie() -> Movie {
    Movie {
        header: Header {
            swf_version: 10,
            frame_size: Rect { x_min: 0, x_max: 0, y_min: 0, y_max: 0 },
            frame_rate: 24 * 256,
            frame_count: 1,
        },
        tags: Vec::new(),
    }
}

#[test]
fn empty_uncompressed_movie() {
    let bytes = emit_swf(&empty_movie(), CompressionMethod::Uncompressed).unwrap();
    // Signature, empty rectangle, frame rate 24, one frame, end of tags.
    assert_eq!(
        bytes,
        vec![0x46, 0x57, 0x53, 0x0a, 0x0f, 0x00, 0x00, 0x00, 0x00, 0x00, 0x18, 0x01, 0x00, 0x00, 0x00]
    );
    assert_eq!(bytes.len(), 8 + 7);
}

#[test]
fn movie_with_show_frame() {
    let mut movie = empty_movie();
    movie.tags.push(Tag::ShowFrame);
    let bytes = emit_swf(&movie, CompressionMethod::Uncompressed).unwrap();
    assert_eq!(&bytes[bytes.len() - 4..], &[0x40, 0x00, 0x00, 0x00]);
    assert_eq!(bytes[4] as usize, bytes.len());
}

#[test]
fn deflate_movie_is_zlib_of_payload() {
    let plain = emit_swf(&empty_movie(), CompressionMethod::Uncompressed).unwrap();
    let bytes = emit_swf(&empty_movie(), CompressionMethod::Deflate).unwrap();
    assert_eq!(&bytes[0..3], b"CWS");
    assert_eq!(&bytes[3..8], &plain[3..8]);
    let inflated = miniz_oxide::inflate::decompress_to_vec_zlib(&bytes[8..]).unwrap();
    assert_eq!(inflated, plain[8..].to_vec());
}

#[test]
fn lzma_movie_has_zws_magic() {
    let plain = emit_swf(&empty_movie(), CompressionMethod::Uncompressed).unwrap();
    let bytes = emit_swf(&empty_movie(), CompressionMethod::Lzma).unwrap();
    assert_eq!(&bytes[0..3], b"ZWS");
    assert_eq!(&bytes[3..8], &plain[3..8]);
    let mut input: &[u8] = &bytes[8..];
    let mut unpacked = Vec::new();
    lzma_rs::lzma_decompress(&mut input, &mut unpacked).unwrap();
    assert_eq!(unpacked, plain[8..].to_vec());
}

#[test]
fn signature_bytes() {
    let mut out = Vec::new();
    let signature =
        SwfSignature { compression_method: CompressionMethod::Deflate, swf_version: 8, uncompressed_file_length: 0x01020304 };
    emit_swf_signature(&mut out, &signature);
    assert_eq!(out, vec![0x43, 0x57, 0x53, 0x08, 0x04, 0x03, 0x02, 0x01]);
}
