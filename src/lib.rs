use vstd::prelude::*;

pub mod basic_data_types;
pub mod bit_count;
pub mod button;
pub mod display;
pub mod font;
pub mod gradient;
pub mod io_bits;
pub mod misc_tags;
pub mod morph_shape;
pub mod movie;
pub mod primitives;
pub mod shape;
pub mod sound;
pub mod tags;
pub mod text;

use crate::movie::{movie_valid, movie_bytes, swf_bytes, CompressionMethod, Movie, SWF_SIGNATURE_SIZE};
pub use crate::movie::SwfEmitError;
use crate::tags::{tag_record_bytes, tag_valid, Tag};

verus! {

/// The bytes of a whole file for `value`, compressed as asked. Every compression method is
/// built in, so it always succeeds.
pub fn emit_swf(value: &Movie, compression_method: CompressionMethod) -> (r: Result<Vec<u8>, SwfEmitError>)
    requires
        movie_valid(*value),
        SWF_SIGNATURE_SIZE + movie_bytes(*value).len() <= u32::MAX,
    ensures
        r matches Ok(bytes) && bytes@ == swf_bytes(*value, compression_method),
{
    let mut swf_writer: Vec<u8> = Vec::new();
    let written = crate::movie::emit_swf(&mut swf_writer, value, compression_method);
    proof {
        assert(swf_writer@ =~= swf_bytes(*value, compression_method));
    }
    match written {
        Ok(()) => Ok(swf_writer),
        Err(e) => Err(e),
    }
}

/// The bytes of one tag record.
pub fn emit_tag(value: &Tag, swf_version: u8) -> (r: Vec<u8>)
    requires
        tag_valid(*value, swf_version),
    ensures
        r@ == tag_record_bytes(*value, swf_version),
{
    let mut tag_writer: Vec<u8> = Vec::new();
    crate::tags::emit_tag(&mut tag_writer, value, swf_version);
    proof {
        assert(tag_writer@ =~= tag_record_bytes(*value, swf_version));
    }
    tag_writer
}

} // verus!
