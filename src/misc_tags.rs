use vstd::prelude::*;

use crate::basic_data_types::{emit_c_string, emit_leb128_u32, leb128};
use crate::primitives::{emit_bytes, emit_le_u16, emit_le_u32, le_u16_bytes, le_u32_bytes};
use crate::tags::c_string_bytes;

verus! {

#[derive(Copy, Clone, Debug, PartialEq, Eq)]
pub enum DefineBitmapVersion {
    DefineBitsJpeg1,
    DefineBitsJpeg2,
    DefineBitsJpeg3,
    DefineBitsJpeg4,
    DefineBitsLossless1,
    DefineBitsLossless2,
}

/// The kind of image data a bitmap holds.
#[derive(Copy, Clone, Debug, PartialEq, Eq)]
pub enum ImageType {
    SwfPartialJpeg,
    Jpeg,
    Gif,
    Png,
    SwfJpeg3,
    SwfJpeg4,
    SwfLossless1,
    SwfLossless2,
}

/// A bitmap character whose data is already in the form its tag carries.
#[derive(Clone, Debug, PartialEq, Eq)]
pub struct DefineBitmap {
    pub id: u16,
    pub media_type: ImageType,
    pub data: Vec<u8>,
}

pub open spec fn bitmap_version(t: DefineBitmap) -> DefineBitmapVersion {
    match t.media_type {
        ImageType::SwfLossless1 => DefineBitmapVersion::DefineBitsLossless1,
        ImageType::SwfLossless2 => DefineBitmapVersion::DefineBitsLossless2,
        ImageType::Jpeg | ImageType::Gif | ImageType::Png => DefineBitmapVersion::DefineBitsJpeg2,
        ImageType::SwfJpeg3 => DefineBitmapVersion::DefineBitsJpeg3,
        ImageType::SwfJpeg4 => DefineBitmapVersion::DefineBitsJpeg4,
        ImageType::SwfPartialJpeg => DefineBitmapVersion::DefineBitsJpeg1,
    }
}

pub open spec fn bitmap_version_code(v: DefineBitmapVersion) -> u16 {
    match v {
        DefineBitmapVersion::DefineBitsJpeg1 => 6,
        DefineBitmapVersion::DefineBitsLossless1 => 20,
        DefineBitmapVersion::DefineBitsJpeg2 => 21,
        DefineBitmapVersion::DefineBitsJpeg3 => 35,
        DefineBitmapVersion::DefineBitsLossless2 => 36,
        DefineBitmapVersion::DefineBitsJpeg4 => 90,
    }
}

pub fn emit_define_bitmap_any(writer: &mut Vec<u8>, value: &DefineBitmap) -> (r: DefineBitmapVersion)
    ensures
        r == bitmap_version(*value),
        final(writer)@ == old(writer)@ + le_u16_bytes(value.id) + value.data@,
{
    emit_le_u16(writer, value.id);
    emit_bytes(writer, value.data.as_slice());
    match value.media_type {
        ImageType::SwfLossless1 => DefineBitmapVersion::DefineBitsLossless1,
        ImageType::SwfLossless2 => DefineBitmapVersion::DefineBitsLossless2,
        ImageType::Jpeg | ImageType::Gif | ImageType::Png => DefineBitmapVersion::DefineBitsJpeg2,
        ImageType::SwfJpeg3 => DefineBitmapVersion::DefineBitsJpeg3,
        ImageType::SwfJpeg4 => DefineBitmapVersion::DefineBitsJpeg4,
        ImageType::SwfPartialJpeg => DefineBitmapVersion::DefineBitsJpeg1,
    }
}

#[derive(Clone, Debug, PartialEq, Eq)]
pub struct DefineJpegTables {
    pub data: Vec<u8>,
}

pub fn emit_define_jpeg_tables(writer: &mut Vec<u8>, value: &DefineJpegTables)
    ensures
        final(writer)@ == old(writer)@ + value.data@,
{
    emit_bytes(writer, value.data.as_slice());
}

#[derive(Clone, Debug, PartialEq, Eq)]
pub struct AbcHeader {
    pub flags: u32,
    pub name: String,
}

/// ActionScript 3 bytecode, with the header of the second form where one is given.
#[derive(Clone, Debug, PartialEq, Eq)]
pub struct DoAbc {
    pub header: Option<AbcHeader>,
    pub data: Vec<u8>,
}

#[derive(Copy, Clone, Debug, PartialEq, Eq)]
pub enum DoAbcVersion {
    Abc1,
    Abc2,
}

pub open spec fn do_abc_bytes(t: DoAbc) -> Seq<u8> {
    match t.header {
        Some(h) => le_u32_bytes(h.flags) + c_string_bytes(h.name@) + t.data@,
        None => t.data@,
    }
}

pub fn emit_do_abc_any(writer: &mut Vec<u8>, value: &DoAbc) -> (r: DoAbcVersion)
    ensures
        r == (if value.header.is_some() { DoAbcVersion::Abc2 } else { DoAbcVersion::Abc1 }),
        final(writer)@ == old(writer)@ + do_abc_bytes(*value),
{
    let version = match &value.header {
        Some(header) => {
            emit_le_u32(writer, header.flags);
            emit_c_string(writer, header.name.as_str());
            DoAbcVersion::Abc2
        },
        None => DoAbcVersion::Abc1,
    };
    emit_bytes(writer, value.data.as_slice());
    proof {
        assert(final(writer)@ =~= old(writer)@ + do_abc_bytes(*value));
    }
    version
}

/// A scene starting at a frame offset, or a label on a frame.
#[derive(Clone, Debug, PartialEq, Eq)]
pub struct FrameName {
    pub frame: u32,
    pub name: String,
}

#[derive(Clone, Debug, PartialEq, Eq)]
pub struct DefineSceneAndFrameLabelData {
    pub scenes: Vec<FrameName>,
    pub labels: Vec<FrameName>,
}

pub open spec fn frame_names_bytes(s: Seq<FrameName>) -> Seq<u8>
    decreases s.len(),
{
    if s.len() == 0 {
        Seq::empty()
    } else {
        frame_names_bytes(s.drop_last()) + leb128(s.last().frame as nat) + c_string_bytes(s.last().name@)
    }
}

/// A count as ULEB128, then each frame as ULEB128 and its name.
pub open spec fn frame_name_list_bytes(s: Seq<FrameName>) -> Seq<u8> {
    leb128(s.len()) + frame_names_bytes(s)
}

fn emit_frame_name_list(writer: &mut Vec<u8>, value: &Vec<FrameName>)
    requires
        value@.len() <= u32::MAX,
    ensures
        final(writer)@ == old(writer)@ + frame_name_list_bytes(value@),
{
    emit_leb128_u32(writer, value.len() as u32);
    let ghost head = writer@;
    let mut i: usize = 0;
    while i < value.len()
        invariant
            i <= value@.len(),
            writer@ == head + frame_names_bytes(value@.take(i as int)),
        decreases value@.len() - i,
    {
        emit_leb128_u32(writer, value[i].frame);
        emit_c_string(writer, value[i].name.as_str());
        proof {
            assert(value@.take(i + 1).drop_last() =~= value@.take(i as int));
            assert(writer@ =~= head + frame_names_bytes(value@.take(i + 1)));
        }
        i = i + 1;
    }
    proof {
        assert(value@.take(i as int) =~= value@);
        assert(final(writer)@ =~= old(writer)@ + frame_name_list_bytes(value@));
    }
}

pub fn emit_define_scene_and_frame_label_data(writer: &mut Vec<u8>, value: &DefineSceneAndFrameLabelData)
    requires
        value.scenes@.len() <= u32::MAX,
        value.labels@.len() <= u32::MAX,
    ensures
        final(writer)@ == old(writer)@ + frame_name_list_bytes(value.scenes@) + frame_name_list_bytes(
            value.labels@,
        ),
{
    emit_frame_name_list(writer, &value.scenes);
    emit_frame_name_list(writer, &value.labels);
}

} // verus!
