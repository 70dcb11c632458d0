use vstd::prelude::*;
use vstd::string::*;
use vstd::utf8::encode_utf8;

use crate::basic_data_types::{
    color_transform_bits, color_transform_with_alpha_bits, emit_c_string, emit_color_transform,
    emit_color_transform_with_alpha, emit_matrix, emit_rect, emit_s_rgb8, emit_straight_s_rgba8,
    matrix_bits, rect_bits, ColorTransform, ColorTransformWithAlpha, Matrix, Rect, SRgb8,
    StraightSRgba8, FIXED8_ONE,
};
use crate::display::{
    blend_mode_code, clip_action_valid, clip_actions_string_bytes, emit_blend_mode,
    emit_clip_actions_string, emit_filter_list, filter_list_bytes, filter_list_valid, BlendMode,
    ClipAction, Filter,
};
use crate::button::{
    button_version, button_version_code, define_button_bytes, define_button_valid,
    emit_define_button_any, record_needs_button2, ButtonVersion, DefineButton,
};
use crate::font::{
    define_font_bytes, define_font_valid, define_font_version, emit_define_font_any,
    emit_define_glyph_font, glyph_font_bytes, glyphs_valid, DefineFont, DefineFontVersion,
    DefineGlyphFont,
};
use crate::io_bits::pack_bits;
use crate::misc_tags::{
    bitmap_version, bitmap_version_code, do_abc_bytes, emit_define_bitmap_any, emit_define_jpeg_tables,
    emit_define_scene_and_frame_label_data, emit_do_abc_any, frame_name_list_bytes, DefineBitmap,
    DefineBitmapVersion, DefineJpegTables, DefineSceneAndFrameLabelData, DoAbc, DoAbcVersion,
};
use crate::morph_shape::{
    define_morph_shape_bytes, define_morph_shape_valid, emit_define_morph_shape_any, morph_shape_version,
    DefineMorphShape, MorphShapeVersion,
};
use crate::sound::{
    define_button_sound_bytes, define_button_sound_valid, emit_define_button_sound, DefineButtonSound,
    define_sound_bytes, emit_define_sound, emit_start_sound, sound_info_bytes, sound_info_valid,
    DefineSound, StartSound,
};
use crate::text::{
    define_text_bytes, define_text_valid, define_text_version, dynamic_text_bytes, dynamic_text_valid,
    emit_define_dynamic_text, emit_define_font_info_any, emit_define_font_name, emit_define_text_any,
    font_info_bytes, font_info_version, font_name_valid, DefineDynamicText, DefineFontInfo,
    DefineFontInfoVersion, DefineFontName, DefineText, DefineTextVersion,
};
use crate::shape::{
    emit_shape, get_min_shape_version, lemma_shape_fits, lemma_shape_min_version_shape1,
    records_are_shape1, shape_bits, shape_min_version, shape_valid, styles_are_shape1, Shape,
    ShapeVersion,
};
use crate::primitives::{emit_bytes, emit_le_u16, emit_le_u32, emit_u8, le_u16_bytes, le_u32_bytes};

verus! {

/// The code and body length of a tag record.
#[derive(Clone, Copy, Debug, PartialEq, Eq)]
pub struct TagHeader {
    pub code: u16,
    pub length: u32,
}

/// The largest length that fits in a short header; the same value in the length field marks a
/// long header.
pub const SHORT_TAG_MAX_LENGTH: u16 = 63;

/// Bitmap and sound-stream codes whose records always take the long header.
pub open spec fn is_long_header_required(code: u16) -> bool {
    code == 6 || code == 21 || code == 35 || code == 20 || code == 36 || code == 90 || code == 19
}

/// The short header fits: the length is under 63, the code does not require the long form,
/// and the first byte written is not zero.
pub open spec fn uses_short_header(h: TagHeader) -> bool {
    &&& !is_long_header_required(h.code)
    &&& h.length < SHORT_TAG_MAX_LENGTH
    &&& (h.length > 0 || h.code % 4 != 0)
}

/// The bytes of a tag header: the code in the upper ten bits of a 16-bit word and the length
/// in the lower six, or 63 there and the length in a following 32-bit word.
pub open spec fn tag_header_bytes(h: TagHeader) -> Seq<u8> {
    if uses_short_header(h) {
        le_u16_bytes(((h.code % 1024) * 64 + h.length) as u16)
    } else {
        le_u16_bytes(((h.code % 1024) * 64 + SHORT_TAG_MAX_LENGTH) as u16) + le_u32_bytes(h.length)
    }
}

pub fn emit_tag_header(writer: &mut Vec<u8>, value: TagHeader)
    ensures
        final(writer)@ == old(writer)@ + tag_header_bytes(value),
{
    let is_long_required = value.code == 6 || value.code == 21 || value.code == 35 || value.code
        == 20 || value.code == 36 || value.code == 90 || value.code == 19;
    let is_leading_byte_non_zero = value.length > 0 || value.code % 4 != 0;
    if !is_long_required && value.length < SHORT_TAG_MAX_LENGTH as u32 && is_leading_byte_non_zero {
        let code_and_length: u16 = (value.code % 1024) * 64 + value.length as u16;
        emit_le_u16(writer, code_and_length);
    } else {
        let code_and_length: u16 = (value.code % 1024) * 64 + SHORT_TAG_MAX_LENGTH;
        emit_le_u16(writer, code_and_length);
        emit_le_u32(writer, value.length);
        proof {
            assert(final(writer)@ =~= old(writer)@ + tag_header_bytes(value));
        }
    }
}

/// Writes the two zero bytes that end a tag string.
pub fn emit_end_of_tags(writer: &mut Vec<u8>)
    ensures
        final(writer)@ == old(writer)@ + seq![0u8, 0u8],
{
    emit_le_u16(writer, 0);
    proof {
        assert(le_u16_bytes(0) =~= seq![0u8, 0u8]);
    }
}

/// Writes a tag record: its header, then its body.
pub fn emit_tag_record(writer: &mut Vec<u8>, code: u16, body: &[u8])
    requires
        body@.len() <= u32::MAX,
    ensures
        final(writer)@ == old(writer)@ + tag_header_bytes(TagHeader { code, length: body@.len() as u32 })
            + body@,
{
    emit_tag_header(writer, TagHeader { code, length: body.len() as u32 });
    emit_bytes(writer, body);
}

#[derive(Clone, Copy, Debug, PartialEq, Eq)]
pub struct SetBackgroundColor {
    pub color: SRgb8,
}

#[derive(Clone, Debug, PartialEq, Eq)]
pub struct FrameLabel {
    pub name: String,
    pub is_anchor: bool,
}

#[derive(Clone, Debug, PartialEq, Eq)]
pub struct Protect {
    pub password: String,
}

#[derive(Clone, Copy, Debug, PartialEq, Eq)]
pub struct RemoveObject {
    pub character_id: Option<u16>,
    pub depth: u16,
}

#[derive(Clone, Debug, PartialEq, Eq)]
pub struct DoAction {
    pub actions: Vec<u8>,
}

#[derive(Clone, Debug, PartialEq, Eq)]
pub struct Metadata {
    pub metadata: String,
}

#[derive(Clone, Copy, Debug, PartialEq, Eq)]
pub struct FileAttributes {
    pub use_network: bool,
    pub use_relative_urls: bool,
    pub no_cross_domain_caching: bool,
    pub use_as3: bool,
    pub has_metadata: bool,
    pub use_gpu: bool,
    pub use_direct_blit: bool,
}

/// A character id with the name it is exported or bound under.
#[derive(Clone, Debug, PartialEq, Eq)]
pub struct NamedId {
    pub id: u16,
    pub name: String,
}

#[derive(Clone, Debug, PartialEq, Eq)]
pub struct ExportAssets {
    pub assets: Vec<NamedId>,
}

#[derive(Clone, Debug, PartialEq, Eq)]
pub struct SymbolClass {
    pub symbols: Vec<NamedId>,
}

/// A tag given by its code and the bytes of its body.
#[derive(Clone, Debug, PartialEq, Eq)]
pub struct RawBody {
    pub code: u16,
    pub data: Vec<u8>,
}

#[derive(Copy, Clone, Debug, PartialEq, Eq)]
pub enum RemoveObjectVersion {
    RemoveObject1,
    RemoveObject2,
}

/// The bytes of a null-terminated string.
pub open spec fn c_string_bytes(s: Seq<char>) -> Seq<u8> {
    encode_utf8(s) + seq![0u8]
}

/// Each id followed by its name as a null-terminated string.
pub open spec fn named_ids_bytes(s: Seq<NamedId>) -> Seq<u8>
    decreases s.len(),
{
    if s.len() == 0 {
        Seq::empty()
    } else {
        named_ids_bytes(s.drop_last()) + le_u16_bytes(s.last().id) + c_string_bytes(s.last().name@)
    }
}

pub open spec fn frame_label_bytes(t: FrameLabel) -> Seq<u8> {
    c_string_bytes(t.name@) + if t.is_anchor {
        seq![1u8]
    } else {
        Seq::empty()
    }
}

/// An empty password is left out.
pub open spec fn protect_bytes(t: Protect) -> Seq<u8> {
    if encode_utf8(t.password@).len() == 0 {
        Seq::empty()
    } else {
        c_string_bytes(t.password@)
    }
}

pub open spec fn remove_object_version(t: RemoveObject) -> RemoveObjectVersion {
    if t.character_id.is_some() {
        RemoveObjectVersion::RemoveObject1
    } else {
        RemoveObjectVersion::RemoveObject2
    }
}

pub open spec fn remove_object_bytes(t: RemoveObject) -> Seq<u8> {
    match t.character_id {
        Some(id) => le_u16_bytes(id) + le_u16_bytes(t.depth),
        None => le_u16_bytes(t.depth),
    }
}

/// The attribute flags, one bit each from bit 0 up.
pub open spec fn file_attributes_flags(t: FileAttributes) -> u32 {
    ((if t.use_network { 1int } else { 0 }) + (if t.use_relative_urls { 2int } else { 0 }) + (
    if t.no_cross_domain_caching {
        4int
    } else {
        0
    }) + (if t.use_as3 { 8int } else { 0 }) + (if t.has_metadata { 16int } else { 0 }) + (
    if t.use_gpu {
        32int
    } else {
        0
    }) + (if t.use_direct_blit { 64int } else { 0 })) as u32
}

/// A count of entries, then the entries.
pub open spec fn named_id_list_bytes(s: Seq<NamedId>) -> Seq<u8> {
    le_u16_bytes(s.len() as u16) + named_ids_bytes(s)
}

pub fn emit_set_background_color(writer: &mut Vec<u8>, value: &SetBackgroundColor)
    ensures
        final(writer)@ == old(writer)@ + seq![value.color.r, value.color.g, value.color.b],
{
    emit_s_rgb8(writer, value.color);
}

pub fn emit_frame_label(writer: &mut Vec<u8>, value: &FrameLabel)
    ensures
        final(writer)@ == old(writer)@ + frame_label_bytes(*value),
{
    emit_c_string(writer, value.name.as_str());
    if value.is_anchor {
        emit_u8(writer, 1);
    }
    proof {
        assert(final(writer)@ =~= old(writer)@ + frame_label_bytes(*value));
    }
}

pub fn emit_protect(writer: &mut Vec<u8>, value: &Protect)
    ensures
        final(writer)@ == old(writer)@ + protect_bytes(*value),
{
    let password = value.password.as_str();
    proof {
        assert(password.spec_bytes() == encode_utf8(value.password@));
    }
    let len = password.as_bytes().len();
    if len != 0 {
        emit_c_string(writer, password);
        proof {
            assert(final(writer)@ =~= old(writer)@ + protect_bytes(*value));
        }
    } else {
        proof {
            assert(len == password.spec_bytes().len());
            assert(protect_bytes(*value) =~= Seq::<u8>::empty());
            assert(final(writer)@ =~= old(writer)@ + protect_bytes(*value));
        }
    }
}

pub fn emit_remove_object_any(writer: &mut Vec<u8>, value: &RemoveObject) -> (r: RemoveObjectVersion)
    ensures
        final(writer)@ == old(writer)@ + remove_object_bytes(*value),
        r == remove_object_version(*value),
{
    match value.character_id {
        Some(character_id) => {
            emit_le_u16(writer, character_id);
            emit_le_u16(writer, value.depth);
            proof {
                assert(final(writer)@ =~= old(writer)@ + remove_object_bytes(*value));
            }
            RemoveObjectVersion::RemoveObject1
        },
        None => {
            emit_le_u16(writer, value.depth);
            RemoveObjectVersion::RemoveObject2
        },
    }
}

pub fn emit_do_action(writer: &mut Vec<u8>, value: &DoAction)
    ensures
        final(writer)@ == old(writer)@ + value.actions@,
{
    emit_bytes(writer, value.actions.as_slice());
}

pub fn emit_metadata(writer: &mut Vec<u8>, value: &Metadata)
    ensures
        final(writer)@ == old(writer)@ + c_string_bytes(value.metadata@),
{
    emit_c_string(writer, value.metadata.as_str());
    proof {
        assert(final(writer)@ =~= old(writer)@ + c_string_bytes(value.metadata@));
    }
}

pub fn emit_file_attributes(writer: &mut Vec<u8>, value: &FileAttributes)
    ensures
        final(writer)@ == old(writer)@ + le_u32_bytes(file_attributes_flags(*value)),
{
    let flags: u32 = (if value.use_network { 1u32 } else { 0u32 }) + (if value.use_relative_urls {
        2u32
    } else {
        0u32
    }) + (if value.no_cross_domain_caching { 4u32 } else { 0u32 }) + (if value.use_as3 {
        8u32
    } else {
        0u32
    }) + (if value.has_metadata { 16u32 } else { 0u32 }) + (if value.use_gpu {
        32u32
    } else {
        0u32
    }) + (if value.use_direct_blit { 64u32 } else { 0u32 });
    emit_le_u32(writer, flags);
}

/// Writes a count of entries, then each id and name.
fn emit_named_id_list(writer: &mut Vec<u8>, value: &Vec<NamedId>)
    requires
        value@.len() <= u16::MAX,
    ensures
        final(writer)@ == old(writer)@ + named_id_list_bytes(value@),
{
    emit_le_u16(writer, value.len() as u16);
    let ghost head = writer@;
    let mut i: usize = 0;
    while i < value.len()
        invariant
            i <= value@.len(),
            head == old(writer)@ + le_u16_bytes(value@.len() as u16),
            writer@ == head + named_ids_bytes(value@.take(i as int)),
        decreases value@.len() - i,
    {
        let entry = &value[i];
        emit_le_u16(writer, entry.id);
        emit_c_string(writer, entry.name.as_str());
        proof {
            assert(value@.take(i + 1).drop_last() =~= value@.take(i as int));
            assert(writer@ =~= head + named_ids_bytes(value@.take(i + 1)));
        }
        i = i + 1;
    }
    proof {
        assert(value@.take(i as int) =~= value@);
        assert(final(writer)@ =~= old(writer)@ + named_id_list_bytes(value@));
    }
}

pub fn emit_export_assets(writer: &mut Vec<u8>, value: &ExportAssets)
    requires
        value.assets@.len() <= u16::MAX,
    ensures
        final(writer)@ == old(writer)@ + named_id_list_bytes(value.assets@),
{
    emit_named_id_list(writer, &value.assets);
}

pub fn emit_symbol_class(writer: &mut Vec<u8>, value: &SymbolClass)
    requires
        value.symbols@.len() <= u16::MAX,
    ensures
        final(writer)@ == old(writer)@ + named_id_list_bytes(value.symbols@),
{
    emit_named_id_list(writer, &value.symbols);
}

pub fn emit_raw_body(writer: &mut Vec<u8>, value: &RawBody)
    ensures
        final(writer)@ == old(writer)@ + value.data@,
{
    emit_bytes(writer, value.data.as_slice());
}

#[derive(Copy, Clone, Debug, PartialEq, Eq)]
pub enum PlaceObjectVersion {
    PlaceObject1,
    PlaceObject2,
    PlaceObject3,
}

/// Places, moves or updates a character on the display list.
#[derive(Clone, Debug, PartialEq, Eq)]
pub struct PlaceObject {
    pub is_update: bool,
    pub depth: u16,
    pub character_id: Option<u16>,
    pub class_name: Option<String>,
    pub matrix: Option<Matrix>,
    pub color_transform: Option<ColorTransformWithAlpha>,
    pub ratio: Option<u16>,
    pub name: Option<String>,
    pub clip_depth: Option<u16>,
    pub clip_actions: Option<Vec<ClipAction>>,
    pub filters: Option<Vec<Filter>>,
    pub blend_mode: Option<BlendMode>,
    pub bitmap_cache: Option<bool>,
    pub visible: Option<bool>,
    pub background_color: Option<StraightSRgba8>,
}

/// The color transform changes the alpha channel.
pub open spec fn has_alpha_color_transform(p: PlaceObject) -> bool {
    match p.color_transform {
        Some(c) => c.alpha_mult != FIXED8_ONE || c.alpha_add != 0,
        None => false,
    }
}

/// Some field exists only in the third form.
pub open spec fn needs_place_object3(p: PlaceObject) -> bool {
    ||| p.filters.is_some()
    ||| p.blend_mode.is_some()
    ||| p.bitmap_cache.is_some()
    ||| p.class_name.is_some()
    ||| p.visible.is_some()
    ||| p.background_color.is_some()
}

/// The first form cannot hold the placement: it needs a character and a matrix, places rather
/// than updates, and has none of the second form's fields.
pub open spec fn needs_place_object2(p: PlaceObject) -> bool {
    ||| p.character_id.is_none()
    ||| p.matrix.is_none()
    ||| p.is_update
    ||| has_alpha_color_transform(p)
    ||| p.ratio.is_some()
    ||| p.name.is_some()
    ||| p.clip_depth.is_some()
    ||| p.clip_actions.is_some()
}

pub open spec fn place_object_version(p: PlaceObject) -> PlaceObjectVersion {
    if needs_place_object3(p) {
        PlaceObjectVersion::PlaceObject3
    } else if needs_place_object2(p) {
        PlaceObjectVersion::PlaceObject2
    } else {
        PlaceObjectVersion::PlaceObject1
    }
}

pub open spec fn place_object_version_code(v: PlaceObjectVersion) -> u16 {
    match v {
        PlaceObjectVersion::PlaceObject1 => 4,
        PlaceObjectVersion::PlaceObject2 => 26,
        PlaceObjectVersion::PlaceObject3 => 70,
    }
}

pub open spec fn bit(b: bool, weight: int) -> int {
    if b {
        weight
    } else {
        0
    }
}

/// The presence flags shared by the second and third forms, from bit 0: update, character,
/// matrix, color transform, ratio, name, clip depth, clip actions.
pub open spec fn place_object2_flags(p: PlaceObject) -> u8 {
    (bit(p.is_update, 1) + bit(p.character_id.is_some(), 2) + bit(p.matrix.is_some(), 4) + bit(
        p.color_transform.is_some(),
        8,
    ) + bit(p.ratio.is_some(), 16) + bit(p.name.is_some(), 32) + bit(p.clip_depth.is_some(), 64)
        + bit(p.clip_actions.is_some(), 128)) as u8
}

/// The third form's flags: the second form's in the low byte, then filters, blend mode, cache,
/// class name, image (never set) , visibility and background color.
pub open spec fn place_object3_flags(p: PlaceObject) -> u16 {
    (place_object2_flags(p) + bit(p.filters.is_some(), 256) + bit(p.blend_mode.is_some(), 512) + bit(
        p.bitmap_cache.is_some(),
        1024,
    ) + bit(p.class_name.is_some(), 2048) + bit(p.visible.is_some(), 8192) + bit(
        p.background_color.is_some(),
        16384,
    )) as u16
}

pub open spec fn opt_u16_bytes(o: Option<u16>) -> Seq<u8> {
    match o {
        Some(v) => le_u16_bytes(v),
        None => Seq::empty(),
    }
}

pub open spec fn opt_matrix_bytes(o: Option<Matrix>) -> Seq<u8> {
    match o {
        Some(m) => pack_bits(matrix_bits(m)),
        None => Seq::empty(),
    }
}

pub open spec fn opt_color_transform_bytes(o: Option<ColorTransformWithAlpha>) -> Seq<u8> {
    match o {
        Some(c) => pack_bits(color_transform_with_alpha_bits(c)),
        None => Seq::empty(),
    }
}

pub open spec fn opt_c_string_bytes(o: Option<String>) -> Seq<u8> {
    match o {
        Some(n) => c_string_bytes(n@),
        None => Seq::empty(),
    }
}

pub open spec fn opt_flag_byte(o: Option<bool>) -> Seq<u8> {
    match o {
        Some(b) => seq![if b { 1u8 } else { 0u8 }],
        None => Seq::empty(),
    }
}

/// The fields from the character to the clip depth, each only when present.
pub open spec fn place_object_middle_bytes(p: PlaceObject) -> Seq<u8> {
    opt_u16_bytes(p.character_id) + opt_matrix_bytes(p.matrix) + opt_color_transform_bytes(
        p.color_transform,
    ) + opt_u16_bytes(p.ratio) + opt_c_string_bytes(p.name) + opt_u16_bytes(p.clip_depth)
}

pub open spec fn clip_actions_part(p: PlaceObject, swf_version: u8) -> Seq<u8> {
    match p.clip_actions {
        Some(a) => clip_actions_string_bytes(a@, swf_version >= 6),
        None => Seq::empty(),
    }
}

/// The fields that only the third form has, from the filters to the background color.
pub open spec fn place_object3_tail_bytes(p: PlaceObject) -> Seq<u8> {
    (match p.filters {
        Some(f) => filter_list_bytes(f@),
        None => Seq::empty(),
    }) + (match p.blend_mode {
        Some(b) => seq![blend_mode_code(b)],
        None => Seq::empty(),
    }) + opt_flag_byte(p.bitmap_cache) + opt_flag_byte(p.visible) + (match p.background_color {
        Some(c) => seq![c.r, c.g, c.b, c.a],
        None => Seq::empty(),
    })
}

/// The color transform without its alpha channel.
pub open spec fn without_alpha(c: ColorTransformWithAlpha) -> ColorTransform {
    ColorTransform {
        red_mult: c.red_mult,
        green_mult: c.green_mult,
        blue_mult: c.blue_mult,
        red_add: c.red_add,
        green_add: c.green_add,
        blue_add: c.blue_add,
    }
}

pub open spec fn place_object3_bytes(p: PlaceObject, swf_version: u8) -> Seq<u8> {
    le_u16_bytes(place_object3_flags(p)) + le_u16_bytes(p.depth) + opt_c_string_bytes(p.class_name)
        + place_object_middle_bytes(p) + place_object3_tail_bytes(p) + clip_actions_part(p, swf_version)
}

pub open spec fn place_object2_bytes(p: PlaceObject, swf_version: u8) -> Seq<u8> {
    seq![place_object2_flags(p)] + le_u16_bytes(p.depth) + place_object_middle_bytes(p)
        + clip_actions_part(p, swf_version)
}

/// The first form: character, depth, matrix, and the color transform without alpha.
pub open spec fn place_object1_bytes(p: PlaceObject) -> Seq<u8> {
    le_u16_bytes(p.character_id.unwrap()) + le_u16_bytes(p.depth) + pack_bits(
        matrix_bits(p.matrix.unwrap()),
    ) + match p.color_transform {
        Some(c) => pack_bits(color_transform_bits(without_alpha(c))),
        None => Seq::empty(),
    }
}

pub open spec fn place_object_bytes(p: PlaceObject, swf_version: u8) -> Seq<u8> {
    match place_object_version(p) {
        PlaceObjectVersion::PlaceObject3 => place_object3_bytes(p, swf_version),
        PlaceObjectVersion::PlaceObject2 => place_object2_bytes(p, swf_version),
        PlaceObjectVersion::PlaceObject1 => place_object1_bytes(p),
    }
}

/// Filters and clip actions can be written.
pub open spec fn place_object_valid(p: PlaceObject) -> bool {
    &&& match p.filters {
        Some(f) => filter_list_valid(f@),
        None => true,
    }
    &&& match p.clip_actions {
        Some(a) => forall|i: int| 0 <= i < a@.len() ==> clip_action_valid(#[trigger] a@[i]),
        None => true,
    }
}

fn flag(b: bool, weight: u16) -> (r: u16)
    ensures
        r == bit(b, weight as int),
{
    if b {
        weight
    } else {
        0
    }
}

fn emit_opt_u16(writer: &mut Vec<u8>, value: Option<u16>)
    ensures
        final(writer)@ == old(writer)@ + opt_u16_bytes(value),
{
    match value {
        Some(v) => emit_le_u16(writer, v),
        None => {
            proof {
                assert(writer@ =~= old(writer)@ + opt_u16_bytes(value));
            }
        },
    }
}

fn emit_opt_c_string(writer: &mut Vec<u8>, value: &Option<String>)
    ensures
        final(writer)@ == old(writer)@ + opt_c_string_bytes(*value),
{
    match value {
        Some(v) => {
            emit_c_string(writer, v.as_str());
            proof {
                assert(writer@ =~= old(writer)@ + opt_c_string_bytes(*value));
            }
        },
        None => {
            proof {
                assert(writer@ =~= old(writer)@ + opt_c_string_bytes(*value));
            }
        },
    }
}

#[verifier::spinoff_prover]
#[verifier::rlimit(60)]
fn emit_place_object_middle(writer: &mut Vec<u8>, value: &PlaceObject)
    ensures
        final(writer)@ == old(writer)@ + place_object_middle_bytes(*value),
{
    emit_opt_u16(writer, value.character_id);
    match &value.matrix {
        Some(matrix) => emit_matrix(writer, matrix),
        None => {},
    }
    let ghost b = writer@;
    match &value.color_transform {
        Some(color_transform) => emit_color_transform_with_alpha(writer, color_transform),
        None => {},
    }
    let ghost c = writer@;
    emit_opt_u16(writer, value.ratio);
    emit_opt_c_string(writer, &value.name);
    emit_opt_u16(writer, value.clip_depth);
    proof {
        assert(b =~= old(writer)@ + opt_u16_bytes(value.character_id) + opt_matrix_bytes(value.matrix));
        assert(c =~= b + opt_color_transform_bytes(value.color_transform));
        assert(final(writer)@ =~= old(writer)@ + place_object_middle_bytes(*value));
    }
}

fn emit_opt_flag_byte(writer: &mut Vec<u8>, value: Option<bool>)
    ensures
        final(writer)@ == old(writer)@ + opt_flag_byte(value),
{
    match value {
        Some(b) => emit_u8(writer, if b { 1 } else { 0 }),
        None => {
            proof {
                assert(writer@ =~= old(writer)@ + opt_flag_byte(value));
            }
        },
    }
}

#[verifier::spinoff_prover]
#[verifier::rlimit(60)]
fn emit_place_object3_tail(writer: &mut Vec<u8>, value: &PlaceObject)
    requires
        place_object_valid(*value),
    ensures
        final(writer)@ == old(writer)@ + place_object3_tail_bytes(*value),
{
    match &value.filters {
        Some(filters) => emit_filter_list(writer, filters),
        None => {},
    }
    match value.blend_mode {
        Some(blend_mode) => emit_blend_mode(writer, blend_mode),
        None => {},
    }
    emit_opt_flag_byte(writer, value.bitmap_cache);
    emit_opt_flag_byte(writer, value.visible);
    match value.background_color {
        Some(background_color) => emit_straight_s_rgba8(writer, background_color),
        None => {},
    }
    proof {
        assert(final(writer)@ =~= old(writer)@ + place_object3_tail_bytes(*value));
    }
}

fn emit_place_object_clip_actions(writer: &mut Vec<u8>, value: &PlaceObject, swf_version: u8)
    requires
        place_object_valid(*value),
    ensures
        final(writer)@ == old(writer)@ + clip_actions_part(*value, swf_version),
{
    if let Some(clip_actions) = &value.clip_actions {
        emit_clip_actions_string(writer, clip_actions, swf_version >= 6);
    } else {
        proof {
            assert(final(writer)@ =~= old(writer)@ + clip_actions_part(*value, swf_version));
        }
    }
}

pub fn get_place_object_version(value: &PlaceObject) -> (r: PlaceObjectVersion)
    ensures
        r == place_object_version(*value),
{
    let has_alpha_color_transform = match &value.color_transform {
        Some(c) => c.alpha_mult != FIXED8_ONE || c.alpha_add != 0,
        None => false,
    };
    if value.filters.is_some() || value.blend_mode.is_some() || value.bitmap_cache.is_some()
        || value.class_name.is_some() || value.visible.is_some() || value.background_color.is_some() {
        PlaceObjectVersion::PlaceObject3
    } else if value.character_id.is_none() || value.matrix.is_none() || value.is_update
        || has_alpha_color_transform || value.ratio.is_some() || value.name.is_some()
        || value.clip_depth.is_some() || value.clip_actions.is_some() {
        PlaceObjectVersion::PlaceObject2
    } else {
        PlaceObjectVersion::PlaceObject1
    }
}

fn place_object2_flags_of(value: &PlaceObject) -> (r: u8)
    ensures
        r == place_object2_flags(*value),
{
    (flag(value.is_update, 1) + flag(value.character_id.is_some(), 2) + flag(value.matrix.is_some(), 4)
        + flag(value.color_transform.is_some(), 8) + flag(value.ratio.is_some(), 16) + flag(
        value.name.is_some(),
        32,
    ) + flag(value.clip_depth.is_some(), 64) + flag(value.clip_actions.is_some(), 128)) as u8
}

fn place_object3_flags_of(value: &PlaceObject) -> (r: u16)
    ensures
        r == place_object3_flags(*value),
{
    place_object2_flags_of(value) as u16 + flag(value.filters.is_some(), 256) + flag(
        value.blend_mode.is_some(),
        512,
    ) + flag(value.bitmap_cache.is_some(), 1024) + flag(value.class_name.is_some(), 2048) + flag(
        value.visible.is_some(),
        8192,
    ) + flag(value.background_color.is_some(), 16384)
}

#[verifier::spinoff_prover]
#[verifier::rlimit(60)]
fn emit_place_object3(writer: &mut Vec<u8>, value: &PlaceObject, swf_version: u8)
    requires
        place_object_valid(*value),
    ensures
        final(writer)@ == old(writer)@ + place_object3_bytes(*value, swf_version),
{
    emit_le_u16(writer, place_object3_flags_of(value));
    emit_le_u16(writer, value.depth);
    emit_opt_c_string(writer, &value.class_name);
    emit_place_object_middle(writer, value);
    emit_place_object3_tail(writer, value);
    emit_place_object_clip_actions(writer, value, swf_version);
    proof {
        assert(final(writer)@ =~= old(writer)@ + place_object3_bytes(*value, swf_version));
    }
}

#[verifier::spinoff_prover]
#[verifier::rlimit(60)]
fn emit_place_object2(writer: &mut Vec<u8>, value: &PlaceObject, swf_version: u8)
    requires
        place_object_valid(*value),
    ensures
        final(writer)@ == old(writer)@ + place_object2_bytes(*value, swf_version),
{
    emit_u8(writer, place_object2_flags_of(value));
    emit_le_u16(writer, value.depth);
    emit_place_object_middle(writer, value);
    emit_place_object_clip_actions(writer, value, swf_version);
    proof {
        assert(final(writer)@ =~= old(writer)@ + place_object2_bytes(*value, swf_version));
    }
}

#[verifier::spinoff_prover]
#[verifier::rlimit(60)]
fn emit_place_object1(writer: &mut Vec<u8>, value: &PlaceObject)
    requires
        value.character_id.is_some(),
        value.matrix.is_some(),
    ensures
        final(writer)@ == old(writer)@ + place_object1_bytes(*value),
{
    let character_id = match value.character_id {
        Some(id) => id,
        None => 0,
    };
    emit_le_u16(writer, character_id);
    emit_le_u16(writer, value.depth);
    match &value.matrix {
        Some(matrix) => emit_matrix(writer, matrix),
        None => {},
    }
    match &value.color_transform {
        Some(c) => {
            let color_transform = ColorTransform {
                red_mult: c.red_mult,
                green_mult: c.green_mult,
                blue_mult: c.blue_mult,
                red_add: c.red_add,
                green_add: c.green_add,
                blue_add: c.blue_add,
            };
            emit_color_transform(writer, &color_transform);
        },
        None => {},
    }
    proof {
        assert(final(writer)@ =~= old(writer)@ + place_object1_bytes(*value));
    }
}

pub fn emit_place_object_any(writer: &mut Vec<u8>, value: &PlaceObject, swf_version: u8) -> (r:
    PlaceObjectVersion)
    requires
        place_object_valid(*value),
    ensures
        r == place_object_version(*value),
        final(writer)@ == old(writer)@ + place_object_bytes(*value, swf_version),
{
    let version = get_place_object_version(value);
    match version {
        PlaceObjectVersion::PlaceObject3 => emit_place_object3(writer, value, swf_version),
        PlaceObjectVersion::PlaceObject2 => emit_place_object2(writer, value, swf_version),
        PlaceObjectVersion::PlaceObject1 => emit_place_object1(writer, value),
    }
    version
}

/// A shape character.
#[derive(Clone, Debug, PartialEq, Eq)]
pub struct DefineShape {
    pub id: u16,
    pub bounds: Rect,
    pub edge_bounds: Option<Rect>,
    pub has_fill_winding: bool,
    pub has_non_scaling_strokes: bool,
    pub has_scaling_strokes: bool,
    pub shape: Shape,
}

/// Shape4 where edge bounds are given, else the earliest version that holds the shape.
pub open spec fn define_shape_version(t: DefineShape) -> ShapeVersion {
    if t.edge_bounds.is_some() {
        ShapeVersion::Shape4
    } else {
        shape_min_version(t.shape)
    }
}

pub open spec fn shape_version_code(v: ShapeVersion) -> u16 {
    match v {
        ShapeVersion::Shape1 => 2,
        ShapeVersion::Shape2 => 22,
        ShapeVersion::Shape3 => 32,
        ShapeVersion::Shape4 => 83,
    }
}

/// The stroke and winding flags of a Shape4 definition, from bit 0.
pub open spec fn define_shape_flags(t: DefineShape) -> u8 {
    (bit(t.has_scaling_strokes, 1) + bit(t.has_non_scaling_strokes, 2) + bit(t.has_fill_winding, 4)) as u8
}

/// The id, the bounds, the edge bounds and flags where given, then the shape.
pub open spec fn define_shape_bytes(t: DefineShape) -> Seq<u8> {
    le_u16_bytes(t.id) + pack_bits(rect_bits(t.bounds)) + match t.edge_bounds {
        Some(e) => pack_bits(rect_bits(e)) + seq![define_shape_flags(t)],
        None => Seq::empty(),
    } + pack_bits(shape_bits(t.shape, define_shape_version(t)))
}

#[verifier::spinoff_prover]
#[verifier::rlimit(60)]
pub fn emit_define_shape_any(writer: &mut Vec<u8>, value: &DefineShape) -> (r: ShapeVersion)
    requires
        shape_valid(value.shape),
    ensures
        r == define_shape_version(*value),
        final(writer)@ == old(writer)@ + define_shape_bytes(*value),
{
    emit_le_u16(writer, value.id);
    emit_rect(writer, &value.bounds);
    let ghost a = writer@;
    let version = match &value.edge_bounds {
        Some(edge_bounds) => {
            emit_rect(writer, edge_bounds);
            let flags: u8 = (flag(value.has_scaling_strokes, 1) + flag(value.has_non_scaling_strokes, 2)
                + flag(value.has_fill_winding, 4)) as u8;
            emit_u8(writer, flags);
            ShapeVersion::Shape4
        },
        None => get_min_shape_version(&value.shape),
    };
    let ghost b = writer@;
    proof {
        lemma_shape_fits(value.shape, version);
    }
    emit_shape(writer, &value.shape, version);
    proof {
        assert(b =~= a + match value.edge_bounds {
            Some(e) => pack_bits(rect_bits(e)) + seq![define_shape_flags(*value)],
            None => Seq::empty(),
        });
        assert(final(writer)@ =~= old(writer)@ + define_shape_bytes(*value));
    }
    version
}

/// A movie clip: its own frames, given as a tag string.
#[derive(Debug, PartialEq, Eq)]
pub struct DefineSprite {
    pub id: u16,
    pub frame_count: u16,
    pub tags: Vec<Tag>,
}

/// A complete tag record, header included, written as it is.
#[derive(Clone, Debug, PartialEq, Eq)]
pub struct Raw {
    pub data: Vec<u8>,
}

/// The tags that this library writes.
#[derive(Debug, PartialEq, Eq)]
pub enum Tag {
    DefineBitmap(DefineBitmap),
    DefineButton(DefineButton),
    DefineButtonSound(DefineButtonSound),
    DefineDynamicText(DefineDynamicText),
    DefineFont(DefineFont),
    DefineFontInfo(DefineFontInfo),
    DefineFontName(DefineFontName),
    DefineGlyphFont(DefineGlyphFont),
    DefineJpegTables(DefineJpegTables),
    DefineMorphShape(DefineMorphShape),
    DefineShape(DefineShape),
    DefineSound(DefineSound),
    DefineSprite(DefineSprite),
    DefineSceneAndFrameLabelData(DefineSceneAndFrameLabelData),
    DefineText(DefineText),
    DoAbc(DoAbc),
    DoAction(DoAction),
    ExportAssets(ExportAssets),
    FileAttributes(FileAttributes),
    FrameLabel(FrameLabel),
    Metadata(Metadata),
    PlaceObject(PlaceObject),
    Protect(Protect),
    Raw(Raw),
    RawBody(RawBody),
    RemoveObject(RemoveObject),
    SetBackgroundColor(SetBackgroundColor),
    ShowFrame,
    StartSound(StartSound),
    SymbolClass(SymbolClass),
}

/// The code of a tag's record, which for versioned tags is the code of the version chosen.
pub open spec fn tag_code(t: Tag) -> u16 {
    match t {
        Tag::DefineBitmap(b) => bitmap_version_code(bitmap_version(b)),
        Tag::DefineButton(b) => button_version_code(button_version(b)),
        Tag::DefineButtonSound(_) => 17,
        Tag::DefineDynamicText(_) => 37,
        Tag::DefineFont(f) => match define_font_version(f) {
            DefineFontVersion::Font2 => 48,
            DefineFontVersion::Font3 => 75,
            DefineFontVersion::Font4 => 91,
        },
        Tag::DefineGlyphFont(_) => 10,
        Tag::DefineJpegTables(_) => 8,
        Tag::DefineSceneAndFrameLabelData(_) => 86,
        Tag::DoAbc(a) => if a.header.is_some() {
            82
        } else {
            72
        },
        Tag::DefineFontInfo(f) => match font_info_version(f) {
            DefineFontInfoVersion::FontInfo1 => 13,
            DefineFontInfoVersion::FontInfo2 => 62,
        },
        Tag::DefineFontName(_) => 88,
        Tag::DefineMorphShape(m) => match morph_shape_version(m) {
            MorphShapeVersion::MorphShape1 => 46,
            MorphShapeVersion::MorphShape2 => 84,
        },
        Tag::DefineShape(s) => shape_version_code(define_shape_version(s)),
        Tag::DefineSound(_) => 14,
        Tag::DefineSprite(_) => 39,
        Tag::DefineText(t) => match define_text_version(t) {
            DefineTextVersion::Text1 => 11,
            DefineTextVersion::Text2 => 33,
        },
        Tag::DoAction(_) => 12,
        Tag::ExportAssets(_) => 56,
        Tag::FileAttributes(_) => 69,
        Tag::FrameLabel(_) => 43,
        Tag::Metadata(_) => 77,
        Tag::PlaceObject(p) => place_object_version_code(place_object_version(p)),
        Tag::Protect(_) => 24,
        Tag::Raw(_) => 0,
        Tag::RawBody(r) => r.code,
        Tag::RemoveObject(r) => match remove_object_version(r) {
            RemoveObjectVersion::RemoveObject1 => 5,
            RemoveObjectVersion::RemoveObject2 => 28,
        },
        Tag::SetBackgroundColor(_) => 9,
        Tag::ShowFrame => 1,
        Tag::StartSound(_) => 15,
        Tag::SymbolClass(_) => 76,
    }
}

pub open spec fn tag_body(t: Tag, swf_version: u8) -> Seq<u8>
    decreases t, 0int,
{
    match t {
        Tag::DefineBitmap(b) => le_u16_bytes(b.id) + b.data@,
        Tag::DefineButton(b) => define_button_bytes(b),
        Tag::DefineButtonSound(b) => define_button_sound_bytes(b),
        Tag::DefineDynamicText(d) => dynamic_text_bytes(d),
        Tag::DefineFont(f) => define_font_bytes(f),
        Tag::DefineGlyphFont(g) => glyph_font_bytes(g),
        Tag::DefineJpegTables(j) => j.data@,
        Tag::DefineSceneAndFrameLabelData(d) => frame_name_list_bytes(d.scenes@) + frame_name_list_bytes(
            d.labels@,
        ),
        Tag::DoAbc(a) => do_abc_bytes(a),
        Tag::DefineFontInfo(f) => font_info_bytes(f),
        Tag::DefineFontName(f) => le_u16_bytes(f.font_id) + c_string_bytes(f.name@) + c_string_bytes(
            f.copyright@,
        ),
        Tag::DefineMorphShape(m) => define_morph_shape_bytes(m),
        Tag::DefineShape(s) => define_shape_bytes(s),
        Tag::DefineSound(s) => define_sound_bytes(s),
        Tag::DefineSprite(s) => define_sprite_bytes(s, swf_version),
        Tag::DefineText(t) => define_text_bytes(t),
        Tag::DoAction(a) => a.actions@,
        Tag::ExportAssets(e) => named_id_list_bytes(e.assets@),
        Tag::FileAttributes(f) => le_u32_bytes(file_attributes_flags(f)),
        Tag::FrameLabel(f) => frame_label_bytes(f),
        Tag::Metadata(m) => c_string_bytes(m.metadata@),
        Tag::PlaceObject(p) => place_object_bytes(p, swf_version),
        Tag::Protect(p) => protect_bytes(p),
        Tag::Raw(r) => r.data@,
        Tag::RawBody(r) => r.data@,
        Tag::RemoveObject(r) => remove_object_bytes(r),
        Tag::SetBackgroundColor(c) => seq![c.color.r, c.color.g, c.color.b],
        Tag::ShowFrame => Seq::empty(),
        Tag::StartSound(s) => le_u16_bytes(s.sound_id) + sound_info_bytes(s.sound_info),
        Tag::SymbolClass(c) => named_id_list_bytes(c.symbols@),
    }
}

/// A raw tag as it is; any other behind its header.
pub open spec fn tag_record_bytes(t: Tag, swf_version: u8) -> Seq<u8>
    decreases t, 1int,
{
    match t {
        Tag::Raw(r) => r.data@,
        _ => tag_header_bytes(TagHeader { code: tag_code(t), length: tag_body(t, swf_version).len() as u32 })
            + tag_body(t, swf_version),
    }
}

/// The tag's model can be written: lists fit their counts, shapes and placements are valid,
/// and the body's length fits in 32 bits.
pub open spec fn tag_valid(t: Tag, swf_version: u8) -> bool
    decreases t, 0int,
{
    &&& tag_body(t, swf_version).len() <= u32::MAX
    &&& match t {
        Tag::DefineSprite(s) => tags_valid_from(s.tags@, 0, swf_version),
        Tag::DefineButton(b) => define_button_valid(b),
        Tag::DefineButtonSound(b) => define_button_sound_valid(b),
        Tag::DefineFont(f) => define_font_valid(f),
        Tag::DefineGlyphFont(g) => glyphs_valid(g.glyphs@) && 2 * g.glyphs@.len() <= usize::MAX,
        Tag::DefineSceneAndFrameLabelData(d) => d.scenes@.len() <= u32::MAX && d.labels@.len()
            <= u32::MAX,
        Tag::DefineDynamicText(d) => dynamic_text_valid(d),
        Tag::DefineFontInfo(f) => font_name_valid(f.font_name@),
        Tag::DefineMorphShape(m) => define_morph_shape_valid(m),
        Tag::DefineShape(s) => shape_valid(s.shape),
        Tag::DefineText(t) => define_text_valid(t),
        Tag::StartSound(s) => sound_info_valid(s.sound_info),
        Tag::ExportAssets(e) => e.assets@.len() <= u16::MAX,
        Tag::PlaceObject(p) => place_object_valid(p),
        Tag::SymbolClass(c) => c.symbols@.len() <= u16::MAX,
        _ => true,
    }
}

/// Writes a tag record: the body that the tag's encoder writes, behind the header with the
/// code of the version chosen.
#[verifier::spinoff_prover]
#[verifier::rlimit(60)]
pub fn emit_tag(writer: &mut Vec<u8>, value: &Tag, swf_version: u8)
    requires
        tag_valid(*value, swf_version),
    ensures
        final(writer)@ == old(writer)@ + tag_record_bytes(*value, swf_version),
    decreases value,
{
    let mut tag_writer: Vec<u8> = Vec::new();
    let code: u16 = match value {
        Tag::DefineBitmap(tag) => match emit_define_bitmap_any(&mut tag_writer, tag) {
            DefineBitmapVersion::DefineBitsJpeg1 => 6,
            DefineBitmapVersion::DefineBitsLossless1 => 20,
            DefineBitmapVersion::DefineBitsJpeg2 => 21,
            DefineBitmapVersion::DefineBitsJpeg3 => 35,
            DefineBitmapVersion::DefineBitsLossless2 => 36,
            DefineBitmapVersion::DefineBitsJpeg4 => 90,
        },
        Tag::DefineButtonSound(tag) => {
            emit_define_button_sound(&mut tag_writer, tag);
            17
        },
        Tag::DefineFont(tag) => match emit_define_font_any(&mut tag_writer, tag) {
            DefineFontVersion::Font2 => 48,
            DefineFontVersion::Font3 => 75,
            DefineFontVersion::Font4 => 91,
        },
        Tag::DefineGlyphFont(tag) => {
            emit_define_glyph_font(&mut tag_writer, tag);
            10
        },
        Tag::DefineJpegTables(tag) => {
            emit_define_jpeg_tables(&mut tag_writer, tag);
            8
        },
        Tag::DefineSceneAndFrameLabelData(tag) => {
            emit_define_scene_and_frame_label_data(&mut tag_writer, tag);
            86
        },
        Tag::DoAbc(tag) => match emit_do_abc_any(&mut tag_writer, tag) {
            DoAbcVersion::Abc1 => 72,
            DoAbcVersion::Abc2 => 82,
        },
        Tag::DefineButton(tag) => match emit_define_button_any(&mut tag_writer, tag) {
            ButtonVersion::Button1 => 7,
            ButtonVersion::Button2 => 34,
        },
        Tag::DefineDynamicText(tag) => {
            emit_define_dynamic_text(&mut tag_writer, tag);
            37
        },
        Tag::DefineFontInfo(tag) => match emit_define_font_info_any(&mut tag_writer, tag) {
            DefineFontInfoVersion::FontInfo1 => 13,
            DefineFontInfoVersion::FontInfo2 => 62,
        },
        Tag::DefineFontName(tag) => {
            emit_define_font_name(&mut tag_writer, tag);
            88
        },
        Tag::DefineMorphShape(tag) => match emit_define_morph_shape_any(&mut tag_writer, tag) {
            MorphShapeVersion::MorphShape1 => 46,
            MorphShapeVersion::MorphShape2 => 84,
        },
        Tag::DefineSprite(tag) => {
            emit_define_sprite(&mut tag_writer, tag, swf_version);
            39
        },
        Tag::DefineSound(tag) => {
            emit_define_sound(&mut tag_writer, tag);
            14
        },
        Tag::DefineText(tag) => match emit_define_text_any(&mut tag_writer, tag) {
            DefineTextVersion::Text1 => 11,
            DefineTextVersion::Text2 => 33,
        },
        Tag::DefineShape(tag) => match emit_define_shape_any(&mut tag_writer, tag) {
            ShapeVersion::Shape1 => 2,
            ShapeVersion::Shape2 => 22,
            ShapeVersion::Shape3 => 32,
            ShapeVersion::Shape4 => 83,
        },
        Tag::DoAction(tag) => {
            emit_do_action(&mut tag_writer, tag);
            12
        },
        Tag::ExportAssets(tag) => {
            emit_export_assets(&mut tag_writer, tag);
            56
        },
        Tag::FileAttributes(tag) => {
            emit_file_attributes(&mut tag_writer, tag);
            69
        },
        Tag::FrameLabel(tag) => {
            emit_frame_label(&mut tag_writer, tag);
            43
        },
        Tag::Metadata(tag) => {
            emit_metadata(&mut tag_writer, tag);
            77
        },
        Tag::PlaceObject(tag) => match emit_place_object_any(&mut tag_writer, tag, swf_version) {
            PlaceObjectVersion::PlaceObject1 => 4,
            PlaceObjectVersion::PlaceObject2 => 26,
            PlaceObjectVersion::PlaceObject3 => 70,
        },
        Tag::Protect(tag) => {
            emit_protect(&mut tag_writer, tag);
            24
        },
        Tag::Raw(tag) => {
            emit_bytes(writer, tag.data.as_slice());
            return;
        },
        Tag::RawBody(tag) => {
            emit_raw_body(&mut tag_writer, tag);
            tag.code
        },
        Tag::RemoveObject(tag) => match emit_remove_object_any(&mut tag_writer, tag) {
            RemoveObjectVersion::RemoveObject1 => 5,
            RemoveObjectVersion::RemoveObject2 => 28,
        },
        Tag::SetBackgroundColor(tag) => {
            emit_set_background_color(&mut tag_writer, tag);
            9
        },
        Tag::ShowFrame => 1,
        Tag::StartSound(tag) => {
            emit_start_sound(&mut tag_writer, tag);
            15
        },
        Tag::SymbolClass(tag) => {
            emit_symbol_class(&mut tag_writer, tag);
            76
        },
    };
    proof {
        assert(tag_writer@ =~= tag_body(*value, swf_version));
    }
    emit_tag_record(writer, code, tag_writer.as_slice());
}

/// The records of the tags from index `i` on, then the two zero bytes that end them.
pub open spec fn tag_string_bytes_from(ts: Seq<Tag>, i: int, swf_version: u8) -> Seq<u8>
    decreases ts, ts.len() - i,
{
    if i < 0 || i >= ts.len() {
        seq![0u8, 0u8]
    } else {
        tag_record_bytes(ts[i], swf_version) + tag_string_bytes_from(ts, i + 1, swf_version)
    }
}

/// The id, the frame count, then the sprite's own tag string.
pub open spec fn define_sprite_bytes(s: DefineSprite, swf_version: u8) -> Seq<u8>
    decreases s, 0int,
{
    le_u16_bytes(s.id) + le_u16_bytes(s.frame_count) + tag_string_bytes_from(s.tags@, 0, swf_version)
}

/// Writes a sprite: its id, its frame count, then its tags and their end marker.
pub fn emit_define_sprite(writer: &mut Vec<u8>, value: &DefineSprite, swf_version: u8)
    requires
        tags_valid(value.tags@, swf_version),
    ensures
        final(writer)@ == old(writer)@ + define_sprite_bytes(*value, swf_version),
    decreases value,
{
    emit_le_u16(writer, value.id);
    emit_le_u16(writer, value.frame_count);
    emit_tag_string(writer, &value.tags, swf_version);
    proof {
        assert(final(writer)@ =~= old(writer)@ + define_sprite_bytes(*value, swf_version));
    }
}

/// Every tag from index `i` on can be written.
pub open spec fn tags_valid_from(ts: Seq<Tag>, i: int, swf_version: u8) -> bool
    decreases ts, ts.len() - i,
{
    if i < 0 || i >= ts.len() {
        true
    } else {
        tag_valid(ts[i], swf_version) && tags_valid_from(ts, i + 1, swf_version)
    }
}

/// The records of the tags, then the two zero bytes that end them.
pub open spec fn tag_string_bytes(ts: Seq<Tag>, swf_version: u8) -> Seq<u8> {
    tag_string_bytes_from(ts, 0, swf_version)
}

/// Every tag can be written.
pub open spec fn tags_valid(ts: Seq<Tag>, swf_version: u8) -> bool {
    tags_valid_from(ts, 0, swf_version)
}

proof fn lemma_tags_valid_from(ts: Seq<Tag>, i: int, j: int, swf_version: u8)
    requires
        0 <= i <= j < ts.len(),
        tags_valid_from(ts, i, swf_version),
    ensures
        tag_valid(ts[j], swf_version),
    decreases j - i,
{
    if i < j {
        lemma_tags_valid_from(ts, i + 1, j, swf_version);
    }
}

pub fn emit_tag_string(writer: &mut Vec<u8>, value: &Vec<Tag>, swf_version: u8)
    requires
        tags_valid(value@, swf_version),
    ensures
        final(writer)@ == old(writer)@ + tag_string_bytes(value@, swf_version),
    decreases value,
{
    let mut i: usize = 0;
    while i < value.len()
        invariant
            i <= value@.len(),
            tags_valid(value@, swf_version),
            old(writer)@ + tag_string_bytes(value@, swf_version) == writer@ + tag_string_bytes_from(
                value@,
                i as int,
                swf_version,
            ),
        decreases value@.len() - i,
    {
        let ghost before = writer@;
        proof {
            lemma_tags_valid_from(value@, 0, i as int, swf_version);
        }
        emit_tag(writer, &value[i], swf_version);
        proof {
            assert(before + tag_string_bytes_from(value@, i as int, swf_version) =~= writer@
                + tag_string_bytes_from(value@, i + 1, swf_version));
        }
        i = i + 1;
    }
    emit_end_of_tags(writer);
}

/// A shape definition whose style tables all fit the first shape version (under 255 entries,
/// only opaque colors, only first-form lines) is written with code 2, and with code 83 once
/// edge bounds are given.
pub proof fn lemma_define_shape_code(t: DefineShape)
    requires
        styles_are_shape1(t.shape.initial_styles),
        records_are_shape1(t.shape.records@),
    ensures
        t.edge_bounds.is_none() ==> tag_code(Tag::DefineShape(t)) == 2,
        t.edge_bounds.is_some() ==> tag_code(Tag::DefineShape(t)) == 83,
{
    lemma_shape_min_version_shape1(t.shape);
}

/// A placement with filters is written with code 70. One with a character and a matrix, that
/// places rather than updates, and has no field of the later forms and no alpha in its color
/// transform, is written with code 4.
pub proof fn lemma_place_object_code(p: PlaceObject)
    ensures
        p.filters.is_some() ==> tag_code(Tag::PlaceObject(p)) == 70,
        !needs_place_object3(p) && !has_alpha_color_transform(p) && p.character_id.is_some()
            && p.matrix.is_some() && !p.is_update && p.ratio.is_none() && p.name.is_none()
            && p.clip_depth.is_none() && p.clip_actions.is_none() ==> tag_code(Tag::PlaceObject(p))
            == 4,
{
}

/// A button that tracks as a menu, has a record that uses a feature of the second form, or
/// has other than exactly one action run without conditions, is written with code 34; any
/// other button with code 7.
pub proof fn lemma_define_button_code(b: DefineButton)
    ensures
        b.track_as_menu ==> tag_code(Tag::DefineButton(b)) == 34,
        (exists|i: int| 0 <= i < b.records@.len() && record_needs_button2(#[trigger] b.records@[i]))
            ==> tag_code(Tag::DefineButton(b)) == 34,
        b.actions@.len() != 1 ==> tag_code(Tag::DefineButton(b)) == 34,
        !b.track_as_menu && (forall|i: int|
            0 <= i < b.records@.len() ==> !record_needs_button2(#[trigger] b.records@[i]))
            && b.actions@.len() == 1 && b.actions@[0].conditions.is_none() ==> tag_code(
            Tag::DefineButton(b),
        ) == 7,
{
}

} // verus!
