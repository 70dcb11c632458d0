use vstd::prelude::*;

use crate::basic_data_types::{
    emit_matrix, emit_rect, emit_straight_s_rgba8, matrix_bits, pair_bits, rect_bits, Matrix, Rect,
    StraightSRgba8,
};
use crate::bit_count::{get_i32_min_bit_count, get_u32_bit_count};
use crate::gradient::{color_bytes, emit_morph_gradient, morph_gradient_bytes, MorphGradient};
use crate::io_bits::{bytes_bits, lemma_pack_bits_unique, pack_bits, padding, u32_bits, zero_bits, BitsWriter};
use crate::primitives::{
    emit_bytes, emit_le_i16, emit_le_u16, emit_le_u32, emit_u8, flag_bit, flag_u16, le_u16_bytes, le_u32_bytes,
};
use crate::shape::{
    cap_code, cap_style_to_code, edge_bits, edge_fits, emit_edge_bits, emit_list_length, join_code,
    join_style_to_code, list_length_bytes, opt_index_bits, style_index_bits, CapStyle, Edge, JoinStyle,
    Vector2D,
};

verus! {

#[derive(Copy, Clone, Debug, PartialEq, Eq)]
pub enum MorphShapeVersion {
    MorphShape1,
    MorphShape2,
}

#[derive(Clone, Copy, Debug, PartialEq, Eq)]
pub struct MorphBitmapFill {
    pub bitmap_id: u16,
    pub matrix: Matrix,
    pub morph_matrix: Matrix,
    pub repeating: bool,
    pub smoothed: bool,
}

#[derive(Clone, Debug, PartialEq, Eq)]
pub struct MorphGradientFill {
    pub matrix: Matrix,
    pub morph_matrix: Matrix,
    pub gradient: MorphGradient,
}

/// Focal points are 8.8 fixed-point numbers, held as their count of 1/256 steps.
#[derive(Clone, Debug, PartialEq, Eq)]
pub struct MorphFocalGradientFill {
    pub matrix: Matrix,
    pub morph_matrix: Matrix,
    pub gradient: MorphGradient,
    pub focal_point: i16,
    pub morph_focal_point: i16,
}

#[derive(Clone, Copy, Debug, PartialEq, Eq)]
pub struct MorphSolidFill {
    pub color: StraightSRgba8,
    pub morph_color: StraightSRgba8,
}

#[derive(Clone, Debug, PartialEq, Eq)]
pub enum MorphFillStyle {
    Bitmap(MorphBitmapFill),
    FocalGradient(MorphFocalGradientFill),
    LinearGradient(MorphGradientFill),
    RadialGradient(MorphGradientFill),
    Solid(MorphSolidFill),
}

#[derive(Clone, Debug, PartialEq, Eq)]
pub struct MorphLineStyle {
    pub width: u16,
    pub morph_width: u16,
    pub start_cap: CapStyle,
    pub end_cap: CapStyle,
    pub join: JoinStyle,
    pub no_h_scale: bool,
    pub no_v_scale: bool,
    pub no_close: bool,
    pub pixel_hinting: bool,
    pub fill: MorphFillStyle,
}

#[derive(Clone, Debug, PartialEq, Eq)]
pub struct MorphShapeStyles {
    pub fill: Vec<MorphFillStyle>,
    pub line: Vec<MorphLineStyle>,
}

/// An edge at the start and at the end of the morph.
#[derive(Clone, Copy, Debug, PartialEq, Eq)]
pub struct MorphEdge {
    pub delta: Vector2D,
    pub control_delta: Option<Vector2D>,
    pub morph_delta: Vector2D,
    pub morph_control_delta: Option<Vector2D>,
}

/// A style change of a morph shape. Morph shapes keep one style table, so a style change
/// carries no new styles; the end move, where given, goes to the end stream.
#[derive(Clone, Copy, Debug, PartialEq, Eq)]
pub struct MorphStyleChange {
    pub move_to: Option<Vector2D>,
    pub morph_move_to: Option<Vector2D>,
    pub left_fill: Option<u32>,
    pub right_fill: Option<u32>,
    pub line_style: Option<u32>,
}

#[derive(Clone, Debug, PartialEq, Eq)]
pub enum MorphShapeRecord {
    Edge(MorphEdge),
    StyleChange(MorphStyleChange),
}

#[derive(Clone, Debug, PartialEq, Eq)]
pub struct MorphShape {
    pub initial_styles: MorphShapeStyles,
    pub records: Vec<MorphShapeRecord>,
}

pub open spec fn morph_bitmap_code(s: MorphBitmapFill) -> u8 {
    (0x40 + (if !s.repeating { 1int } else { 0 }) + (if !s.smoothed { 2int } else { 0 })) as u8
}

pub open spec fn morph_fill_style_bytes(f: MorphFillStyle) -> Seq<u8> {
    match f {
        MorphFillStyle::Bitmap(s) => seq![morph_bitmap_code(s)] + le_u16_bytes(s.bitmap_id) + pack_bits(
            matrix_bits(s.matrix),
        ) + pack_bits(matrix_bits(s.morph_matrix)),
        MorphFillStyle::FocalGradient(s) => seq![0x13u8] + pack_bits(matrix_bits(s.matrix)) + pack_bits(
            matrix_bits(s.morph_matrix),
        ) + morph_gradient_bytes(s.gradient) + le_u16_bytes(s.focal_point as u16) + le_u16_bytes(
            s.morph_focal_point as u16,
        ),
        MorphFillStyle::LinearGradient(s) => seq![0x10u8] + pack_bits(matrix_bits(s.matrix)) + pack_bits(
            matrix_bits(s.morph_matrix),
        ) + morph_gradient_bytes(s.gradient),
        MorphFillStyle::RadialGradient(s) => seq![0x12u8] + pack_bits(matrix_bits(s.matrix)) + pack_bits(
            matrix_bits(s.morph_matrix),
        ) + morph_gradient_bytes(s.gradient),
        MorphFillStyle::Solid(s) => seq![0u8] + color_bytes(s.color, true) + color_bytes(s.morph_color, true),
    }
}

/// Every gradient of the fill holds at most 15 stops.
pub open spec fn morph_fill_valid(f: MorphFillStyle) -> bool {
    match f {
        MorphFillStyle::FocalGradient(s) => s.gradient.colors@.len() <= 15,
        MorphFillStyle::LinearGradient(s) => s.gradient.colors@.len() <= 15,
        MorphFillStyle::RadialGradient(s) => s.gradient.colors@.len() <= 15,
        _ => true,
    }
}

/// The flags of the second line style form, as for shapes.
pub open spec fn morph_line_style2_flags(l: MorphLineStyle) -> u16 {
    (flag_bit(l.pixel_hinting, 1) + flag_bit(l.no_v_scale, 2) + flag_bit(l.no_h_scale, 4) + flag_bit(
        !(l.fill is Solid),
        8,
    ) + 16 * join_code(l.join) + 64 * cap_code(l.start_cap) + 256 * cap_code(l.end_cap) + flag_bit(
        l.no_close,
        1024,
    )) as u16
}

/// The widths, then in the first form the two solid colors; in the second the flags, the miter
/// limit if any, and the start color of a solid fill or the whole fill otherwise.
pub open spec fn morph_line_style_bytes(l: MorphLineStyle, version: MorphShapeVersion) -> Seq<u8> {
    le_u16_bytes(l.width) + le_u16_bytes(l.morph_width) + if version == MorphShapeVersion::MorphShape1 {
        match l.fill {
            MorphFillStyle::Solid(s) => color_bytes(s.color, true) + color_bytes(s.morph_color, true),
            _ => Seq::empty(),
        }
    } else {
        le_u16_bytes(morph_line_style2_flags(l)) + (match l.join {
            JoinStyle::Miter(limit) => le_u16_bytes(limit),
            _ => Seq::empty(),
        }) + match l.fill {
            MorphFillStyle::Solid(s) => color_bytes(s.color, true),
            other => morph_fill_style_bytes(other),
        }
    }
}

/// The first form holds only solid lines.
pub open spec fn morph_line_valid(l: MorphLineStyle, version: MorphShapeVersion) -> bool {
    &&& version == MorphShapeVersion::MorphShape1 ==> l.fill is Solid
    &&& morph_fill_valid(l.fill)
}

pub open spec fn morph_fill_styles_bytes(fs: Seq<MorphFillStyle>) -> Seq<u8>
    decreases fs.len(),
{
    if fs.len() == 0 {
        Seq::empty()
    } else {
        morph_fill_styles_bytes(fs.drop_last()) + morph_fill_style_bytes(fs.last())
    }
}

pub open spec fn morph_line_styles_bytes(ls: Seq<MorphLineStyle>, version: MorphShapeVersion) -> Seq<u8>
    decreases ls.len(),
{
    if ls.len() == 0 {
        Seq::empty()
    } else {
        morph_line_styles_bytes(ls.drop_last(), version) + morph_line_style_bytes(ls.last(), version)
    }
}

/// The fill list, then the line list, each behind its length in the extended form.
pub open spec fn morph_styles_bytes(s: MorphShapeStyles, version: MorphShapeVersion) -> Seq<u8> {
    list_length_bytes(s.fill@.len(), true) + morph_fill_styles_bytes(s.fill@) + list_length_bytes(
        s.line@.len(),
        true,
    ) + morph_line_styles_bytes(s.line@, version)
}

pub open spec fn morph_styles_valid(s: MorphShapeStyles, version: MorphShapeVersion) -> bool {
    &&& s.fill@.len() <= 0xffff
    &&& s.line@.len() <= 0xffff
    &&& forall|i: int| 0 <= i < s.fill@.len() ==> morph_fill_valid(#[trigger] s.fill@[i])
    &&& forall|i: int| 0 <= i < s.line@.len() ==> morph_line_valid(#[trigger] s.line@[i], version)
}

/// Bits after `acc` once a morph style table is written, as for shapes.
pub open spec fn morph_styles_bits_after(acc: Seq<bool>, s: MorphShapeStyles, version: MorphShapeVersion) -> Seq<bool> {
    acc + zero_bits(padding(acc.len())) + bytes_bits(morph_styles_bytes(s, version)) + u32_bits(
        4,
        style_index_bits(s.fill@.len()) as u32,
    ) + u32_bits(4, style_index_bits(s.line@.len()) as u32)
}

pub open spec fn morph_style_change_flags(sc: MorphStyleChange) -> u32 {
    (flag_bit(sc.move_to.is_some(), 1) + flag_bit(sc.left_fill.is_some(), 2) + flag_bit(
        sc.right_fill.is_some(),
        4,
    ) + flag_bit(sc.line_style.is_some(), 8)) as u32
}

/// The flags, the start move and the style indices of a morph style change.
pub open spec fn morph_style_change_head_bits(sc: MorphStyleChange, fill_bits: nat, line_bits: nat) -> Seq<bool> {
    u32_bits(5, morph_style_change_flags(sc)) + match sc.move_to {
        Some(m) => pair_bits(m.x, m.y),
        None => Seq::empty(),
    } + opt_index_bits(fill_bits, sc.left_fill) + opt_index_bits(fill_bits, sc.right_fill)
        + opt_index_bits(line_bits, sc.line_style)
}

pub open spec fn start_edge(e: MorphEdge) -> Edge {
    Edge { delta: e.delta, control_delta: e.control_delta }
}

pub open spec fn end_edge(e: MorphEdge) -> Edge {
    Edge { delta: e.morph_delta, control_delta: e.morph_control_delta }
}

/// Bits after `acc` once the start records are written and ended with six zero bits.
pub open spec fn start_records_bits_after(
    acc: Seq<bool>,
    rs: Seq<MorphShapeRecord>,
    fill_bits: nat,
    line_bits: nat,
    version: MorphShapeVersion,
) -> Seq<bool>
    decreases rs.len(),
{
    if rs.len() == 0 {
        acc + u32_bits(6, 0)
    } else {
        match rs[0] {
            MorphShapeRecord::Edge(e) => start_records_bits_after(
                acc + seq![true] + edge_bits(start_edge(e)),
                rs.skip(1),
                fill_bits,
                line_bits,
                version,
            ),
            MorphShapeRecord::StyleChange(sc) => start_records_bits_after(
                acc + seq![false] + morph_style_change_head_bits(sc, fill_bits, line_bits),
                rs.skip(1),
                fill_bits,
                line_bits,
                version,
            ),
        }
    }
}

/// The end records: each edge with its end deltas, each style change with an end move as a
/// pure move to that position, the other style changes left out; then six zero bits.
pub open spec fn end_records_bits(rs: Seq<MorphShapeRecord>) -> Seq<bool>
    decreases rs.len(),
{
    if rs.len() == 0 {
        u32_bits(6, 0)
    } else {
        (match rs[0] {
            MorphShapeRecord::Edge(e) => seq![true] + edge_bits(end_edge(e)),
            MorphShapeRecord::StyleChange(sc) => match sc.morph_move_to {
                Some(m) => seq![false] + u32_bits(5, 1) + pair_bits(m.x, m.y),
                None => Seq::empty(),
            },
        }) + end_records_bits(rs.skip(1))
    }
}

pub open spec fn morph_record_valid(r: MorphShapeRecord, version: MorphShapeVersion) -> bool {
    match r {
        MorphShapeRecord::Edge(e) => edge_fits(start_edge(e)) && edge_fits(end_edge(e)),
        MorphShapeRecord::StyleChange(sc) => morph_style_change_flags(sc) != 0,
    }
}

pub open spec fn morph_shape_valid(s: MorphShape, version: MorphShapeVersion) -> bool {
    &&& morph_styles_valid(s.initial_styles, version)
    &&& forall|i: int| 0 <= i < s.records@.len() ==> morph_record_valid(#[trigger] s.records@[i], version)
}

/// The bits of the start part: the style table, then the start records.
pub open spec fn morph_start_bits(s: MorphShape, version: MorphShapeVersion) -> Seq<bool> {
    start_records_bits_after(
        morph_styles_bits_after(Seq::empty(), s.initial_styles, version),
        s.records@,
        style_index_bits(s.initial_styles.fill@.len()),
        style_index_bits(s.initial_styles.line@.len()),
        version,
    )
}

/// The bits of the end part: the initial index widths again, then the end records.
pub open spec fn morph_end_bits(s: MorphShape) -> Seq<bool> {
    u32_bits(4, style_index_bits(s.initial_styles.fill@.len()) as u32) + u32_bits(
        4,
        style_index_bits(s.initial_styles.line@.len()) as u32,
    ) + end_records_bits(s.records@)
}

/// The offset of the end part, then the start part and the end part, each completed to a byte.
pub open spec fn morph_shape_bytes(s: MorphShape, version: MorphShapeVersion) -> Seq<u8> {
    le_u32_bytes(pack_bits(morph_start_bits(s, version)).len() as u32) + pack_bits(
        morph_start_bits(s, version),
    ) + pack_bits(morph_end_bits(s))
}

pub fn emit_morph_fill_style(writer: &mut Vec<u8>, value: &MorphFillStyle)
    requires
        morph_fill_valid(*value),
    ensures
        final(writer)@ == old(writer)@ + morph_fill_style_bytes(*value),
{
    match value {
        MorphFillStyle::Bitmap(style) => {
            let code: u8 = 0x40 + (if !style.repeating { 1u8 } else { 0u8 }) + (if !style.smoothed {
                2u8
            } else {
                0u8
            });
            emit_u8(writer, code);
            emit_le_u16(writer, style.bitmap_id);
            emit_matrix(writer, &style.matrix);
            emit_matrix(writer, &style.morph_matrix);
        },
        MorphFillStyle::FocalGradient(style) => {
            emit_u8(writer, 0x13);
            emit_matrix(writer, &style.matrix);
            emit_matrix(writer, &style.morph_matrix);
            emit_morph_gradient(writer, &style.gradient);
            emit_le_i16(writer, style.focal_point);
            emit_le_i16(writer, style.morph_focal_point);
        },
        MorphFillStyle::LinearGradient(style) => {
            emit_u8(writer, 0x10);
            emit_matrix(writer, &style.matrix);
            emit_matrix(writer, &style.morph_matrix);
            emit_morph_gradient(writer, &style.gradient);
        },
        MorphFillStyle::RadialGradient(style) => {
            emit_u8(writer, 0x12);
            emit_matrix(writer, &style.matrix);
            emit_matrix(writer, &style.morph_matrix);
            emit_morph_gradient(writer, &style.gradient);
        },
        MorphFillStyle::Solid(style) => {
            emit_u8(writer, 0x00);
            emit_straight_s_rgba8(writer, style.color);
            emit_straight_s_rgba8(writer, style.morph_color);
        },
    }
    proof {
        assert(final(writer)@ =~= old(writer)@ + morph_fill_style_bytes(*value));
    }
}

fn morph_line_style2_flags_of(value: &MorphLineStyle) -> (r: u16)
    ensures
        r == morph_line_style2_flags(*value),
{
    let has_fill = match &value.fill {
        MorphFillStyle::Solid(_) => false,
        _ => true,
    };
    flag_u16(value.pixel_hinting, 1) + flag_u16(value.no_v_scale, 2) + flag_u16(value.no_h_scale, 4) + flag_u16(
        has_fill,
        8,
    ) + 16 * join_style_to_code(value.join) + 64 * cap_style_to_code(value.start_cap) + 256
        * cap_style_to_code(value.end_cap) + flag_u16(value.no_close, 1024)
}

#[verifier::spinoff_prover]
#[verifier::rlimit(60)]
pub fn emit_morph_line_style(writer: &mut Vec<u8>, value: &MorphLineStyle, version: MorphShapeVersion)
    requires
        morph_line_valid(*value, version),
    ensures
        final(writer)@ == old(writer)@ + morph_line_style_bytes(*value, version),
{
    emit_le_u16(writer, value.width);
    emit_le_u16(writer, value.morph_width);
    match version {
        MorphShapeVersion::MorphShape1 => {
            match &value.fill {
                MorphFillStyle::Solid(style) => {
                    emit_straight_s_rgba8(writer, style.color);
                    emit_straight_s_rgba8(writer, style.morph_color);
                },
                _ => {},
            }
        },
        MorphShapeVersion::MorphShape2 => {
            emit_le_u16(writer, morph_line_style2_flags_of(value));
            match value.join {
                JoinStyle::Miter(limit) => emit_le_u16(writer, limit),
                _ => {},
            }
            match &value.fill {
                MorphFillStyle::Solid(style) => emit_straight_s_rgba8(writer, style.color),
                style => emit_morph_fill_style(writer, style),
            }
        },
    }
    proof {
        assert(final(writer)@ =~= old(writer)@ + morph_line_style_bytes(*value, version));
    }
}

pub fn emit_morph_shape_styles_bits(writer: &mut BitsWriter, value: &MorphShapeStyles, version: MorphShapeVersion) -> (r: (
    u32,
    u32,
))
    requires
        old(writer).wf(),
        morph_styles_valid(*value, version),
    ensures
        final(writer).wf(),
        final(writer)@ == morph_styles_bits_after(old(writer)@, *value, version),
        r.0 == style_index_bits(value.fill@.len()),
        r.1 == style_index_bits(value.line@.len()),
        r.0 <= 32,
        r.1 <= 32,
{
    let mut bytes: Vec<u8> = Vec::new();
    emit_list_length(&mut bytes, value.fill.len(), true);
    let ghost a = bytes@;
    let mut i: usize = 0;
    while i < value.fill.len()
        invariant
            i <= value.fill@.len(),
            morph_styles_valid(*value, version),
            bytes@ == a + morph_fill_styles_bytes(value.fill@.take(i as int)),
        decreases value.fill@.len() - i,
    {
        emit_morph_fill_style(&mut bytes, &value.fill[i]);
        proof {
            assert(value.fill@.take(i + 1).drop_last() =~= value.fill@.take(i as int));
            assert(bytes@ =~= a + morph_fill_styles_bytes(value.fill@.take(i + 1)));
        }
        i = i + 1;
    }
    proof {
        assert(value.fill@.take(i as int) =~= value.fill@);
    }
    emit_list_length(&mut bytes, value.line.len(), true);
    let ghost b = bytes@;
    let mut i: usize = 0;
    while i < value.line.len()
        invariant
            i <= value.line@.len(),
            morph_styles_valid(*value, version),
            bytes@ == b + morph_line_styles_bytes(value.line@.take(i as int), version),
        decreases value.line@.len() - i,
    {
        emit_morph_line_style(&mut bytes, &value.line[i], version);
        proof {
            assert(value.line@.take(i + 1).drop_last() =~= value.line@.take(i as int));
            assert(bytes@ =~= b + morph_line_styles_bytes(value.line@.take(i + 1), version));
        }
        i = i + 1;
    }
    proof {
        assert(value.line@.take(i as int) =~= value.line@);
        assert(bytes@ =~= morph_styles_bytes(*value, version));
    }
    writer.write_bytes(bytes.as_slice());
    let fill_bits = get_u32_bit_count(value.fill.len() as u32);
    let line_bits = get_u32_bit_count(value.line.len() as u32);
    writer.write_u32_bits(4, fill_bits);
    writer.write_u32_bits(4, line_bits);
    (fill_bits, line_bits)
}

fn emit_opt_index(writer: &mut BitsWriter, bits: u32, value: Option<u32>)
    requires
        old(writer).wf(),
        bits <= 32,
    ensures
        final(writer).wf(),
        final(writer)@ == old(writer)@ + opt_index_bits(bits as nat, value),
{
    match value {
        Some(index) => writer.write_u32_bits(bits, index),
        None => {
            proof {
                assert(writer@ =~= old(writer)@ + opt_index_bits(bits as nat, value));
            }
        },
    }
}

fn emit_move_bits(writer: &mut BitsWriter, to: Vector2D)
    requires
        old(writer).wf(),
    ensures
        final(writer).wf(),
        final(writer)@ == old(writer)@ + pair_bits(to.x, to.y),
{
    let values: Vec<i32> = vec![to.x, to.y];
    proof {
        assert(values@ =~= seq![to.x, to.y]);
    }
    let bits = get_i32_min_bit_count(values.as_slice());
    writer.write_u32_bits(5, bits);
    writer.write_i32_bits(bits, to.x);
    writer.write_i32_bits(bits, to.y);
    proof {
        assert(writer@ =~= old(writer)@ + pair_bits(to.x, to.y));
    }
}

#[verifier::spinoff_prover]
#[verifier::rlimit(60)]
fn emit_morph_style_change_head_bits(writer: &mut BitsWriter, value: &MorphStyleChange, fill_bits: u32, line_bits: u32)
    requires
        old(writer).wf(),
        fill_bits <= 32,
        line_bits <= 32,
    ensures
        final(writer).wf(),
        final(writer)@ == old(writer)@ + morph_style_change_head_bits(*value, fill_bits as nat, line_bits as nat),
{
    let flags: u16 = flag_u16(value.move_to.is_some(), 1) + flag_u16(value.left_fill.is_some(), 2) + flag_u16(
        value.right_fill.is_some(),
        4,
    ) + flag_u16(value.line_style.is_some(), 8);
    writer.write_u32_bits(5, flags as u32);
    let ghost a = writer@;
    match value.move_to {
        Some(move_to) => emit_move_bits(writer, move_to),
        None => {},
    }
    emit_opt_index(writer, fill_bits, value.left_fill);
    emit_opt_index(writer, fill_bits, value.right_fill);
    emit_opt_index(writer, line_bits, value.line_style);
    proof {
        assert(final(writer)@ =~= old(writer)@ + morph_style_change_head_bits(
            *value,
            fill_bits as nat,
            line_bits as nat,
        ));
    }
}

/// Writes a morph style change record without its leading flag. The index widths hold on
/// unchanged and are returned as they came.
pub fn emit_morph_style_change_bits(
    writer: &mut BitsWriter,
    value: &MorphStyleChange,
    fill_bits: u32,
    line_bits: u32,
    version: MorphShapeVersion,
) -> (r: (u32, u32))
    requires
        old(writer).wf(),
        fill_bits <= 32,
        line_bits <= 32,
        morph_record_valid(MorphShapeRecord::StyleChange(*value), version),
    ensures
        final(writer).wf(),
        final(writer)@ == old(writer)@ + morph_style_change_head_bits(*value, fill_bits as nat, line_bits as nat),
        r == (fill_bits, line_bits),
{
    emit_morph_style_change_head_bits(writer, value, fill_bits, line_bits);
    (fill_bits, line_bits)
}

pub fn emit_morph_shape_start_record_string_bits(
    writer: &mut BitsWriter,
    value: &Vec<MorphShapeRecord>,
    fill_bits: u32,
    line_bits: u32,
    version: MorphShapeVersion,
)
    requires
        old(writer).wf(),
        fill_bits <= 32,
        line_bits <= 32,
        forall|i: int| 0 <= i < value@.len() ==> morph_record_valid(#[trigger] value@[i], version),
    ensures
        final(writer).wf(),
        final(writer)@ == start_records_bits_after(
            old(writer)@,
            value@,
            fill_bits as nat,
            line_bits as nat,
            version,
        ),
{
    let ghost initial_fill_bits = fill_bits;
    let ghost initial_line_bits = line_bits;
    let mut fill_bits: u32 = fill_bits;
    let mut line_bits: u32 = line_bits;
    let mut i: usize = 0;
    proof {
        assert(value@.skip(0) =~= value@);
    }
    while i < value.len()
        invariant
            writer.wf(),
            i <= value@.len(),
            fill_bits <= 32,
            line_bits <= 32,
            forall|j: int| 0 <= j < value@.len() ==> morph_record_valid(#[trigger] value@[j], version),
            start_records_bits_after(writer@, value@.skip(i as int), fill_bits as nat, line_bits as nat, version)
                == start_records_bits_after(
                old(writer)@,
                value@,
                initial_fill_bits as nat,
                initial_line_bits as nat,
                version,
            ),
        decreases value@.len() - i,
    {
        proof {
            assert(value@.skip(i as int)[0] == value@[i as int]);
            assert(value@.skip(i as int).skip(1) =~= value@.skip(i + 1));
            assert(morph_record_valid(value@[i as int], version));
        }
        let ghost before = writer@;
        let ghost before_fill_bits = fill_bits;
        let ghost before_line_bits = line_bits;
        match &value[i] {
            MorphShapeRecord::Edge(record) => {
                writer.write_bool_bits(true);
                let edge = Edge { delta: record.delta, control_delta: record.control_delta };
                emit_edge_bits(writer, &edge);
                proof {
                    assert(writer@ =~= before + seq![true] + edge_bits(start_edge(*record)));
                }
            },
            MorphShapeRecord::StyleChange(record) => {
                writer.write_bool_bits(false);
                let (next_fill_bits, next_line_bits) = emit_morph_style_change_bits(
                    writer,
                    record,
                    fill_bits,
                    line_bits,
                    version,
                );
                fill_bits = next_fill_bits;
                line_bits = next_line_bits;
                proof {
                    assert(before.push(false) =~= before + seq![false]);
                }
            },
        }
        proof {
            assert(start_records_bits_after(before, value@.skip(i as int), before_fill_bits as nat, before_line_bits as nat, version)
                == start_records_bits_after(writer@, value@.skip(i + 1), fill_bits as nat, line_bits as nat, version));
        }
        i = i + 1;
    }
    writer.write_u32_bits(6, 0);
    proof {
        assert(value@.skip(i as int) =~= Seq::<MorphShapeRecord>::empty());
    }
}

pub fn emit_morph_shape_end_record_string_bits(writer: &mut BitsWriter, value: &Vec<MorphShapeRecord>)
    requires
        old(writer).wf(),
        forall|i: int| 0 <= i < value@.len() ==> edge_fits_end(#[trigger] value@[i]),
    ensures
        final(writer).wf(),
        final(writer)@ == old(writer)@ + end_records_bits(value@),
{
    let mut i: usize = 0;
    proof {
        assert(value@.skip(0) =~= value@);
    }
    while i < value.len()
        invariant
            writer.wf(),
            i <= value@.len(),
            forall|j: int| 0 <= j < value@.len() ==> edge_fits_end(#[trigger] value@[j]),
            old(writer)@ + end_records_bits(value@) == writer@ + end_records_bits(value@.skip(i as int)),
        decreases value@.len() - i,
    {
        proof {
            assert(value@.skip(i as int)[0] == value@[i as int]);
            assert(value@.skip(i as int).skip(1) =~= value@.skip(i + 1));
            assert(edge_fits_end(value@[i as int]));
        }
        let ghost before = writer@;
        match &value[i] {
            MorphShapeRecord::Edge(record) => {
                writer.write_bool_bits(true);
                let edge = Edge { delta: record.morph_delta, control_delta: record.morph_control_delta };
                emit_edge_bits(writer, &edge);
                proof {
                    assert(writer@ =~= before + (seq![true] + edge_bits(end_edge(*record))));
                }
            },
            MorphShapeRecord::StyleChange(record) => {
                match record.morph_move_to {
                    Some(morph_move_to) => {
                        writer.write_bool_bits(false);
                        writer.write_u32_bits(5, 1);
                        emit_move_bits(writer, morph_move_to);
                        proof {
                            assert(writer@ =~= before + (seq![false] + u32_bits(5, 1) + pair_bits(
                                morph_move_to.x,
                                morph_move_to.y,
                            )));
                        }
                    },
                    None => {
                        proof {
                            assert(writer@ =~= before + Seq::<bool>::empty());
                        }
                    },
                }
            },
        }
        proof {
            assert(before + end_records_bits(value@.skip(i as int)) =~= writer@ + end_records_bits(
                value@.skip(i + 1),
            ));
        }
        i = i + 1;
    }
    writer.write_u32_bits(6, 0);
    proof {
        assert(value@.skip(i as int) =~= Seq::<MorphShapeRecord>::empty());
    }
}

/// The end deltas of an edge fit in 32 bits.
pub open spec fn edge_fits_end(r: MorphShapeRecord) -> bool {
    match r {
        MorphShapeRecord::Edge(e) => edge_fits(end_edge(e)),
        _ => true,
    }
}

/// Writes a morph shape: the offset of its end part, its start part, then its end part.
#[verifier::spinoff_prover]
#[verifier::rlimit(60)]
pub fn emit_morph_shape(writer: &mut Vec<u8>, value: &MorphShape, version: MorphShapeVersion)
    requires
        morph_shape_valid(*value, version),
        pack_bits(morph_start_bits(*value, version)).len() <= u32::MAX,
    ensures
        final(writer)@ == old(writer)@ + morph_shape_bytes(*value, version),
{
    let mut bits_writer = BitsWriter::new(Vec::new());
    proof {
        assert(bits_writer@ =~= Seq::<bool>::empty());
    }
    let (fill_bits, line_bits) = emit_morph_shape_styles_bits(&mut bits_writer, &value.initial_styles, version);
    emit_morph_shape_start_record_string_bits(&mut bits_writer, &value.records, fill_bits, line_bits, version);
    let start_bytes = bits_writer.into_inner();
    proof {
        lemma_pack_bits_unique(start_bytes@, morph_start_bits(*value, version));
        assert forall|i: int| 0 <= i < value.records@.len() implies edge_fits_end(#[trigger] value.records@[i]) by {
            assert(morph_record_valid(value.records@[i], version));
        }
    }
    let mut end_writer = BitsWriter::new(Vec::new());
    proof {
        assert(end_writer@ =~= Seq::<bool>::empty());
    }
    end_writer.write_u32_bits(4, fill_bits);
    end_writer.write_u32_bits(4, line_bits);
    emit_morph_shape_end_record_string_bits(&mut end_writer, &value.records);
    let end_bytes = end_writer.into_inner();
    proof {
        assert(Seq::<bool>::empty() + u32_bits(4, fill_bits) + u32_bits(4, line_bits) + end_records_bits(value.records@)
            =~= morph_end_bits(*value));
        lemma_pack_bits_unique(end_bytes@, morph_end_bits(*value));
    }
    emit_le_u32(writer, start_bytes.len() as u32);
    emit_bytes(writer, start_bytes.as_slice());
    emit_bytes(writer, end_bytes.as_slice());
    proof {
        assert(final(writer)@ =~= old(writer)@ + morph_shape_bytes(*value, version));
    }
}

#[derive(Clone, Debug, PartialEq, Eq)]
pub struct DefineMorphShape {
    pub id: u16,
    pub bounds: Rect,
    pub morph_bounds: Rect,
    pub edge_bounds: Option<Rect>,
    pub morph_edge_bounds: Option<Rect>,
    pub has_non_scaling_strokes: bool,
    pub has_scaling_strokes: bool,
    pub shape: MorphShape,
}

/// The second form where edge bounds are given, the first otherwise.
pub open spec fn morph_shape_version(t: DefineMorphShape) -> MorphShapeVersion {
    if t.edge_bounds.is_some() {
        MorphShapeVersion::MorphShape2
    } else {
        MorphShapeVersion::MorphShape1
    }
}

/// The id and both bounds; with edge bounds both edge bounds and the stroke flags; then the
/// shape.
pub open spec fn define_morph_shape_bytes(t: DefineMorphShape) -> Seq<u8> {
    le_u16_bytes(t.id) + pack_bits(rect_bits(t.bounds)) + pack_bits(rect_bits(t.morph_bounds)) + match (
        t.edge_bounds,
        t.morph_edge_bounds,
    ) {
        (Some(e), Some(m)) => pack_bits(rect_bits(e)) + pack_bits(rect_bits(m)) + seq![
            (flag_bit(t.has_scaling_strokes, 1) + flag_bit(t.has_non_scaling_strokes, 2)) as u8,
        ],
        _ => Seq::empty(),
    } + morph_shape_bytes(t.shape, morph_shape_version(t))
}

/// Edge bounds come in pairs, and the shape can be written in the form chosen.
pub open spec fn define_morph_shape_valid(t: DefineMorphShape) -> bool {
    &&& t.edge_bounds.is_some() == t.morph_edge_bounds.is_some()
    &&& morph_shape_valid(t.shape, morph_shape_version(t))
    &&& pack_bits(morph_start_bits(t.shape, morph_shape_version(t))).len() <= u32::MAX
}

#[verifier::spinoff_prover]
#[verifier::rlimit(60)]
pub fn emit_define_morph_shape_any(writer: &mut Vec<u8>, value: &DefineMorphShape) -> (r: MorphShapeVersion)
    requires
        define_morph_shape_valid(*value),
    ensures
        r == morph_shape_version(*value),
        final(writer)@ == old(writer)@ + define_morph_shape_bytes(*value),
{
    emit_le_u16(writer, value.id);
    emit_rect(writer, &value.bounds);
    emit_rect(writer, &value.morph_bounds);
    let ghost a = writer@;
    let version = match (&value.edge_bounds, &value.morph_edge_bounds) {
        (Some(edge_bounds), Some(morph_edge_bounds)) => {
            emit_rect(writer, edge_bounds);
            emit_rect(writer, morph_edge_bounds);
            let flags: u16 = flag_u16(value.has_scaling_strokes, 1) + flag_u16(value.has_non_scaling_strokes, 2);
            emit_u8(writer, flags as u8);
            MorphShapeVersion::MorphShape2
        },
        _ => MorphShapeVersion::MorphShape1,
    };
    let ghost b = writer@;
    emit_morph_shape(writer, &value.shape, version);
    proof {
        assert(b =~= a + match (value.edge_bounds, value.morph_edge_bounds) {
            (Some(e), Some(m)) => pack_bits(rect_bits(e)) + pack_bits(rect_bits(m)) + seq![
                (flag_bit(value.has_scaling_strokes, 1) + flag_bit(value.has_non_scaling_strokes, 2)) as u8,
            ],
            _ => Seq::empty(),
        });
        assert(final(writer)@ =~= old(writer)@ + define_morph_shape_bytes(*value));
    }
    version
}

} // verus!
