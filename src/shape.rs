use vstd::prelude::*;

use crate::basic_data_types::{emit_matrix, matrix_bits, pair_bits, Matrix, StraightSRgba8};
use crate::bit_count::{get_i32_min_bit_count, get_u32_bit_count, i_min_bit_count, u_bit_count};
use crate::gradient::{color_bytes, color_fits, emit_color, emit_gradient, gradient_bytes, gradient_fits, Gradient};
use crate::io_bits::{
    bytes_bits, i32_bits, lemma_pack_bits_unique, pack_bits, padding, u32_bits, zero_bits, BitsWriter,
};
use crate::primitives::emit_bytes;
use crate::primitives::{emit_le_i16, emit_le_u16, emit_u8, le_u16_bytes};

verus! {

#[derive(Copy, Clone, Debug, PartialEq, Eq)]
pub enum ShapeVersion {
    Shape1,
    Shape2,
    Shape3,
    Shape4,
}

impl ShapeVersion {
    /// The position of the version in the order Shape1 < Shape2 < Shape3 < Shape4.
    pub open spec fn spec_rank(self) -> u8 {
        match self {
            ShapeVersion::Shape1 => 1,
            ShapeVersion::Shape2 => 2,
            ShapeVersion::Shape3 => 3,
            ShapeVersion::Shape4 => 4,
        }
    }

    #[verifier::when_used_as_spec(spec_rank)]
    pub fn rank(self) -> (r: u8)
        ensures
            r == self.spec_rank(),
    {
        match self {
            ShapeVersion::Shape1 => 1,
            ShapeVersion::Shape2 => 2,
            ShapeVersion::Shape3 => 3,
            ShapeVersion::Shape4 => 4,
        }
    }
}

/// The later of two versions.
pub open spec fn max_version(a: ShapeVersion, b: ShapeVersion) -> ShapeVersion {
    if a.rank() >= b.rank() {
        a
    } else {
        b
    }
}

fn exec_max_version(a: ShapeVersion, b: ShapeVersion) -> (r: ShapeVersion)
    ensures
        r == max_version(a, b),
{
    if a.rank() >= b.rank() {
        a
    } else {
        b
    }
}

#[derive(Clone, Copy, Debug, PartialEq, Eq)]
pub struct BitmapFill {
    pub bitmap_id: u16,
    pub matrix: Matrix,
    pub repeating: bool,
    pub smoothed: bool,
}

#[derive(Clone, Debug, PartialEq, Eq)]
pub struct GradientFill {
    pub matrix: Matrix,
    pub gradient: Gradient,
}

/// A focal gradient; the focal point is an 8.8 fixed-point number, held as its count of
/// 1/256 steps.
#[derive(Clone, Debug, PartialEq, Eq)]
pub struct FocalGradientFill {
    pub matrix: Matrix,
    pub gradient: Gradient,
    pub focal_point: i16,
}

#[derive(Clone, Debug, PartialEq, Eq)]
pub enum FillStyle {
    Bitmap(BitmapFill),
    FocalGradient(FocalGradientFill),
    LinearGradient(GradientFill),
    RadialGradient(GradientFill),
    Solid(StraightSRgba8),
}

#[derive(Clone, Copy, Debug, PartialEq, Eq)]
pub enum CapStyle {
    /// Flat ends, with no cap.
    Flat,
    Round,
    Square,
}

#[derive(Clone, Copy, Debug, PartialEq, Eq)]
pub enum JoinStyle {
    Bevel,
    Round,
    /// A miter join, with its limit as an 8.8 fixed-point number.
    Miter(u16),
}

#[derive(Clone, Debug, PartialEq, Eq)]
pub struct LineStyle {
    pub width: u16,
    pub start_cap: CapStyle,
    pub end_cap: CapStyle,
    pub join: JoinStyle,
    pub no_h_scale: bool,
    pub no_v_scale: bool,
    pub no_close: bool,
    pub pixel_hinting: bool,
    pub fill: FillStyle,
}

#[derive(Clone, Debug, PartialEq, Eq)]
pub struct ShapeStyles {
    pub fill: Vec<FillStyle>,
    pub line: Vec<LineStyle>,
}

pub open spec fn fill_is_solid(f: FillStyle) -> bool {
    f is Solid
}

pub open spec fn gradient_has_alpha(g: Gradient) -> bool {
    exists|i: int| 0 <= i < g.colors@.len() && #[trigger] g.colors@[i].color.a != 255
}

/// Some color of the fill is not opaque.
pub open spec fn fill_has_alpha(f: FillStyle) -> bool {
    match f {
        FillStyle::Solid(c) => c.a != 255,
        FillStyle::FocalGradient(s) => gradient_has_alpha(s.gradient),
        FillStyle::LinearGradient(s) => gradient_has_alpha(s.gradient),
        FillStyle::RadialGradient(s) => gradient_has_alpha(s.gradient),
        FillStyle::Bitmap(_) => false,
    }
}

pub open spec fn fill_style_min_version(f: FillStyle) -> ShapeVersion {
    if fill_has_alpha(f) {
        ShapeVersion::Shape3
    } else {
        ShapeVersion::Shape1
    }
}

/// The line needs the second line style form: a cap or join other than round, a scaling or
/// closing flag, pixel hinting, or a fill that is not solid.
pub open spec fn is_line_style2(l: LineStyle) -> bool {
    ||| l.start_cap != CapStyle::Round
    ||| l.end_cap != CapStyle::Round
    ||| l.join != JoinStyle::Round
    ||| l.no_h_scale
    ||| l.no_v_scale
    ||| l.no_close
    ||| l.pixel_hinting
    ||| !fill_is_solid(l.fill)
}

pub open spec fn line_style_min_version(l: LineStyle) -> ShapeVersion {
    if is_line_style2(l) {
        ShapeVersion::Shape4
    } else if fill_has_alpha(l.fill) {
        ShapeVersion::Shape3
    } else {
        ShapeVersion::Shape1
    }
}

/// Shape2 where a list holds 255 entries or more, Shape1 otherwise.
pub open spec fn list_length_min_version(n: nat) -> ShapeVersion {
    if n < 255 {
        ShapeVersion::Shape1
    } else {
        ShapeVersion::Shape2
    }
}

pub open spec fn fill_list_min_version(fs: Seq<FillStyle>) -> ShapeVersion
    decreases fs.len(),
{
    if fs.len() == 0 {
        ShapeVersion::Shape1
    } else {
        max_version(fill_list_min_version(fs.drop_last()), fill_style_min_version(fs.last()))
    }
}

pub open spec fn line_list_min_version(ls: Seq<LineStyle>) -> ShapeVersion
    decreases ls.len(),
{
    if ls.len() == 0 {
        ShapeVersion::Shape1
    } else {
        max_version(line_list_min_version(ls.drop_last()), line_style_min_version(ls.last()))
    }
}

pub open spec fn styles_min_version(s: ShapeStyles) -> ShapeVersion {
    max_version(
        max_version(list_length_min_version(s.fill@.len()), fill_list_min_version(s.fill@)),
        max_version(list_length_min_version(s.line@.len()), line_list_min_version(s.line@)),
    )
}

/// The fill can be written in the given color form.
pub open spec fn fill_fits(f: FillStyle, with_alpha: bool) -> bool {
    match f {
        FillStyle::Solid(c) => color_fits(c, with_alpha),
        FillStyle::FocalGradient(s) => gradient_fits(s.gradient, with_alpha),
        FillStyle::LinearGradient(s) => gradient_fits(s.gradient, with_alpha),
        FillStyle::RadialGradient(s) => gradient_fits(s.gradient, with_alpha),
        FillStyle::Bitmap(_) => true,
    }
}

/// The line can be written in the form that the version uses: before Shape4 only a solid
/// line, and an opaque one before Shape3.
pub open spec fn line_fits(l: LineStyle, version: ShapeVersion) -> bool {
    if version.rank() < 4 {
        match l.fill {
            FillStyle::Solid(c) => color_fits(c, version.rank() >= 3),
            _ => false,
        }
    } else {
        fill_fits(l.fill, true)
    }
}

/// The style lists can be written with the given version.
pub open spec fn styles_fit(s: ShapeStyles, version: ShapeVersion) -> bool {
    &&& s.fill@.len() <= (if version.rank() >= 2 { 0xffffnat } else { 0xffnat })
    &&& s.line@.len() <= (if version.rank() >= 2 { 0xffffnat } else { 0xffnat })
    &&& forall|i: int| 0 <= i < s.fill@.len() ==> fill_fits(#[trigger] s.fill@[i], version.rank() >= 3)
    &&& forall|i: int| 0 <= i < s.line@.len() ==> line_fits(#[trigger] s.line@[i], version)
}

/// A list length as one byte, or as 0xFF and a 16-bit count where the extended form is
/// allowed and the length is 255 or more.
pub open spec fn list_length_bytes(n: nat, support_extended: bool) -> Seq<u8> {
    if !support_extended || n < 255 {
        seq![n as u8]
    } else {
        seq![255u8] + le_u16_bytes(n as u16)
    }
}

pub open spec fn bitmap_fill_code(s: BitmapFill) -> u8 {
    (0x40 + (if !s.repeating { 1int } else { 0 }) + (if !s.smoothed { 2int } else { 0 })) as u8
}

pub open spec fn fill_style_bytes(f: FillStyle, with_alpha: bool) -> Seq<u8> {
    match f {
        FillStyle::Bitmap(s) => seq![bitmap_fill_code(s)] + le_u16_bytes(s.bitmap_id) + pack_bits(
            matrix_bits(s.matrix),
        ),
        FillStyle::FocalGradient(s) => seq![0x13u8] + pack_bits(matrix_bits(s.matrix)) + gradient_bytes(
            s.gradient,
            with_alpha,
        ) + le_u16_bytes(s.focal_point as u16),
        FillStyle::LinearGradient(s) => seq![0x10u8] + pack_bits(matrix_bits(s.matrix))
            + gradient_bytes(s.gradient, with_alpha),
        FillStyle::RadialGradient(s) => seq![0x12u8] + pack_bits(matrix_bits(s.matrix))
            + gradient_bytes(s.gradient, with_alpha),
        FillStyle::Solid(c) => seq![0u8] + color_bytes(c, with_alpha),
    }
}

pub open spec fn join_code(j: JoinStyle) -> u16 {
    match j {
        JoinStyle::Round => 0,
        JoinStyle::Bevel => 1,
        JoinStyle::Miter(_) => 2,
    }
}

pub open spec fn cap_code(c: CapStyle) -> u16 {
    match c {
        CapStyle::Round => 0,
        CapStyle::Flat => 1,
        CapStyle::Square => 2,
    }
}

/// The flags of the second line style form, from bit 0: pixel hinting, no vertical scale, no
/// horizontal scale, has fill, join (2 bits), start cap (2 bits), end cap (2 bits), no close.
pub open spec fn line_style2_flags(l: LineStyle) -> u16 {
    ((if l.pixel_hinting { 1int } else { 0 }) + (if l.no_v_scale { 2int } else { 0 }) + (
    if l.no_h_scale {
        4int
    } else {
        0
    }) + (if !fill_is_solid(l.fill) { 8int } else { 0 }) + 16 * join_code(l.join) + 64 * cap_code(
        l.start_cap,
    ) + 256 * cap_code(l.end_cap) + (if l.no_close { 1024int } else { 0 })) as u16
}

pub open spec fn line_style_bytes(l: LineStyle, version: ShapeVersion) -> Seq<u8> {
    if version.rank() < 4 {
        le_u16_bytes(l.width) + match l.fill {
            FillStyle::Solid(c) => color_bytes(c, version.rank() >= 3),
            _ => Seq::empty(),
        }
    } else {
        le_u16_bytes(l.width) + le_u16_bytes(line_style2_flags(l)) + match l.join {
            JoinStyle::Miter(limit) => le_u16_bytes(limit),
            _ => Seq::empty(),
        } + match l.fill {
            FillStyle::Solid(c) => color_bytes(c, true),
            other => fill_style_bytes(other, true),
        }
    }
}

pub open spec fn fill_styles_bytes(fs: Seq<FillStyle>, with_alpha: bool) -> Seq<u8>
    decreases fs.len(),
{
    if fs.len() == 0 {
        Seq::empty()
    } else {
        fill_styles_bytes(fs.drop_last(), with_alpha) + fill_style_bytes(fs.last(), with_alpha)
    }
}

pub open spec fn line_styles_bytes(ls: Seq<LineStyle>, version: ShapeVersion) -> Seq<u8>
    decreases ls.len(),
{
    if ls.len() == 0 {
        Seq::empty()
    } else {
        line_styles_bytes(ls.drop_last(), version) + line_style_bytes(ls.last(), version)
    }
}

/// The fill list, then the line list, each behind its length.
pub open spec fn styles_bytes(s: ShapeStyles, version: ShapeVersion) -> Seq<u8> {
    list_length_bytes(s.fill@.len(), version.rank() >= 2) + fill_styles_bytes(
        s.fill@,
        version.rank() >= 3,
    ) + list_length_bytes(s.line@.len(), version.rank() >= 2) + line_styles_bytes(s.line@, version)
}

pub fn emit_list_length(writer: &mut Vec<u8>, value: usize, support_extended: bool)
    requires
        value <= (if support_extended { 0xffffnat } else { 0xffnat }),
    ensures
        final(writer)@ == old(writer)@ + list_length_bytes(value as nat, support_extended),
{
    if !support_extended {
        emit_u8(writer, value as u8);
    } else if value < 0xff {
        emit_u8(writer, value as u8);
    } else {
        emit_u8(writer, 0xff);
        emit_le_u16(writer, value as u16);
        proof {
            assert(final(writer)@ =~= old(writer)@ + list_length_bytes(value as nat, support_extended));
        }
    }
}

pub fn emit_fill_style(writer: &mut Vec<u8>, value: &FillStyle, with_alpha: bool)
    requires
        fill_fits(*value, with_alpha),
    ensures
        final(writer)@ == old(writer)@ + fill_style_bytes(*value, with_alpha),
{
    match value {
        FillStyle::Bitmap(style) => {
            let code: u8 = 0x40 + (if !style.repeating { 1u8 } else { 0u8 }) + (if !style.smoothed {
                2u8
            } else {
                0u8
            });
            emit_u8(writer, code);
            emit_le_u16(writer, style.bitmap_id);
            emit_matrix(writer, &style.matrix);
        },
        FillStyle::FocalGradient(style) => {
            emit_u8(writer, 0x13);
            emit_matrix(writer, &style.matrix);
            emit_gradient(writer, &style.gradient, with_alpha);
            emit_le_i16(writer, style.focal_point);
        },
        FillStyle::LinearGradient(style) => {
            emit_u8(writer, 0x10);
            emit_matrix(writer, &style.matrix);
            emit_gradient(writer, &style.gradient, with_alpha);
        },
        FillStyle::RadialGradient(style) => {
            emit_u8(writer, 0x12);
            emit_matrix(writer, &style.matrix);
            emit_gradient(writer, &style.gradient, with_alpha);
        },
        FillStyle::Solid(color) => {
            emit_u8(writer, 0x00);
            emit_color(writer, *color, with_alpha);
        },
    }
    proof {
        assert(final(writer)@ =~= old(writer)@ + fill_style_bytes(*value, with_alpha));
    }
}

pub fn join_style_to_code(value: JoinStyle) -> (r: u16)
    ensures
        r == join_code(value),
{
    match value {
        JoinStyle::Bevel => 1,
        JoinStyle::Round => 0,
        JoinStyle::Miter(_) => 2,
    }
}

pub fn cap_style_to_code(value: CapStyle) -> (r: u16)
    ensures
        r == cap_code(value),
{
    match value {
        CapStyle::Flat => 1,
        CapStyle::Round => 0,
        CapStyle::Square => 2,
    }
}

#[verifier::rlimit(40)]
pub fn emit_line_style(writer: &mut Vec<u8>, value: &LineStyle, version: ShapeVersion)
    requires
        line_fits(*value, version),
    ensures
        final(writer)@ == old(writer)@ + line_style_bytes(*value, version),
{
    emit_le_u16(writer, value.width);
    if version.rank() < 4 {
        match &value.fill {
            FillStyle::Solid(color) => {
                emit_color(writer, *color, version.rank() >= 3);
            },
            _ => {},
        }
    } else {
        let has_fill = match &value.fill {
            FillStyle::Solid(_) => false,
            _ => true,
        };
        let flags: u16 = (if value.pixel_hinting { 1u16 } else { 0u16 }) + (if value.no_v_scale {
            2u16
        } else {
            0u16
        }) + (if value.no_h_scale { 4u16 } else { 0u16 }) + (if has_fill { 8u16 } else { 0u16 }) + 16
            * join_style_to_code(value.join) + 64 * cap_style_to_code(value.start_cap) + 256
            * cap_style_to_code(value.end_cap) + (if value.no_close { 1024u16 } else { 0u16 });
        emit_le_u16(writer, flags);
        match value.join {
            JoinStyle::Miter(limit) => {
                emit_le_u16(writer, limit);
            },
            _ => {},
        }
        match &value.fill {
            FillStyle::Solid(color) => {
                emit_color(writer, *color, true);
            },
            style => {
                emit_fill_style(writer, style, true);
            },
        }
    }
    proof {
        assert(final(writer)@ =~= old(writer)@ + line_style_bytes(*value, version));
    }
}

pub fn emit_fill_style_list(writer: &mut Vec<u8>, value: &Vec<FillStyle>, version: ShapeVersion)
    requires
        value@.len() <= (if version.rank() >= 2 { 0xffffnat } else { 0xffnat }),
        forall|i: int| 0 <= i < value@.len() ==> fill_fits(#[trigger] value@[i], version.rank() >= 3),
    ensures
        final(writer)@ == old(writer)@ + list_length_bytes(value@.len(), version.rank() >= 2)
            + fill_styles_bytes(value@, version.rank() >= 3),
{
    emit_list_length(writer, value.len(), version.rank() >= 2);
    let ghost head = writer@;
    let mut i: usize = 0;
    while i < value.len()
        invariant
            i <= value@.len(),
            forall|j: int| 0 <= j < value@.len() ==> fill_fits(#[trigger] value@[j], version.rank() >= 3),
            head == old(writer)@ + list_length_bytes(value@.len(), version.rank() >= 2),
            writer@ == head + fill_styles_bytes(value@.take(i as int), version.rank() >= 3),
        decreases value@.len() - i,
    {
        emit_fill_style(writer, &value[i], version.rank() >= 3);
        proof {
            assert(value@.take(i + 1).drop_last() =~= value@.take(i as int));
            assert(writer@ =~= head + fill_styles_bytes(value@.take(i + 1), version.rank() >= 3));
        }
        i = i + 1;
    }
    proof {
        assert(value@.take(i as int) =~= value@);
    }
}

pub fn emit_line_style_list(writer: &mut Vec<u8>, value: &Vec<LineStyle>, version: ShapeVersion)
    requires
        value@.len() <= (if version.rank() >= 2 { 0xffffnat } else { 0xffnat }),
        forall|i: int| 0 <= i < value@.len() ==> line_fits(#[trigger] value@[i], version),
    ensures
        final(writer)@ == old(writer)@ + list_length_bytes(value@.len(), version.rank() >= 2)
            + line_styles_bytes(value@, version),
{
    emit_list_length(writer, value.len(), version.rank() >= 2);
    let ghost head = writer@;
    let mut i: usize = 0;
    while i < value.len()
        invariant
            i <= value@.len(),
            forall|j: int| 0 <= j < value@.len() ==> line_fits(#[trigger] value@[j], version),
            head == old(writer)@ + list_length_bytes(value@.len(), version.rank() >= 2),
            writer@ == head + line_styles_bytes(value@.take(i as int), version),
        decreases value@.len() - i,
    {
        emit_line_style(writer, &value[i], version);
        proof {
            assert(value@.take(i + 1).drop_last() =~= value@.take(i as int));
            assert(writer@ =~= head + line_styles_bytes(value@.take(i + 1), version));
        }
        i = i + 1;
    }
    proof {
        assert(value@.take(i as int) =~= value@);
    }
}

#[derive(Clone, Copy, Debug, PartialEq, Eq)]
pub struct Vector2D {
    pub x: i32,
    pub y: i32,
}

/// A straight edge, or a curved one where a control point is given; both relative to the
/// current position.
#[derive(Clone, Copy, Debug, PartialEq, Eq)]
pub struct Edge {
    pub delta: Vector2D,
    pub control_delta: Option<Vector2D>,
}

#[derive(Clone, Debug, PartialEq, Eq)]
pub struct StyleChange {
    pub move_to: Option<Vector2D>,
    pub left_fill: Option<u32>,
    pub right_fill: Option<u32>,
    pub line_style: Option<u32>,
    pub new_styles: Option<ShapeStyles>,
}

#[derive(Clone, Debug, PartialEq, Eq)]
pub enum ShapeRecord {
    Edge(Edge),
    StyleChange(StyleChange),
}

#[derive(Clone, Debug, PartialEq, Eq)]
pub struct Shape {
    pub initial_styles: ShapeStyles,
    pub records: Vec<ShapeRecord>,
}

/// Number of bits for indices into a list of `n` styles, index 0 being "no style".
pub open spec fn style_index_bits(n: nat) -> nat {
    u_bit_count(n as int)
}

/// Bits after `acc` once a style table is written: alignment to the byte, the table's bytes,
/// then the fill and line index widths in four bits each.
pub open spec fn styles_bits_after(acc: Seq<bool>, s: ShapeStyles, version: ShapeVersion) -> Seq<
    bool,
> {
    acc + zero_bits(padding(acc.len())) + bytes_bits(styles_bytes(s, version)) + u32_bits(
        4,
        style_index_bits(s.fill@.len()) as u32,
    ) + u32_bits(4, style_index_bits(s.line@.len()) as u32)
}

/// Width of the values of an edge: what they need, and at least 2.
pub open spec fn edge_width(vs: Seq<i32>) -> nat {
    if i_min_bit_count(vs) < 2 {
        2
    } else {
        i_min_bit_count(vs)
    }
}

/// The bits of an edge after its leading edge flag.
pub open spec fn edge_bits(e: Edge) -> Seq<bool> {
    match e.control_delta {
        Some(c) => {
            let ax = (e.delta.x - c.x) as i32;
            let ay = (e.delta.y - c.y) as i32;
            let n = edge_width(seq![c.x, c.y, ax, ay]);
            seq![false] + u32_bits(4, (n - 2) as u32) + i32_bits(n, c.x) + i32_bits(n, c.y) + i32_bits(
                n,
                ax,
            ) + i32_bits(n, ay)
        },
        None => {
            let n = edge_width(seq![e.delta.x, e.delta.y]);
            let is_diagonal = e.delta.x != 0 && e.delta.y != 0;
            let is_vertical = e.delta.x == 0;
            seq![true] + u32_bits(4, (n - 2) as u32) + seq![is_diagonal] + if is_diagonal {
                i32_bits(n, e.delta.x) + i32_bits(n, e.delta.y)
            } else if is_vertical {
                seq![true] + i32_bits(n, e.delta.y)
            } else {
                seq![false] + i32_bits(n, e.delta.x)
            }
        },
    }
}

/// The five change flags, from bit 0: move, left fill, right fill, line style, new styles.
pub open spec fn style_change_flags(sc: StyleChange) -> u32 {
    ((if sc.move_to.is_some() { 1int } else { 0 }) + (if sc.left_fill.is_some() { 2int } else { 0 })
        + (if sc.right_fill.is_some() { 4int } else { 0 }) + (if sc.line_style.is_some() {
        8int
    } else {
        0
    }) + (if sc.new_styles.is_some() { 16int } else { 0 })) as u32
}

pub open spec fn opt_index_bits(n: nat, v: Option<u32>) -> Seq<bool> {
    match v {
        Some(i) => u32_bits(n, i),
        None => Seq::empty(),
    }
}

/// The flags, the move and the style indices of a style change record.
pub open spec fn style_change_head_bits(sc: StyleChange, fill_bits: nat, line_bits: nat) -> Seq<bool> {
    u32_bits(5, style_change_flags(sc)) + match sc.move_to {
        Some(m) => pair_bits(m.x, m.y),
        None => Seq::empty(),
    } + opt_index_bits(fill_bits, sc.left_fill) + opt_index_bits(fill_bits, sc.right_fill)
        + opt_index_bits(line_bits, sc.line_style)
}

/// Bits after `acc` once a style change record, without its leading flag, is written.
pub open spec fn style_change_bits_after(
    acc: Seq<bool>,
    sc: StyleChange,
    fill_bits: nat,
    line_bits: nat,
    version: ShapeVersion,
) -> Seq<bool> {
    let head = acc + style_change_head_bits(sc, fill_bits, line_bits);
    match sc.new_styles {
        Some(st) => styles_bits_after(head, st, version),
        None => head,
    }
}

pub open spec fn next_fill_bits(sc: StyleChange, fill_bits: nat) -> nat {
    match sc.new_styles {
        Some(st) => style_index_bits(st.fill@.len()),
        None => fill_bits,
    }
}

pub open spec fn next_line_bits(sc: StyleChange, line_bits: nat) -> nat {
    match sc.new_styles {
        Some(st) => style_index_bits(st.line@.len()),
        None => line_bits,
    }
}

/// Bits after `acc` once the records are written, each behind its edge flag, and the six zero
/// bits that end them.
pub open spec fn records_bits_after(
    acc: Seq<bool>,
    rs: Seq<ShapeRecord>,
    fill_bits: nat,
    line_bits: nat,
    version: ShapeVersion,
) -> Seq<bool>
    decreases rs.len(),
{
    if rs.len() == 0 {
        acc + u32_bits(6, 0)
    } else {
        match rs[0] {
            ShapeRecord::Edge(e) => records_bits_after(
                acc + seq![true] + edge_bits(e),
                rs.skip(1),
                fill_bits,
                line_bits,
                version,
            ),
            ShapeRecord::StyleChange(sc) => records_bits_after(
                style_change_bits_after(acc + seq![false], sc, fill_bits, line_bits, version),
                rs.skip(1),
                next_fill_bits(sc, fill_bits),
                next_line_bits(sc, line_bits),
                version,
            ),
        }
    }
}

/// The bits of a shape: its initial style table, then its records.
pub open spec fn shape_bits(s: Shape, version: ShapeVersion) -> Seq<bool> {
    records_bits_after(
        styles_bits_after(Seq::empty(), s.initial_styles, version),
        s.records@,
        style_index_bits(s.initial_styles.fill@.len()),
        style_index_bits(s.initial_styles.line@.len()),
        version,
    )
}

/// The edge's anchor offsets fit in 32 bits.
pub open spec fn edge_fits(e: Edge) -> bool {
    match e.control_delta {
        Some(c) => i32::MIN <= e.delta.x - c.x <= i32::MAX && i32::MIN <= e.delta.y - c.y <= i32::MAX,
        None => true,
    }
}

/// The record can be written with the given version: a style change changes something, and
/// its new styles fit.
pub open spec fn record_fits(r: ShapeRecord, version: ShapeVersion) -> bool {
    match r {
        ShapeRecord::Edge(e) => edge_fits(e),
        ShapeRecord::StyleChange(sc) => {
            &&& style_change_flags(sc) != 0
            &&& match sc.new_styles {
                Some(st) => styles_fit(st, version),
                None => true,
            }
        },
    }
}

pub open spec fn records_fit(rs: Seq<ShapeRecord>, version: ShapeVersion) -> bool {
    forall|i: int| 0 <= i < rs.len() ==> record_fits(#[trigger] rs[i], version)
}

pub open spec fn shape_fits(s: Shape, version: ShapeVersion) -> bool {
    styles_fit(s.initial_styles, version) && records_fit(s.records@, version)
}

/// Writes a style table into the bit stream and returns the fill and line index widths.
pub fn emit_shape_styles_bits(writer: &mut BitsWriter, value: &ShapeStyles, version: ShapeVersion) -> (r: (
    u32,
    u32,
))
    requires
        old(writer).wf(),
        styles_fit(*value, version),
    ensures
        final(writer).wf(),
        final(writer)@ == styles_bits_after(old(writer)@, *value, version),
        r.0 == style_index_bits(value.fill@.len()),
        r.1 == style_index_bits(value.line@.len()),
        r.0 <= 32,
        r.1 <= 32,
{
    let mut bytes: Vec<u8> = Vec::new();
    emit_fill_style_list(&mut bytes, &value.fill, version);
    emit_line_style_list(&mut bytes, &value.line, version);
    proof {
        assert(bytes@ =~= styles_bytes(*value, version));
    }
    writer.write_bytes(bytes.as_slice());
    let fill_bits = get_u32_bit_count(value.fill.len() as u32);
    let line_bits = get_u32_bit_count(value.line.len() as u32);
    writer.write_u32_bits(4, fill_bits);
    writer.write_u32_bits(4, line_bits);
    (fill_bits, line_bits)
}

pub fn emit_edge_bits(writer: &mut BitsWriter, value: &Edge)
    requires
        old(writer).wf(),
        edge_fits(*value),
    ensures
        final(writer).wf(),
        final(writer)@ == old(writer)@ + edge_bits(*value),
{
    match value.control_delta {
        Some(control_delta) => {
            writer.write_bool_bits(false);
            let anchor_x: i32 = value.delta.x - control_delta.x;
            let anchor_y: i32 = value.delta.y - control_delta.y;
            let values: Vec<i32> = vec![control_delta.x, control_delta.y, anchor_x, anchor_y];
            proof {
                assert(values@ =~= seq![control_delta.x, control_delta.y, anchor_x, anchor_y]);
            }
            let min_bits = get_i32_min_bit_count(values.as_slice());
            let bits: u32 = if min_bits < 2 {
                2
            } else {
                min_bits
            };
            writer.write_u32_bits(4, bits - 2);
            writer.write_i32_bits(bits, control_delta.x);
            writer.write_i32_bits(bits, control_delta.y);
            writer.write_i32_bits(bits, anchor_x);
            writer.write_i32_bits(bits, anchor_y);
        },
        None => {
            writer.write_bool_bits(true);
            let values: Vec<i32> = vec![value.delta.x, value.delta.y];
            proof {
                assert(values@ =~= seq![value.delta.x, value.delta.y]);
            }
            let min_bits = get_i32_min_bit_count(values.as_slice());
            let bits: u32 = if min_bits < 2 {
                2
            } else {
                min_bits
            };
            writer.write_u32_bits(4, bits - 2);
            let is_diagonal = value.delta.x != 0 && value.delta.y != 0;
            writer.write_bool_bits(is_diagonal);
            if is_diagonal {
                writer.write_i32_bits(bits, value.delta.x);
                writer.write_i32_bits(bits, value.delta.y);
            } else {
                let is_vertical = value.delta.x == 0;
                writer.write_bool_bits(is_vertical);
                if is_vertical {
                    writer.write_i32_bits(bits, value.delta.y);
                } else {
                    writer.write_i32_bits(bits, value.delta.x);
                }
            }
        },
    }
    proof {
        assert(final(writer)@ =~= old(writer)@ + edge_bits(*value));
    }
}

fn emit_opt_index_bits(writer: &mut BitsWriter, bits: u32, value: Option<u32>)
    requires
        old(writer).wf(),
        bits <= 32,
    ensures
        final(writer).wf(),
        final(writer)@ == old(writer)@ + opt_index_bits(bits as nat, value),
{
    match value {
        Some(index) => {
            writer.write_u32_bits(bits, index);
        },
        None => {
            proof {
                assert(writer@ =~= old(writer)@ + opt_index_bits(bits as nat, value));
            }
        },
    }
}

#[verifier::rlimit(40)]
fn emit_style_change_head_bits(writer: &mut BitsWriter, value: &StyleChange, fill_bits: u32, line_bits: u32)
    requires
        old(writer).wf(),
        fill_bits <= 32,
        line_bits <= 32,
    ensures
        final(writer).wf(),
        final(writer)@ == old(writer)@ + style_change_head_bits(*value, fill_bits as nat, line_bits as nat),
{
    let flags: u32 = (if value.move_to.is_some() { 1u32 } else { 0u32 }) + (if value.left_fill.is_some() {
        2u32
    } else {
        0u32
    }) + (if value.right_fill.is_some() { 4u32 } else { 0u32 }) + (if value.line_style.is_some() {
        8u32
    } else {
        0u32
    }) + (if value.new_styles.is_some() { 16u32 } else { 0u32 });
    writer.write_u32_bits(5, flags);
    let ghost after_flags = writer@;
    match value.move_to {
        Some(move_to) => {
            let values: Vec<i32> = vec![move_to.x, move_to.y];
            proof {
                assert(values@ =~= seq![move_to.x, move_to.y]);
            }
            let bits = get_i32_min_bit_count(values.as_slice());
            writer.write_u32_bits(5, bits);
            writer.write_i32_bits(bits, move_to.x);
            writer.write_i32_bits(bits, move_to.y);
            proof {
                assert(writer@ =~= after_flags + pair_bits(move_to.x, move_to.y));
            }
        },
        None => {},
    }
    emit_opt_index_bits(writer, fill_bits, value.left_fill);
    emit_opt_index_bits(writer, fill_bits, value.right_fill);
    emit_opt_index_bits(writer, line_bits, value.line_style);
    proof {
        assert(final(writer)@ =~= old(writer)@ + style_change_head_bits(
            *value,
            fill_bits as nat,
            line_bits as nat,
        ));
    }
}

/// Writes a style change record without its leading flag, and returns the index widths that
/// hold after it.
pub fn emit_style_change_bits(
    writer: &mut BitsWriter,
    value: &StyleChange,
    fill_bits: u32,
    line_bits: u32,
    version: ShapeVersion,
) -> (r: (u32, u32))
    requires
        old(writer).wf(),
        fill_bits <= 32,
        line_bits <= 32,
        record_fits(ShapeRecord::StyleChange(*value), version),
    ensures
        final(writer).wf(),
        final(writer)@ == style_change_bits_after(
            old(writer)@,
            *value,
            fill_bits as nat,
            line_bits as nat,
            version,
        ),
        r.0 == next_fill_bits(*value, fill_bits as nat),
        r.1 == next_line_bits(*value, line_bits as nat),
        r.0 <= 32,
        r.1 <= 32,
{
    emit_style_change_head_bits(writer, value, fill_bits, line_bits);
    match &value.new_styles {
        Some(new_styles) => emit_shape_styles_bits(writer, new_styles, version),
        None => (fill_bits, line_bits),
    }
}

/// Writes records, each behind its edge flag, and the six zero bits that end them.
pub fn emit_shape_record_string_bits(
    writer: &mut BitsWriter,
    value: &Vec<ShapeRecord>,
    fill_bits: u32,
    line_bits: u32,
    version: ShapeVersion,
)
    requires
        old(writer).wf(),
        fill_bits <= 32,
        line_bits <= 32,
        records_fit(value@, version),
    ensures
        final(writer).wf(),
        final(writer)@ == records_bits_after(
            old(writer)@,
            value@,
            fill_bits as nat,
            line_bits as nat,
            version,
        ),
{
    let ghost initial_fill_bits = fill_bits;
    let ghost initial_line_bits = line_bits;
    let mut fill_bits: u32 = fill_bits;
    let mut line_bits: u32 = line_bits;
    let mut i: usize = 0;
    proof {
        assert(value@.skip(0) =~= value@);
    }
    while i < value.len()
        invariant
            writer.wf(),
            i <= value@.len(),
            fill_bits <= 32,
            line_bits <= 32,
            records_fit(value@, version),
            records_bits_after(writer@, value@.skip(i as int), fill_bits as nat, line_bits as nat, version)
                == records_bits_after(
                old(writer)@,
                value@,
                initial_fill_bits as nat,
                initial_line_bits as nat,
                version,
            ),
        decreases value@.len() - i,
    {
        proof {
            assert(value@.skip(i as int)[0] == value@[i as int]);
            assert(value@.skip(i as int).skip(1) =~= value@.skip(i + 1));
            assert(record_fits(value@[i as int], version));
        }
        let ghost before = writer@;
        let ghost before_fill_bits = fill_bits;
        let ghost before_line_bits = line_bits;
        match &value[i] {
            ShapeRecord::Edge(record) => {
                writer.write_bool_bits(true);
                emit_edge_bits(writer, record);
                proof {
                    assert(writer@ =~= before + seq![true] + edge_bits(*record));
                }
            },
            ShapeRecord::StyleChange(record) => {
                writer.write_bool_bits(false);
                let (next_fill_bits, next_line_bits) = emit_style_change_bits(
                    writer,
                    record,
                    fill_bits,
                    line_bits,
                    version,
                );
                fill_bits = next_fill_bits;
                line_bits = next_line_bits;
                proof {
                    assert(before.push(false) =~= before + seq![false]);
                }
            },
        }
        proof {
            assert(records_bits_after(before, value@.skip(i as int), before_fill_bits as nat, before_line_bits as nat, version)
                == records_bits_after(writer@, value@.skip(i + 1), fill_bits as nat, line_bits as nat, version));
        }
        i = i + 1;
    }
    writer.write_u32_bits(6, 0);
    proof {
        assert(value@.skip(i as int) =~= Seq::<ShapeRecord>::empty());
    }
}

pub fn emit_shape_bits(writer: &mut BitsWriter, value: &Shape, version: ShapeVersion)
    requires
        old(writer).wf(),
        shape_fits(*value, version),
    ensures
        final(writer).wf(),
        final(writer)@ == records_bits_after(
            styles_bits_after(old(writer)@, value.initial_styles, version),
            value.records@,
            style_index_bits(value.initial_styles.fill@.len()),
            style_index_bits(value.initial_styles.line@.len()),
            version,
        ),
{
    let (fill_bits, line_bits) = emit_shape_styles_bits(writer, &value.initial_styles, version);
    emit_shape_record_string_bits(writer, &value.records, fill_bits, line_bits, version);
}

/// Writes a shape, completed to a whole byte.
pub fn emit_shape(writer: &mut Vec<u8>, value: &Shape, version: ShapeVersion)
    requires
        shape_fits(*value, version),
    ensures
        final(writer)@ == old(writer)@ + pack_bits(shape_bits(*value, version)),
{
    let mut bits_writer = BitsWriter::new(Vec::new());
    proof {
        assert(bits_writer@ =~= Seq::<bool>::empty());
    }
    emit_shape_bits(&mut bits_writer, value, version);
    let bytes = bits_writer.into_inner();
    proof {
        lemma_pack_bits_unique(bytes@, shape_bits(*value, version));
    }
    emit_bytes(writer, bytes.as_slice());
}

pub fn get_fill_style_min_shape_version(value: &FillStyle) -> (r: ShapeVersion)
    ensures
        r == fill_style_min_version(*value),
{
    let has_alpha = match value {
        FillStyle::Solid(color) => color.a != 255,
        FillStyle::FocalGradient(style) => gradient_alpha(&style.gradient),
        FillStyle::LinearGradient(style) => gradient_alpha(&style.gradient),
        FillStyle::RadialGradient(style) => gradient_alpha(&style.gradient),
        FillStyle::Bitmap(_) => false,
    };
    if has_alpha {
        ShapeVersion::Shape3
    } else {
        ShapeVersion::Shape1
    }
}

/// Some stop of the gradient has a color that is not opaque.
fn gradient_alpha(value: &Gradient) -> (r: bool)
    ensures
        r == gradient_has_alpha(*value),
{
    let mut i: usize = 0;
    while i < value.colors.len()
        invariant
            i <= value.colors@.len(),
            forall|j: int| 0 <= j < i ==> #[trigger] value.colors@[j].color.a == 255,
        decreases value.colors@.len() - i,
    {
        if value.colors[i].color.a != 255 {
            return true;
        }
        i = i + 1;
    }
    false
}

pub fn get_line_style_min_shape_version(value: &LineStyle) -> (r: ShapeVersion)
    ensures
        r == line_style_min_version(*value),
{
    let is_solid_fill = match &value.fill {
        FillStyle::Solid(_) => true,
        _ => false,
    };
    let is_round_join = match value.join {
        JoinStyle::Round => true,
        _ => false,
    };
    let is_line_style2 = !matches!(value.start_cap, CapStyle::Round) || !matches!(value.end_cap, CapStyle::Round)
        || !is_round_join || value.no_h_scale || value.no_v_scale || value.no_close
        || value.pixel_hinting || !is_solid_fill;
    if is_line_style2 {
        ShapeVersion::Shape4
    } else {
        match &value.fill {
            FillStyle::Solid(color) => if color.a != 255 {
                ShapeVersion::Shape3
            } else {
                ShapeVersion::Shape1
            },
            _ => ShapeVersion::Shape1,
        }
    }
}

pub fn get_fill_style_list_min_shape_version(value: &Vec<FillStyle>) -> (r: ShapeVersion)
    ensures
        r == max_version(list_length_min_version(value@.len()), fill_list_min_version(value@)),
{
    let mut acc = ShapeVersion::Shape1;
    let mut i: usize = 0;
    while i < value.len()
        invariant
            i <= value@.len(),
            acc == fill_list_min_version(value@.take(i as int)),
        decreases value@.len() - i,
    {
        proof {
            assert(value@.take(i + 1).drop_last() =~= value@.take(i as int));
        }
        acc = exec_max_version(acc, get_fill_style_min_shape_version(&value[i]));
        i = i + 1;
    }
    proof {
        assert(value@.take(i as int) =~= value@);
    }
    let length_version = if value.len() < 255 {
        ShapeVersion::Shape1
    } else {
        ShapeVersion::Shape2
    };
    exec_max_version(length_version, acc)
}

pub fn get_line_style_list_min_shape_version(value: &Vec<LineStyle>) -> (r: ShapeVersion)
    ensures
        r == max_version(list_length_min_version(value@.len()), line_list_min_version(value@)),
{
    let mut acc = ShapeVersion::Shape1;
    let mut i: usize = 0;
    while i < value.len()
        invariant
            i <= value@.len(),
            acc == line_list_min_version(value@.take(i as int)),
        decreases value@.len() - i,
    {
        proof {
            assert(value@.take(i + 1).drop_last() =~= value@.take(i as int));
        }
        acc = exec_max_version(acc, get_line_style_min_shape_version(&value[i]));
        i = i + 1;
    }
    proof {
        assert(value@.take(i as int) =~= value@);
    }
    let length_version = if value.len() < 255 {
        ShapeVersion::Shape1
    } else {
        ShapeVersion::Shape2
    };
    exec_max_version(length_version, acc)
}

pub fn get_shape_styles_min_shape_version(value: &ShapeStyles) -> (r: ShapeVersion)
    ensures
        r == styles_min_version(*value),
{
    exec_max_version(
        get_fill_style_list_min_shape_version(&value.fill),
        get_line_style_list_min_shape_version(&value.line),
    )
}

/// The latest version that the new style tables of the records need.
pub open spec fn records_min_version(rs: Seq<ShapeRecord>) -> ShapeVersion
    decreases rs.len(),
{
    if rs.len() == 0 {
        ShapeVersion::Shape1
    } else {
        max_version(
            records_min_version(rs.drop_last()),
            match rs.last() {
                ShapeRecord::StyleChange(sc) => match sc.new_styles {
                    Some(st) => styles_min_version(st),
                    None => ShapeVersion::Shape1,
                },
                ShapeRecord::Edge(_) => ShapeVersion::Shape1,
            },
        )
    }
}

/// The earliest version that can hold every style table of the shape.
pub open spec fn shape_min_version(s: Shape) -> ShapeVersion {
    max_version(styles_min_version(s.initial_styles), records_min_version(s.records@))
}

pub fn get_min_shape_version(value: &Shape) -> (r: ShapeVersion)
    ensures
        r == shape_min_version(*value),
{
    let mut acc = ShapeVersion::Shape1;
    let mut i: usize = 0;
    while i < value.records.len()
        invariant
            i <= value.records@.len(),
            acc == records_min_version(value.records@.take(i as int)),
        decreases value.records@.len() - i,
    {
        proof {
            assert(value.records@.take(i + 1).drop_last() =~= value.records@.take(i as int));
        }
        let record_version = match &value.records[i] {
            ShapeRecord::StyleChange(record) => match &record.new_styles {
                Some(styles) => get_shape_styles_min_shape_version(styles),
                None => ShapeVersion::Shape1,
            },
            ShapeRecord::Edge(_) => ShapeVersion::Shape1,
        };
        acc = exec_max_version(acc, record_version);
        i = i + 1;
    }
    proof {
        assert(value.records@.take(i as int) =~= value.records@);
    }
    exec_max_version(get_shape_styles_min_shape_version(&value.initial_styles), acc)
}

/// The style lists hold at most 0xFFFF entries each and every gradient at most 15 stops.
pub open spec fn styles_valid(st: ShapeStyles) -> bool {
    &&& st.fill@.len() <= 0xffff
    &&& st.line@.len() <= 0xffff
    &&& forall|i: int| 0 <= i < st.fill@.len() ==> fill_fits(#[trigger] st.fill@[i], true)
    &&& forall|i: int| 0 <= i < st.line@.len() ==> fill_fits(#[trigger] st.line@[i].fill, true)
}

/// Edges fit in 32 bits, style changes change something, and new style tables are valid.
pub open spec fn record_valid(r: ShapeRecord) -> bool {
    match r {
        ShapeRecord::Edge(e) => edge_fits(e),
        ShapeRecord::StyleChange(sc) => {
            &&& style_change_flags(sc) != 0
            &&& match sc.new_styles {
                Some(st) => styles_valid(st),
                None => true,
            }
        },
    }
}

/// A shape that some version can hold: its tables are valid, and so are its records.
pub open spec fn shape_valid(s: Shape) -> bool {
    &&& styles_valid(s.initial_styles)
    &&& forall|i: int| 0 <= i < s.records@.len() ==> record_valid(#[trigger] s.records@[i])
}

proof fn lemma_fill_list_min_version(fs: Seq<FillStyle>, i: int)
    requires
        0 <= i < fs.len(),
    ensures
        fill_list_min_version(fs).rank() >= fill_style_min_version(fs[i]).rank(),
    decreases fs.len(),
{
    if i < fs.len() - 1 {
        lemma_fill_list_min_version(fs.drop_last(), i);
    }
}

proof fn lemma_line_list_min_version(ls: Seq<LineStyle>, i: int)
    requires
        0 <= i < ls.len(),
    ensures
        line_list_min_version(ls).rank() >= line_style_min_version(ls[i]).rank(),
    decreases ls.len(),
{
    if i < ls.len() - 1 {
        lemma_line_list_min_version(ls.drop_last(), i);
    }
}

proof fn lemma_records_min_version(rs: Seq<ShapeRecord>, i: int, st: ShapeStyles)
    requires
        0 <= i < rs.len(),
        rs[i] matches ShapeRecord::StyleChange(sc) && sc.new_styles == Some(st),
    ensures
        records_min_version(rs).rank() >= styles_min_version(st).rank(),
    decreases rs.len(),
{
    if i < rs.len() - 1 {
        lemma_records_min_version(rs.drop_last(), i, st);
    }
}

/// A fill that needs no alpha fits the form without alpha.
proof fn lemma_fill_fits(f: FillStyle, version: ShapeVersion)
    requires
        fill_fits(f, true),
        version.rank() >= fill_style_min_version(f).rank(),
    ensures
        fill_fits(f, version.rank() >= 3),
{
    if version.rank() < 3 {
        assert(!fill_has_alpha(f));
        match f {
            FillStyle::FocalGradient(s) => {
                assert forall|i: int| 0 <= i < s.gradient.colors@.len() implies color_fits(
                    #[trigger] s.gradient.colors@[i].color,
                    false,
                ) by {
                    assert(!(s.gradient.colors@[i].color.a != 255));
                }
            },
            FillStyle::LinearGradient(s) => {
                assert forall|i: int| 0 <= i < s.gradient.colors@.len() implies color_fits(
                    #[trigger] s.gradient.colors@[i].color,
                    false,
                ) by {
                    assert(!(s.gradient.colors@[i].color.a != 255));
                }
            },
            FillStyle::RadialGradient(s) => {
                assert forall|i: int| 0 <= i < s.gradient.colors@.len() implies color_fits(
                    #[trigger] s.gradient.colors@[i].color,
                    false,
                ) by {
                    assert(!(s.gradient.colors@[i].color.a != 255));
                }
            },
            _ => {},
        }
    }
}

/// Valid style tables fit every version from the one they need on.
pub proof fn lemma_styles_fit(st: ShapeStyles, version: ShapeVersion)
    requires
        styles_valid(st),
        version.rank() >= styles_min_version(st).rank(),
    ensures
        styles_fit(st, version),
{
    assert forall|i: int| 0 <= i < st.fill@.len() implies fill_fits(
        #[trigger] st.fill@[i],
        version.rank() >= 3,
    ) by {
        lemma_fill_list_min_version(st.fill@, i);
        lemma_fill_fits(st.fill@[i], version);
    }
    assert forall|i: int| 0 <= i < st.line@.len() implies line_fits(#[trigger] st.line@[i], version) by {
        lemma_line_list_min_version(st.line@, i);
        let l = st.line@[i];
        assert(fill_fits(l.fill, true));
    }
}

/// A valid shape fits the version it needs, and every later one.
pub proof fn lemma_shape_fits(s: Shape, version: ShapeVersion)
    requires
        shape_valid(s),
        version.rank() >= shape_min_version(s).rank(),
    ensures
        shape_fits(s, version),
{
    lemma_styles_fit(s.initial_styles, version);
    assert forall|i: int| 0 <= i < s.records@.len() implies record_fits(#[trigger] s.records@[i], version) by {
        assert(record_valid(s.records@[i]));
        match s.records@[i] {
            ShapeRecord::StyleChange(sc) => {
                match sc.new_styles {
                    Some(st) => {
                        lemma_records_min_version(s.records@, i, st);
                        lemma_styles_fit(st, version);
                    },
                    None => {},
                }
            },
            ShapeRecord::Edge(_) => {},
        }
    }
}

/// A style table that the first shape version holds: fewer than 255 fills and lines, every
/// color opaque, and every line in the first line style form.
pub open spec fn styles_are_shape1(st: ShapeStyles) -> bool {
    &&& st.fill@.len() < 255
    &&& st.line@.len() < 255
    &&& forall|i: int| 0 <= i < st.fill@.len() ==> !fill_has_alpha(#[trigger] st.fill@[i])
    &&& forall|i: int|
        0 <= i < st.line@.len() ==> !is_line_style2(#[trigger] st.line@[i]) && !fill_has_alpha(
            st.line@[i].fill,
        )
}

/// Every new style table among the records is one that the first shape version holds.
pub open spec fn records_are_shape1(rs: Seq<ShapeRecord>) -> bool {
    forall|i: int|
        0 <= i < rs.len() ==> (#[trigger] rs[i] matches ShapeRecord::StyleChange(sc) ==> (
        sc.new_styles matches Some(st) ==> styles_are_shape1(st)))
}

proof fn lemma_fill_list_shape1(fs: Seq<FillStyle>)
    requires
        forall|i: int| 0 <= i < fs.len() ==> !fill_has_alpha(#[trigger] fs[i]),
    ensures
        fill_list_min_version(fs) == ShapeVersion::Shape1,
    decreases fs.len(),
{
    if fs.len() > 0 {
        assert(!fill_has_alpha(fs[fs.len() - 1]));
        lemma_fill_list_shape1(fs.drop_last());
    }
}

proof fn lemma_line_list_shape1(ls: Seq<LineStyle>)
    requires
        forall|i: int|
            0 <= i < ls.len() ==> !is_line_style2(#[trigger] ls[i]) && !fill_has_alpha(ls[i].fill),
    ensures
        line_list_min_version(ls) == ShapeVersion::Shape1,
    decreases ls.len(),
{
    if ls.len() > 0 {
        assert(!is_line_style2(ls[ls.len() - 1]));
        lemma_line_list_shape1(ls.drop_last());
    }
}

proof fn lemma_styles_shape1(st: ShapeStyles)
    requires
        styles_are_shape1(st),
    ensures
        styles_min_version(st) == ShapeVersion::Shape1,
{
    lemma_fill_list_shape1(st.fill@);
    lemma_line_list_shape1(st.line@);
}

proof fn lemma_records_shape1(rs: Seq<ShapeRecord>)
    requires
        records_are_shape1(rs),
    ensures
        records_min_version(rs) == ShapeVersion::Shape1,
    decreases rs.len(),
{
    if rs.len() > 0 {
        let last = rs[rs.len() - 1];
        assert(last matches ShapeRecord::StyleChange(sc) ==> (sc.new_styles matches Some(st)
            ==> styles_are_shape1(st)));
        match last {
            ShapeRecord::StyleChange(sc) => match sc.new_styles {
                Some(st) => lemma_styles_shape1(st),
                None => {},
            },
            ShapeRecord::Edge(_) => {},
        }
        assert(rs.drop_last().len() == rs.len() - 1);
        assert forall|i: int| 0 <= i < rs.drop_last().len() implies (#[trigger] rs.drop_last()[i] matches ShapeRecord::StyleChange(sc) ==> (
            sc.new_styles matches Some(st) ==> styles_are_shape1(st))) by {
            assert(rs.drop_last()[i] == rs[i]);
        }
        lemma_records_shape1(rs.drop_last());
    }
}

/// A shape whose every style table the first version holds needs no later version.
pub proof fn lemma_shape_min_version_shape1(s: Shape)
    requires
        styles_are_shape1(s.initial_styles),
        records_are_shape1(s.records@),
    ensures
        shape_min_version(s) == ShapeVersion::Shape1,
{
    lemma_styles_shape1(s.initial_styles);
    lemma_records_shape1(s.records@);
}

} // verus!
