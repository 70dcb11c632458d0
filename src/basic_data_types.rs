use vstd::prelude::*;
use vstd::string::*;

use crate::bit_count::{get_i32_min_bit_count, i_min_bit_count, lemma_u_bit_count_bound, u_bit_count};
use crate::io_bits::{i32_bits, lemma_pack_bits_unique, pack_bits, u32_bits, BitsWriter};
use crate::primitives::{emit_bytes, emit_u8};

verus! {

/// The ULEB128 form of `v`: seven bits per byte, least significant group first, with the high
/// bit set on every byte but the last.
pub open spec fn leb128(v: nat) -> Seq<u8>
    decreases v,
{
    if v < 128 {
        seq![v as u8]
    } else {
        seq![(v % 128 + 128) as u8] + leb128(v / 128)
    }
}

/// The value of ULEB128 bytes: the low seven bits of each byte, least significant group first.
pub open spec fn leb128_value(s: Seq<u8>) -> nat
    decreases s.len(),
{
    if s.len() == 0 {
        0
    } else {
        (s[0] % 128) as nat + 128 * leb128_value(s.skip(1))
    }
}

proof fn lemma_u_bit_count_shift7(v: int)
    requires
        v >= 128,
    ensures
        u_bit_count(v) == 7 + u_bit_count(v / 128),
{
    vstd::arithmetic::div_mod::lemma_div_denominator(v, 2, 2);
    vstd::arithmetic::div_mod::lemma_div_denominator(v, 4, 2);
    vstd::arithmetic::div_mod::lemma_div_denominator(v, 8, 2);
    vstd::arithmetic::div_mod::lemma_div_denominator(v, 16, 2);
    vstd::arithmetic::div_mod::lemma_div_denominator(v, 32, 2);
    vstd::arithmetic::div_mod::lemma_div_denominator(v, 64, 2);
    assert(u_bit_count(v) == 1 + u_bit_count(v / 2));
    assert(u_bit_count(v / 2) == 1 + u_bit_count(v / 4));
    assert(u_bit_count(v / 4) == 1 + u_bit_count(v / 8));
    assert(u_bit_count(v / 8) == 1 + u_bit_count(v / 16));
    assert(u_bit_count(v / 16) == 1 + u_bit_count(v / 32));
    assert(u_bit_count(v / 32) == 1 + u_bit_count(v / 64));
    assert(u_bit_count(v / 64) == 1 + u_bit_count(v / 128));
}

/// ULEB128 of `v` decodes back to `v`; every byte but the last has its high bit set and the
/// last has it clear; and it is as short as it can be: one byte for zero, else one byte per
/// started group of seven bits.
pub proof fn lemma_leb128(v: nat)
    ensures
        leb128_value(leb128(v)) == v,
        forall|i: int| 0 <= i < leb128(v).len() - 1 ==> #[trigger] leb128(v)[i] >= 0x80,
        leb128(v).len() >= 1,
        leb128(v).last() < 0x80,
        leb128(v).len() == (if v == 0 {
            1
        } else {
            (u_bit_count(v as int) + 6) / 7
        }),
    decreases v,
{
    if v < 128 {
        assert(leb128(v).skip(1) =~= Seq::<u8>::empty());
        assert(leb128_value(Seq::<u8>::empty()) == 0);
        assert(leb128(v)[0] == v as u8);
        assert(leb128_value(leb128(v)) == (leb128(v)[0] % 128) as nat + 128 * leb128_value(leb128(v).skip(1)));
        if v > 0 {
            vstd::arithmetic::power2::lemma2_to64();
            lemma_u_bit_count_bound(v as int, 7);
        }
    } else {
        let rest = leb128(v / 128);
        lemma_leb128(v / 128);
        let s = leb128(v);
        assert(s == seq![(v % 128 + 128) as u8] + rest);
        assert(s.skip(1) =~= rest);
        assert(s.last() == rest.last());
        assert forall|i: int| 0 <= i < s.len() - 1 implies #[trigger] s[i] >= 0x80 by {
            if i > 0 {
                assert(s[i] == rest[i - 1]);
            }
        }
        lemma_u_bit_count_shift7(v as int);
        assert(s[0] == (v % 128 + 128) as u8);
        assert(s[0] % 128 == v % 128);
        assert(leb128_value(s) == (s[0] % 128) as nat + 128 * leb128_value(s.skip(1)));
        assert(v == v % 128 + 128 * (v / 128));
    }
}

/// A rectangle in twips.
#[derive(Clone, Copy, Debug, PartialEq, Eq)]
pub struct Rect {
    pub x_min: i32,
    pub x_max: i32,
    pub y_min: i32,
    pub y_max: i32,
}

/// An opaque RGB color.
#[derive(Clone, Copy, Debug, PartialEq, Eq)]
pub struct SRgb8 {
    pub r: u8,
    pub g: u8,
    pub b: u8,
}

/// An RGB color with a straight (not premultiplied) alpha channel.
#[derive(Clone, Copy, Debug, PartialEq, Eq)]
pub struct StraightSRgba8 {
    pub r: u8,
    pub g: u8,
    pub b: u8,
    pub a: u8,
}

/// A 2x3 affine matrix. Scale and rotate/skew are 16.16 fixed-point numbers, held as their
/// count of 1/65536 steps; the translation is in twips.
#[derive(Clone, Copy, Debug, PartialEq, Eq)]
pub struct Matrix {
    pub scale_x: i32,
    pub scale_y: i32,
    pub rotate_skew0: i32,
    pub rotate_skew1: i32,
    pub translate_x: i32,
    pub translate_y: i32,
}

/// The 16.16 fixed-point form of 1.
pub const FIXED16_ONE: i32 = 65536;

/// The 8.8 fixed-point form of 1.
pub const FIXED8_ONE: i16 = 256;

/// A color transform without alpha. Multipliers are 8.8 fixed-point numbers, held as their
/// count of 1/256 steps.
#[derive(Clone, Copy, Debug, PartialEq, Eq)]
pub struct ColorTransform {
    pub red_mult: i16,
    pub green_mult: i16,
    pub blue_mult: i16,
    pub red_add: i16,
    pub green_add: i16,
    pub blue_add: i16,
}

/// A color transform with an alpha channel.
#[derive(Clone, Copy, Debug, PartialEq, Eq)]
pub struct ColorTransformWithAlpha {
    pub red_mult: i16,
    pub green_mult: i16,
    pub blue_mult: i16,
    pub alpha_mult: i16,
    pub red_add: i16,
    pub green_add: i16,
    pub blue_add: i16,
    pub alpha_add: i16,
}

/// A block of two signed values behind a 5-bit width that fits both.
pub open spec fn pair_bits(a: i32, b: i32) -> Seq<bool> {
    let n = i_min_bit_count(seq![a, b]);
    u32_bits(5, n as u32) + i32_bits(n, a) + i32_bits(n, b)
}

/// The bits of a matrix: the scale block only when the scale is not 1 on both axes, the
/// rotate/skew block only when either term is not 0, and the translation block always.
pub open spec fn matrix_bits(m: Matrix) -> Seq<bool> {
    let scale = if m.scale_x == FIXED16_ONE && m.scale_y == FIXED16_ONE {
        seq![false]
    } else {
        seq![true] + pair_bits(m.scale_x, m.scale_y)
    };
    let skew = if m.rotate_skew0 == 0 && m.rotate_skew1 == 0 {
        seq![false]
    } else {
        seq![true] + pair_bits(m.rotate_skew0, m.rotate_skew1)
    };
    scale + skew + pair_bits(m.translate_x, m.translate_y)
}

/// Each value of `vs` in `n` bits, one after the other.
pub open spec fn i32_list_bits(n: nat, vs: Seq<i32>) -> Seq<bool>
    decreases vs.len(),
{
    if vs.len() == 0 {
        Seq::empty()
    } else {
        i32_list_bits(n, vs.drop_last()) + i32_bits(n, vs.last())
    }
}

/// The values that a color transform writes: the multipliers when one is not 1, then the
/// additive terms when one is not 0.
pub open spec fn color_transform_values(c: ColorTransform) -> Seq<i32> {
    let mult = if c.red_mult != FIXED8_ONE || c.green_mult != FIXED8_ONE || c.blue_mult != FIXED8_ONE {
        seq![c.red_mult as i32, c.green_mult as i32, c.blue_mult as i32]
    } else {
        Seq::empty()
    };
    let add = if c.red_add != 0 || c.green_add != 0 || c.blue_add != 0 {
        seq![c.red_add as i32, c.green_add as i32, c.blue_add as i32]
    } else {
        Seq::empty()
    };
    mult + add
}

/// The values that a color transform with alpha writes.
pub open spec fn color_transform_with_alpha_values(c: ColorTransformWithAlpha) -> Seq<i32> {
    let mult = if c.red_mult != FIXED8_ONE || c.green_mult != FIXED8_ONE || c.blue_mult
        != FIXED8_ONE || c.alpha_mult != FIXED8_ONE {
        seq![c.red_mult as i32, c.green_mult as i32, c.blue_mult as i32, c.alpha_mult as i32]
    } else {
        Seq::empty()
    };
    let add = if c.red_add != 0 || c.green_add != 0 || c.blue_add != 0 || c.alpha_add != 0 {
        seq![c.red_add as i32, c.green_add as i32, c.blue_add as i32, c.alpha_add as i32]
    } else {
        Seq::empty()
    };
    mult + add
}

/// The bits of a color transform: the has-add and has-mult flags, a 4-bit width, and the
/// values in that width.
pub open spec fn color_transform_bits(c: ColorTransform) -> Seq<bool> {
    let has_add = c.red_add != 0 || c.green_add != 0 || c.blue_add != 0;
    let has_mult = c.red_mult != FIXED8_ONE || c.green_mult != FIXED8_ONE || c.blue_mult
        != FIXED8_ONE;
    let vs = color_transform_values(c);
    let n = i_min_bit_count(vs);
    seq![has_add, has_mult] + u32_bits(4, n as u32) + i32_list_bits(n, vs)
}

/// The bits of a color transform with alpha.
pub open spec fn color_transform_with_alpha_bits(c: ColorTransformWithAlpha) -> Seq<bool> {
    let has_add = c.red_add != 0 || c.green_add != 0 || c.blue_add != 0 || c.alpha_add != 0;
    let has_mult = c.red_mult != FIXED8_ONE || c.green_mult != FIXED8_ONE || c.blue_mult
        != FIXED8_ONE || c.alpha_mult != FIXED8_ONE;
    let vs = color_transform_with_alpha_values(c);
    let n = i_min_bit_count(vs);
    seq![has_add, has_mult] + u32_bits(4, n as u32) + i32_list_bits(n, vs)
}

/// The bits of a rectangle: a 5-bit width, then the four coordinates in that width.
pub open spec fn rect_bits(r: Rect) -> Seq<bool> {
    let n = i_min_bit_count(seq![r.x_min, r.x_max, r.y_min, r.y_max]);
    u32_bits(5, n as u32) + i32_bits(n, r.x_min) + i32_bits(n, r.x_max) + i32_bits(n, r.y_min)
        + i32_bits(n, r.y_max)
}

/// Writes a null-terminated string.
pub fn emit_c_string(writer: &mut Vec<u8>, value: &str)
    ensures
        final(writer)@ == old(writer)@ + value.spec_bytes() + seq![0u8],
{
    let bytes = value.as_bytes();
    let mut i: usize = 0;
    while i < bytes.len()
        invariant
            i <= bytes@.len(),
            bytes@ == value.spec_bytes(),
            writer@ == old(writer)@ + bytes@.take(i as int),
        decreases bytes@.len() - i,
    {
        writer.push(bytes[i]);
        proof {
            assert(old(writer)@ + bytes@.take(i + 1) =~= (old(writer)@ + bytes@.take(i as int)).push(
                bytes@[i as int],
            ));
        }
        i = i + 1;
    }
    proof {
        assert(bytes@.take(i as int) =~= bytes@);
    }
    writer.push(0);
    proof {
        assert(final(writer)@ =~= old(writer)@ + value.spec_bytes() + seq![0u8]);
    }
}

/// Writes `value` as ULEB128.
pub fn emit_leb128_u32(writer: &mut Vec<u8>, value: u32)
    ensures
        final(writer)@ == old(writer)@ + leb128(value as nat),
{
    if value == 0 {
        emit_u8(writer, 0);
        return;
    }
    let mut rest: u32 = value;
    while rest != 0
        invariant
            rest > 0 ==> old(writer)@ + leb128(value as nat) == writer@ + leb128(rest as nat),
            rest == 0 ==> old(writer)@ + leb128(value as nat) == writer@,
        decreases rest,
    {
        let low: u8 = (rest % 128) as u8;
        let ghost before = writer@;
        let ghost r = rest as nat;
        rest = rest / 128;
        if rest != 0 {
            emit_u8(writer, low + 128);
        } else {
            emit_u8(writer, low);
        }
        proof {
            if r >= 128 {
                assert(leb128(r) == seq![(r % 128 + 128) as u8] + leb128(r / 128));
                assert(before + leb128(r) =~= writer@ + leb128(rest as nat));
            } else {
                assert(before + leb128(r) =~= writer@);
            }
        }
    }
}

pub fn emit_s_rgb8(writer: &mut Vec<u8>, value: SRgb8)
    ensures
        final(writer)@ == old(writer)@ + seq![value.r, value.g, value.b],
{
    emit_u8(writer, value.r);
    emit_u8(writer, value.g);
    emit_u8(writer, value.b);
    proof {
        assert(final(writer)@ =~= old(writer)@ + seq![value.r, value.g, value.b]);
    }
}

pub fn emit_straight_s_rgba8(writer: &mut Vec<u8>, value: StraightSRgba8)
    ensures
        final(writer)@ == old(writer)@ + seq![value.r, value.g, value.b, value.a],
{
    emit_u8(writer, value.r);
    emit_u8(writer, value.g);
    emit_u8(writer, value.b);
    emit_u8(writer, value.a);
    proof {
        assert(final(writer)@ =~= old(writer)@ + seq![value.r, value.g, value.b, value.a]);
    }
}

pub fn emit_rect_bits(writer: &mut BitsWriter, value: &Rect)
    requires
        old(writer).wf(),
    ensures
        final(writer).wf(),
        final(writer)@ == old(writer)@ + rect_bits(*value),
{
    let values: Vec<i32> = vec![value.x_min, value.x_max, value.y_min, value.y_max];
    proof {
        assert(values@ =~= seq![value.x_min, value.x_max, value.y_min, value.y_max]);
    }
    let bits = get_i32_min_bit_count(values.as_slice());
    writer.write_u32_bits(5, bits);
    writer.write_i32_bits(bits, value.x_min);
    writer.write_i32_bits(bits, value.x_max);
    writer.write_i32_bits(bits, value.y_min);
    writer.write_i32_bits(bits, value.y_max);
    proof {
        assert(final(writer)@ =~= old(writer)@ + rect_bits(*value));
    }
}

/// Writes a rectangle, completed to a whole byte.
pub fn emit_rect(writer: &mut Vec<u8>, value: &Rect)
    ensures
        final(writer)@ == old(writer)@ + pack_bits(rect_bits(*value)),
{
    let mut bits_writer = BitsWriter::new(Vec::new());
    proof {
        assert(bits_writer@ =~= Seq::<bool>::empty());
    }
    emit_rect_bits(&mut bits_writer, value);
    let bytes = bits_writer.into_inner();
    proof {
        assert(Seq::<bool>::empty() + rect_bits(*value) =~= rect_bits(*value));
        lemma_pack_bits_unique(bytes@, rect_bits(*value));
    }
    emit_bytes(writer, bytes.as_slice());
}

/// Writes two values behind a 5-bit width that fits both.
fn emit_pair_bits(writer: &mut BitsWriter, a: i32, b: i32)
    requires
        old(writer).wf(),
    ensures
        final(writer).wf(),
        final(writer)@ == old(writer)@ + pair_bits(a, b),
{
    let values: Vec<i32> = vec![a, b];
    proof {
        assert(values@ =~= seq![a, b]);
    }
    let bits = get_i32_min_bit_count(values.as_slice());
    writer.write_u32_bits(5, bits);
    writer.write_i32_bits(bits, a);
    writer.write_i32_bits(bits, b);
    proof {
        assert(final(writer)@ =~= old(writer)@ + pair_bits(a, b));
    }
}

pub fn emit_matrix_bits(writer: &mut BitsWriter, value: &Matrix)
    requires
        old(writer).wf(),
    ensures
        final(writer).wf(),
        final(writer)@ == old(writer)@ + matrix_bits(*value),
{
    if value.scale_x == FIXED16_ONE && value.scale_y == FIXED16_ONE {
        writer.write_bool_bits(false);
    } else {
        writer.write_bool_bits(true);
        emit_pair_bits(writer, value.scale_x, value.scale_y);
    }
    if value.rotate_skew0 == 0 && value.rotate_skew1 == 0 {
        writer.write_bool_bits(false);
    } else {
        writer.write_bool_bits(true);
        emit_pair_bits(writer, value.rotate_skew0, value.rotate_skew1);
    }
    emit_pair_bits(writer, value.translate_x, value.translate_y);
    proof {
        assert(final(writer)@ =~= old(writer)@ + matrix_bits(*value));
    }
}

/// Writes a matrix, completed to a whole byte.
pub fn emit_matrix(writer: &mut Vec<u8>, value: &Matrix)
    ensures
        final(writer)@ == old(writer)@ + pack_bits(matrix_bits(*value)),
{
    let mut bits_writer = BitsWriter::new(Vec::new());
    proof {
        assert(bits_writer@ =~= Seq::<bool>::empty());
    }
    emit_matrix_bits(&mut bits_writer, value);
    let bytes = bits_writer.into_inner();
    proof {
        assert(Seq::<bool>::empty() + matrix_bits(*value) =~= matrix_bits(*value));
        lemma_pack_bits_unique(bytes@, matrix_bits(*value));
    }
    emit_bytes(writer, bytes.as_slice());
}

/// Writes the flags, the shared width and the values of a color transform.
fn emit_color_values_bits(writer: &mut BitsWriter, has_add: bool, has_mult: bool, values: &Vec<i32>)
    requires
        old(writer).wf(),
    ensures
        final(writer).wf(),
        final(writer)@ == old(writer)@ + seq![has_add, has_mult] + u32_bits(
            4,
            i_min_bit_count(values@) as u32,
        ) + i32_list_bits(i_min_bit_count(values@), values@),
{
    let bits = get_i32_min_bit_count(values.as_slice());
    writer.write_bool_bits(has_add);
    writer.write_bool_bits(has_mult);
    writer.write_u32_bits(4, bits);
    let ghost head = writer@;
    let mut i: usize = 0;
    while i < values.len()
        invariant
            writer.wf(),
            i <= values@.len(),
            bits == i_min_bit_count(values@),
            bits <= 32,
            writer@ == head + i32_list_bits(bits as nat, values@.take(i as int)),
        decreases values@.len() - i,
    {
        writer.write_i32_bits(bits, values[i]);
        proof {
            assert(values@.take(i + 1).drop_last() =~= values@.take(i as int));
            assert(head + i32_list_bits(bits as nat, values@.take(i + 1)) =~= head + i32_list_bits(
                bits as nat,
                values@.take(i as int),
            ) + i32_bits(bits as nat, values@[i as int]));
        }
        i = i + 1;
    }
    proof {
        assert(values@.take(i as int) =~= values@);
        assert(final(writer)@ =~= old(writer)@ + seq![has_add, has_mult] + u32_bits(
            4,
            i_min_bit_count(values@) as u32,
        ) + i32_list_bits(i_min_bit_count(values@), values@));
    }
}

pub fn emit_color_transform_bits(writer: &mut BitsWriter, value: &ColorTransform)
    requires
        old(writer).wf(),
    ensures
        final(writer).wf(),
        final(writer)@ == old(writer)@ + color_transform_bits(*value),
{
    let has_add = value.red_add != 0 || value.green_add != 0 || value.blue_add != 0;
    let has_mult = value.red_mult != FIXED8_ONE || value.green_mult != FIXED8_ONE
        || value.blue_mult != FIXED8_ONE;
    let mut values: Vec<i32> = Vec::new();
    if has_mult {
        values.push(value.red_mult as i32);
        values.push(value.green_mult as i32);
        values.push(value.blue_mult as i32);
    }
    if has_add {
        values.push(value.red_add as i32);
        values.push(value.green_add as i32);
        values.push(value.blue_add as i32);
    }
    proof {
        assert(values@ =~= color_transform_values(*value));
    }
    emit_color_values_bits(writer, has_add, has_mult, &values);
}

pub fn emit_color_transform(writer: &mut Vec<u8>, value: &ColorTransform)
    ensures
        final(writer)@ == old(writer)@ + pack_bits(color_transform_bits(*value)),
{
    let mut bits_writer = BitsWriter::new(Vec::new());
    proof {
        assert(bits_writer@ =~= Seq::<bool>::empty());
    }
    emit_color_transform_bits(&mut bits_writer, value);
    let bytes = bits_writer.into_inner();
    proof {
        assert(Seq::<bool>::empty() + color_transform_bits(*value) =~= color_transform_bits(*value));
        lemma_pack_bits_unique(bytes@, color_transform_bits(*value));
    }
    emit_bytes(writer, bytes.as_slice());
}

pub fn emit_color_transform_with_alpha_bits(writer: &mut BitsWriter, value: &ColorTransformWithAlpha)
    requires
        old(writer).wf(),
    ensures
        final(writer).wf(),
        final(writer)@ == old(writer)@ + color_transform_with_alpha_bits(*value),
{
    let has_add = value.red_add != 0 || value.green_add != 0 || value.blue_add != 0
        || value.alpha_add != 0;
    let has_mult = value.red_mult != FIXED8_ONE || value.green_mult != FIXED8_ONE
        || value.blue_mult != FIXED8_ONE || value.alpha_mult != FIXED8_ONE;
    let mut values: Vec<i32> = Vec::new();
    if has_mult {
        values.push(value.red_mult as i32);
        values.push(value.green_mult as i32);
        values.push(value.blue_mult as i32);
        values.push(value.alpha_mult as i32);
    }
    if has_add {
        values.push(value.red_add as i32);
        values.push(value.green_add as i32);
        values.push(value.blue_add as i32);
        values.push(value.alpha_add as i32);
    }
    proof {
        assert(values@ =~= color_transform_with_alpha_values(*value));
    }
    emit_color_values_bits(writer, has_add, has_mult, &values);
}

pub fn emit_color_transform_with_alpha(writer: &mut Vec<u8>, value: &ColorTransformWithAlpha)
    ensures
        final(writer)@ == old(writer)@ + pack_bits(color_transform_with_alpha_bits(*value)),
{
    let mut bits_writer = BitsWriter::new(Vec::new());
    proof {
        assert(bits_writer@ =~= Seq::<bool>::empty());
    }
    emit_color_transform_with_alpha_bits(&mut bits_writer, value);
    let bytes = bits_writer.into_inner();
    proof {
        assert(Seq::<bool>::empty() + color_transform_with_alpha_bits(*value)
            =~= color_transform_with_alpha_bits(*value));
        lemma_pack_bits_unique(bytes@, color_transform_with_alpha_bits(*value));
    }
    emit_bytes(writer, bytes.as_slice());
}

} // verus!
