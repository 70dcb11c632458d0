use swf_emitter::basic_data_types::{
    emit_c_string, emit_color_transform, emit_color_transform_with_alpha, emit_leb128_u32, emit_matrix,
    emit_rect, ColorTransform, ColorTransformWithAlpha, Matrix, Rect,
};
use swf_emitter::io_bits::{BitsWriter, WriteBits};
use swf_emitter::primitives::{emit_le_i16, emit_le_i32, emit_le_u16, emit_le_u32, emit_u8};
use swf_emitter::shape::emit_list_length;
use swf_emitter::tags::{emit_end_of_tags, emit_tag_header, TagHeader};

fn leb128(value: u32) -> Vec<u8> {
    let mut out = Vec::new();
    emit_leb128_u32(&mut out, value);
    out
}

fn header(code: u16, length: u32) -> Vec<u8> {
    let mut out = Vec::new();
    emit_tag_header(&mut out, TagHeader { code, length });
    out
}

#[test]
fn leb128_values() {
    assert_eq!(leb128(0), vec![0x00]);
    assert_eq!(leb128(1), vec![0x01]);
    assert_eq!(leb128(127), vec![0x7f]);
    assert_eq!(leb128(128), vec![0x80, 0x01]);
    assert_eq!(leb128(16384), vec![0x80, 0x80, 0x01]);
    assert_eq!(leb128(u32::MAX), vec![0xff, 0xff, 0xff, 0xff, 0x0f]);
}

#[test]
fn empty_rect_is_one_byte() {
    let mut out = Vec::new();
    emit_rect(&mut out, &Rect { x_min: 0, x_max: 0, y_min: 0, y_max: 0 });
    assert_eq!(out, vec![0x00]);
}

#[test]
fn rect_with_values() {
    let mut out = Vec::new();
    emit_rect(&mut out, &Rect { x_min: 0, x_max: 100, y_min: 0, y_max: 20 });
    assert_eq!(out, vec![0x40, 0x03, 0x20, 0x00, 0xa0]);
}

#[test]
fn identity_matrix_is_one_byte() {
    let mut out = Vec::new();
    let identity = Matrix {
        scale_x: 65536,
        scale_y: 65536,
        rotate_skew0: 0,
        rotate_skew1: 0,
        translate_x: 0,
        translate_y: 0,
    };
    emit_matrix(&mut out, &identity);
    assert_eq!(out, vec![0x00]);
}

#[test]
fn translated_matrix() {
    let mut out = Vec::new();
    let m = Matrix { scale_x: 65536, scale_y: 65536, rotate_skew0: 0, rotate_skew1: 0, translate_x: 1, translate_y: -1 };
    emit_matrix(&mut out, &m);
    // 0, 0, width 2 (00010), 01, 11, then padding.
    assert_eq!(out, vec![0b0000_0100, 0b1110_0000]);
}

#[test]
fn identity_color_transform() {
    let mut out = Vec::new();
    let c = ColorTransform { red_mult: 256, green_mult: 256, blue_mult: 256, red_add: 0, green_add: 0, blue_add: 0 };
    emit_color_transform(&mut out, &c);
    assert_eq!(out, vec![0x00]);
}

#[test]
fn color_transform_with_alpha_add() {
    let mut out = Vec::new();
    let c = ColorTransformWithAlpha {
        red_mult: 256,
        green_mult: 256,
        blue_mult: 256,
        alpha_mult: 256,
        red_add: 0,
        green_add: 0,
        blue_add: 0,
        alpha_add: 1,
    };
    emit_color_transform_with_alpha(&mut out, &c);
    // has_add 1, has_mult 0, width 2 (0010), then 00 00 00 01.
    assert_eq!(out, vec![0b1000_1000, 0b0000_0100]);
}

#[test]
fn tag_header_short_form() {
    assert_eq!(header(9, 3), vec![0x43, 0x02]);
    assert_eq!(header(1, 0), vec![0x40, 0x00]);
}

#[test]
fn tag_header_long_form() {
    assert_eq!(header(20, 3), vec![0x3f, 0x05, 0x03, 0x00, 0x00, 0x00]);
    assert_eq!(header(20, 0).len(), 6);
    assert_eq!(header(9, 63), vec![0x7f, 0x02, 0x3f, 0x00, 0x00, 0x00]);
    // A zero first byte would read as the end marker.
    assert_eq!(header(0, 0), vec![0x3f, 0x00, 0x00, 0x00, 0x00, 0x00]);
}

#[test]
fn end_of_tags() {
    let mut out = vec![7];
    emit_end_of_tags(&mut out);
    assert_eq!(out, vec![7, 0, 0]);
}

#[test]
fn c_string() {
    let mut out = Vec::new();
    emit_c_string(&mut out, "hé");
    assert_eq!(out, vec![0x68, 0xc3, 0xa9, 0x00]);
}

#[test]
fn little_endian_integers() {
    let mut out = Vec::new();
    emit_u8(&mut out, 0xab);
    emit_le_u16(&mut out, 0x1234);
    emit_le_u32(&mut out, 0x89abcdef);
    emit_le_i16(&mut out, -2);
    emit_le_i32(&mut out, -2);
    assert_eq!(out, vec![0xab, 0x34, 0x12, 0xef, 0xcd, 0xab, 0x89, 0xfe, 0xff, 0xfe, 0xff, 0xff, 0xff]);
}

#[test]
fn list_lengths() {
    let mut out = Vec::new();
    emit_list_length(&mut out, 254, true);
    emit_list_length(&mut out, 255, true);
    emit_list_length(&mut out, 255, false);
    assert_eq!(out, vec![254, 0xff, 0xff, 0x00, 0xff]);
}

#[test]
fn bits_writer_packs_most_significant_first() {
    let mut w = BitsWriter::new(Vec::new());
    w.write_bool_bits(true);
    w.write_u32_bits(3, 0b010);
    w.write_i32_bits(4, -1);
    w.write_u32_bits(2, 0b11);
    w.write_bytes(&[0xaa]);
    w.write_bool_bits(true);
    assert_eq!(w.into_inner(), vec![0b1010_1111, 0b1100_0000, 0xaa, 0x80]);
}

fn write_through_trait<W: WriteBits>(w: &mut W) {
    w.write_u32_bits(4, 0b1010);
    w.align();
    w.write_i32_bits(8, -128);
}

#[test]
fn bits_writer_through_trait() {
    let mut w = BitsWriter::new(vec![0x01]);
    write_through_trait(&mut w);
    assert_eq!(w.into_inner(), vec![0x01, 0b1010_0000, 0x80]);
}

#[test]
fn leb128_lengths_and_high_bits() {
    for value in [0u32, 1, 127, 128, 16383, 16384, 2097151, 2097152, 268435455, 268435456, u32::MAX] {
        let bytes = leb128(value);
        let bits = 32 - value.leading_zeros() as usize;
        let expected_len = if value == 0 { 1 } else { (bits + 6) / 7 };
        assert_eq!(bytes.len(), expected_len);
        let mut decoded: u64 = 0;
        for (i, byte) in bytes.iter().enumerate() {
            assert_eq!(byte & 0x80 != 0, i + 1 < bytes.len());
            decoded |= ((byte & 0x7f) as u64) << (7 * i);
        }
        assert_eq!(decoded, value as u64);
    }
}
