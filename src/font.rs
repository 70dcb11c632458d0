use vstd::prelude::*;

use crate::basic_data_types::{emit_rect, rect_bits, Rect};
use crate::io_bits::{lemma_pack_bits_unique, pack_bits, u32_bits, BitsWriter};
use crate::primitives::{
    emit_bytes, emit_le_i16, emit_le_u16, emit_le_u32, emit_u8, flag_bit, flag_u16, le_u16_bytes, le_u32_bytes,
};
use crate::shape::{emit_shape_record_string_bits, records_bits_after, records_fit, ShapeRecord, ShapeVersion};
use crate::text::{emit_font_name, emit_language_code, font_name_bytes, font_name_valid, language_code, LanguageCode};

verus! {

/// The outline of a glyph: shape records drawn with one fill style and no line style.
#[derive(Clone, Debug, PartialEq, Eq)]
pub struct Glyph {
    pub records: Vec<ShapeRecord>,
}

/// A fill index width of 1 and a line index width of 0, then the records.
pub open spec fn glyph_bits(g: Glyph) -> Seq<bool> {
    records_bits_after(u32_bits(4, 1) + u32_bits(4, 0), g.records@, 1, 0, ShapeVersion::Shape1)
}

pub open spec fn glyph_valid(g: Glyph) -> bool {
    records_fit(g.records@, ShapeVersion::Shape1)
}

pub fn emit_glyph(writer: &mut Vec<u8>, value: &Glyph)
    requires
        glyph_valid(*value),
    ensures
        final(writer)@ == old(writer)@ + pack_bits(glyph_bits(*value)),
{
    let mut bits_writer = BitsWriter::new(Vec::new());
    proof {
        assert(bits_writer@ =~= Seq::<bool>::empty());
    }
    bits_writer.write_u32_bits(4, 1);
    bits_writer.write_u32_bits(4, 0);
    proof {
        assert(bits_writer@ =~= u32_bits(4, 1) + u32_bits(4, 0));
    }
    emit_shape_record_string_bits(&mut bits_writer, &value.records, 1, 0, ShapeVersion::Shape1);
    let bytes = bits_writer.into_inner();
    proof {
        lemma_pack_bits_unique(bytes@, glyph_bits(*value));
    }
    emit_bytes(writer, bytes.as_slice());
}

/// The glyphs, one after the other.
pub open spec fn glyphs_bytes(gs: Seq<Glyph>) -> Seq<u8>
    decreases gs.len(),
{
    if gs.len() == 0 {
        Seq::empty()
    } else {
        glyphs_bytes(gs.drop_last()) + pack_bits(glyph_bits(gs.last()))
    }
}

pub open spec fn glyphs_valid(gs: Seq<Glyph>) -> bool {
    forall|i: int| 0 <= i < gs.len() ==> glyph_valid(#[trigger] gs[i])
}

/// For each glyph, `base` plus the size of the glyphs before it, in 16 bits.
pub open spec fn glyph_start_offsets_bytes(gs: Seq<Glyph>, base: nat) -> Seq<u8>
    decreases gs.len(),
{
    if gs.len() == 0 {
        Seq::empty()
    } else {
        glyph_start_offsets_bytes(gs.drop_last(), base) + le_u16_bytes(
            ((base + glyphs_bytes(gs.drop_last()).len()) % 65536) as u16,
        )
    }
}

/// For each glyph, `base` plus the size of the glyphs up to it, in 16 or 32 bits.
pub open spec fn glyph_end_offsets_bytes(gs: Seq<Glyph>, base: nat, wide: bool) -> Seq<u8>
    decreases gs.len(),
{
    if gs.len() == 0 {
        Seq::empty()
    } else {
        glyph_end_offsets_bytes(gs.drop_last(), base, wide) + if wide {
            le_u32_bytes((base + glyphs_bytes(gs).len()) as u32)
        } else {
            le_u16_bytes((base + glyphs_bytes(gs).len()) as u16)
        }
    }
}

/// The glyphs' bytes, and the end offset of each within them.
fn emit_glyphs(value: &Vec<Glyph>) -> (r: (Vec<u8>, Vec<usize>))
    requires
        glyphs_valid(value@),
    ensures
        r.0@ == glyphs_bytes(value@),
        r.1@.len() == value@.len(),
        forall|i: int| 0 <= i < r.1@.len() ==> #[trigger] r.1@[i] == glyphs_bytes(value@.take(i + 1)).len(),
{
    let mut bytes: Vec<u8> = Vec::new();
    let mut ends: Vec<usize> = Vec::new();
    let mut i: usize = 0;
    while i < value.len()
        invariant
            i <= value@.len(),
            glyphs_valid(value@),
            bytes@ == glyphs_bytes(value@.take(i as int)),
            ends@.len() == i,
            forall|j: int| 0 <= j < i ==> #[trigger] ends@[j] == glyphs_bytes(value@.take(j + 1)).len(),
        decreases value@.len() - i,
    {
        emit_glyph(&mut bytes, &value[i]);
        proof {
            assert(value@.take(i + 1).drop_last() =~= value@.take(i as int));
            assert(bytes@ =~= glyphs_bytes(value@.take(i + 1)));
        }
        ends.push(bytes.len());
        i = i + 1;
    }
    proof {
        assert(value@.take(i as int) =~= value@);
    }
    (bytes, ends)
}

/// A glyph font: the id, then where there are glyphs a table of their start offsets and the
/// glyphs.
#[derive(Clone, Debug, PartialEq, Eq)]
pub struct DefineGlyphFont {
    pub id: u16,
    pub glyphs: Vec<Glyph>,
}

pub open spec fn glyph_font_bytes(t: DefineGlyphFont) -> Seq<u8> {
    le_u16_bytes(t.id) + if t.glyphs@.len() == 0 {
        Seq::empty()
    } else {
        glyph_start_offsets_bytes(t.glyphs@, 2 * t.glyphs@.len()) + glyphs_bytes(t.glyphs@)
    }
}

pub fn emit_define_glyph_font(writer: &mut Vec<u8>, value: &DefineGlyphFont)
    requires
        glyphs_valid(value.glyphs@),
        2 * value.glyphs@.len() <= usize::MAX,
    ensures
        final(writer)@ == old(writer)@ + glyph_font_bytes(*value),
{
    emit_le_u16(writer, value.id);
    if value.glyphs.len() == 0 {
        proof {
            assert(final(writer)@ =~= old(writer)@ + glyph_font_bytes(*value));
        }
        return;
    }
    let first_offset: usize = value.glyphs.len() * 2;
    let mut glyph_writer: Vec<u8> = Vec::new();
    let ghost head = writer@;
    let mut i: usize = 0;
    while i < value.glyphs.len()
        invariant
            i <= value.glyphs@.len(),
            first_offset == 2 * value.glyphs@.len(),
            glyphs_valid(value.glyphs@),
            glyph_writer@ == glyphs_bytes(value.glyphs@.take(i as int)),
            writer@ == head + glyph_start_offsets_bytes(value.glyphs@.take(i as int), first_offset as nat),
        decreases value.glyphs@.len() - i,
    {
        let offset: u16 = ((first_offset as u128 + glyph_writer.len() as u128) % 65536) as u16;
        emit_le_u16(writer, offset);
        emit_glyph(&mut glyph_writer, &value.glyphs[i]);
        proof {
            assert(value.glyphs@.take(i + 1).drop_last() =~= value.glyphs@.take(i as int));
            assert(glyph_writer@ =~= glyphs_bytes(value.glyphs@.take(i + 1)));
            assert(writer@ =~= head + glyph_start_offsets_bytes(value.glyphs@.take(i + 1), first_offset as nat));
        }
        i = i + 1;
    }
    proof {
        assert(value.glyphs@.take(i as int) =~= value.glyphs@);
    }
    emit_bytes(writer, glyph_writer.as_slice());
    proof {
        assert(final(writer)@ =~= old(writer)@ + glyph_font_bytes(*value));
    }
}

#[derive(Clone, Copy, Debug, PartialEq, Eq)]
pub struct KerningRecord {
    pub left: u16,
    pub right: u16,
    pub adjustment: i16,
}

#[derive(Clone, Debug, PartialEq, Eq)]
pub struct FontLayout {
    pub ascent: u16,
    pub descent: u16,
    pub leading: u16,
    pub advances: Vec<u16>,
    pub bounds: Vec<Rect>,
    pub kerning: Vec<KerningRecord>,
}

pub open spec fn u16s_bytes(s: Seq<u16>) -> Seq<u8>
    decreases s.len(),
{
    if s.len() == 0 {
        Seq::empty()
    } else {
        u16s_bytes(s.drop_last()) + le_u16_bytes(s.last())
    }
}

pub open spec fn rects_bytes(s: Seq<Rect>) -> Seq<u8>
    decreases s.len(),
{
    if s.len() == 0 {
        Seq::empty()
    } else {
        rects_bytes(s.drop_last()) + pack_bits(rect_bits(s.last()))
    }
}

pub open spec fn kerning_bytes(s: Seq<KerningRecord>) -> Seq<u8>
    decreases s.len(),
{
    if s.len() == 0 {
        Seq::empty()
    } else {
        kerning_bytes(s.drop_last()) + le_u16_bytes(s.last().left) + le_u16_bytes(s.last().right)
            + le_u16_bytes(s.last().adjustment as u16)
    }
}

/// Ascent, descent and leading, the advances, the bounds, then the count of kerning pairs and
/// the pairs.
pub open spec fn font_layout_bytes(l: FontLayout) -> Seq<u8> {
    le_u16_bytes(l.ascent) + le_u16_bytes(l.descent) + le_u16_bytes(l.leading) + u16s_bytes(l.advances@)
        + rects_bytes(l.bounds@) + le_u16_bytes(l.kerning@.len() as u16) + kerning_bytes(l.kerning@)
}

fn emit_u16s(writer: &mut Vec<u8>, value: &Vec<u16>)
    ensures
        final(writer)@ == old(writer)@ + u16s_bytes(value@),
{
    let mut i: usize = 0;
    while i < value.len()
        invariant
            i <= value@.len(),
            writer@ == old(writer)@ + u16s_bytes(value@.take(i as int)),
        decreases value@.len() - i,
    {
        emit_le_u16(writer, value[i]);
        proof {
            assert(value@.take(i + 1).drop_last() =~= value@.take(i as int));
            assert(writer@ =~= old(writer)@ + u16s_bytes(value@.take(i + 1)));
        }
        i = i + 1;
    }
    proof {
        assert(value@.take(i as int) =~= value@);
    }
}

fn emit_rects(writer: &mut Vec<u8>, value: &Vec<Rect>)
    ensures
        final(writer)@ == old(writer)@ + rects_bytes(value@),
{
    let mut i: usize = 0;
    while i < value.len()
        invariant
            i <= value@.len(),
            writer@ == old(writer)@ + rects_bytes(value@.take(i as int)),
        decreases value@.len() - i,
    {
        emit_rect(writer, &value[i]);
        proof {
            assert(value@.take(i + 1).drop_last() =~= value@.take(i as int));
            assert(writer@ =~= old(writer)@ + rects_bytes(value@.take(i + 1)));
        }
        i = i + 1;
    }
    proof {
        assert(value@.take(i as int) =~= value@);
    }
}

pub fn emit_kerning_record(writer: &mut Vec<u8>, value: &KerningRecord)
    ensures
        final(writer)@ == old(writer)@ + le_u16_bytes(value.left) + le_u16_bytes(value.right) + le_u16_bytes(
            value.adjustment as u16,
        ),
{
    emit_le_u16(writer, value.left);
    emit_le_u16(writer, value.right);
    emit_le_i16(writer, value.adjustment);
    proof {
        assert(final(writer)@ =~= old(writer)@ + le_u16_bytes(value.left) + le_u16_bytes(value.right)
            + le_u16_bytes(value.adjustment as u16));
    }
}

pub fn emit_font_layout(writer: &mut Vec<u8>, value: &FontLayout)
    requires
        value.kerning@.len() <= u16::MAX,
    ensures
        final(writer)@ == old(writer)@ + font_layout_bytes(*value),
{
    emit_le_u16(writer, value.ascent);
    emit_le_u16(writer, value.descent);
    emit_le_u16(writer, value.leading);
    emit_u16s(writer, &value.advances);
    emit_rects(writer, &value.bounds);
    emit_le_u16(writer, value.kerning.len() as u16);
    let ghost head = writer@;
    let mut i: usize = 0;
    while i < value.kerning.len()
        invariant
            i <= value.kerning@.len(),
            writer@ == head + kerning_bytes(value.kerning@.take(i as int)),
        decreases value.kerning@.len() - i,
    {
        emit_kerning_record(writer, &value.kerning[i]);
        proof {
            assert(value.kerning@.take(i + 1).drop_last() =~= value.kerning@.take(i as int));
            assert(writer@ =~= head + kerning_bytes(value.kerning@.take(i + 1)));
        }
        i = i + 1;
    }
    proof {
        assert(value.kerning@.take(i as int) =~= value.kerning@);
        assert(final(writer)@ =~= old(writer)@ + font_layout_bytes(*value));
    }
}

#[derive(Copy, Clone, Debug, PartialEq, Eq)]
pub enum DefineFontVersion {
    Font2,
    Font3,
    Font4,
}

/// The size of the em square that glyph coordinates are given in.
#[derive(Copy, Clone, Debug, PartialEq, Eq)]
pub enum EmSquareSize {
    EmSquareSize1024,
    EmSquareSize20480,
}

#[derive(Clone, Debug, PartialEq, Eq)]
pub struct DefineFont {
    pub id: u16,
    pub font_name: String,
    pub is_bold: bool,
    pub is_italic: bool,
    pub is_ansi: bool,
    pub is_small: bool,
    pub is_shift_jis: bool,
    pub em_square_size: EmSquareSize,
    pub language: LanguageCode,
    pub glyphs: Option<Vec<Glyph>>,
    pub code_units: Option<Vec<u16>>,
    pub layout: Option<FontLayout>,
}

/// Font2 for the 1024 em square, Font3 for the 20480 one.
pub open spec fn define_font_version(t: DefineFont) -> DefineFontVersion {
    match t.em_square_size {
        EmSquareSize::EmSquareSize1024 => DefineFontVersion::Font2,
        EmSquareSize::EmSquareSize20480 => DefineFontVersion::Font3,
    }
}

/// The offsets need 32 bits: with a 16-bit table the last one would pass 0xFFFF.
pub open spec fn uses_wide_offsets(gs: Seq<Glyph>) -> bool {
    2 * (gs.len() + 1) + glyphs_bytes(gs).len() > 0xffff
}

/// The table of glyph offsets, each from the start of the table: the table's own size (the
/// first glyph's start), then each glyph's end; then the glyphs.
pub open spec fn offset_glyphs_bytes(gs: Seq<Glyph>) -> Seq<u8> {
    if uses_wide_offsets(gs) {
        le_u32_bytes((4 * (gs.len() + 1)) as u32) + glyph_end_offsets_bytes(gs, 4 * (gs.len() + 1), true)
            + glyphs_bytes(gs)
    } else {
        le_u16_bytes((2 * (gs.len() + 1)) as u16) + glyph_end_offsets_bytes(gs, 2 * (gs.len() + 1), false)
            + glyphs_bytes(gs)
    }
}

/// The flags, from bit 0: bold, italic, wide codes (always), wide offsets, ANSI, small,
/// Shift-JIS, layout.
pub open spec fn define_font_flags(t: DefineFont) -> u8 {
    (flag_bit(t.is_bold, 1) + flag_bit(t.is_italic, 2) + 4 + flag_bit(
        t.glyphs matches Some(gs) && uses_wide_offsets(gs@),
        8,
    ) + flag_bit(t.is_ansi, 16) + flag_bit(t.is_small, 32) + flag_bit(t.is_shift_jis, 64) + flag_bit(
        t.layout.is_some(),
        128,
    )) as u8
}

/// The id, flags, language and name; then the glyph count, the offset table and glyphs, the
/// code units and the layout if any; or, for a font without glyphs, a zero count.
pub open spec fn define_font_bytes(t: DefineFont) -> Seq<u8> {
    le_u16_bytes(t.id) + seq![define_font_flags(t), language_code(t.language)] + font_name_bytes(
        t.font_name@,
    ) + match t.glyphs {
        Some(gs) => le_u16_bytes(gs@.len() as u16) + offset_glyphs_bytes(gs@) + u16s_bytes(
            t.code_units.unwrap()@,
        ) + match t.layout {
            Some(l) => font_layout_bytes(l),
            None => Seq::empty(),
        },
        None => le_u16_bytes(0),
    }
}

/// Glyphs come with code units, every count and offset fits its field, and the name is valid.
pub open spec fn define_font_valid(t: DefineFont) -> bool {
    &&& font_name_valid(t.font_name@)
    &&& match t.glyphs {
        Some(gs) => {
            &&& t.code_units.is_some()
            &&& gs@.len() <= u16::MAX
            &&& glyphs_valid(gs@)
            &&& 4 * (gs@.len() + 1) + glyphs_bytes(gs@).len() <= u32::MAX
        },
        None => true,
    }
    &&& match t.layout {
        Some(l) => l.kerning@.len() <= u16::MAX,
        None => true,
    }
}

/// Writes the offset table and the glyphs, and tells whether the offsets are 32-bit.
#[verifier::spinoff_prover]
#[verifier::rlimit(60)]
pub fn emit_offset_glyphs(writer: &mut Vec<u8>, value: &Vec<Glyph>) -> (r: bool)
    requires
        glyphs_valid(value@),
        4 * (value@.len() + 1) + glyphs_bytes(value@).len() <= u32::MAX,
    ensures
        r == uses_wide_offsets(value@),
        final(writer)@ == old(writer)@ + offset_glyphs_bytes(value@),
{
    let (glyph_bytes, end_offsets) = emit_glyphs(value);
    let table_len: usize = value.len() + 1;
    let use_wide_offsets = 2 * table_len + glyph_bytes.len() > 0xffff;
    let table_size: usize = if use_wide_offsets {
        4 * table_len
    } else {
        2 * table_len
    };
    if use_wide_offsets {
        emit_le_u32(writer, table_size as u32);
    } else {
        emit_le_u16(writer, table_size as u16);
    }
    let ghost head = writer@;
    let mut i: usize = 0;
    while i < end_offsets.len()
        invariant
            i <= end_offsets@.len(),
            end_offsets@.len() == value@.len(),
            forall|j: int| 0 <= j < end_offsets@.len() ==> #[trigger] end_offsets@[j] == glyphs_bytes(
                value@.take(j + 1),
            ).len(),
            glyph_bytes@ == glyphs_bytes(value@),
            table_size == if use_wide_offsets { 4 * table_len } else { 2 * table_len },
            table_len == value@.len() + 1,
            4 * (value@.len() + 1) + glyphs_bytes(value@).len() <= u32::MAX,
            !use_wide_offsets ==> 2 * table_len + glyph_bytes@.len() <= 0xffff,
            writer@ == head + glyph_end_offsets_bytes(value@.take(i as int), table_size as nat, use_wide_offsets),
        decreases end_offsets@.len() - i,
    {
        proof {
            lemma_glyphs_bytes_prefix(value@, i + 1);
            assert(value@.take(i + 1).drop_last() =~= value@.take(i as int));
        }
        if use_wide_offsets {
            emit_le_u32(writer, (table_size + end_offsets[i]) as u32);
        } else {
            emit_le_u16(writer, (table_size + end_offsets[i]) as u16);
        }
        proof {
            assert(writer@ =~= head + glyph_end_offsets_bytes(value@.take(i + 1), table_size as nat, use_wide_offsets));
        }
        i = i + 1;
    }
    emit_bytes(writer, glyph_bytes.as_slice());
    proof {
        assert(value@.take(i as int) =~= value@);
        assert(final(writer)@ =~= old(writer)@ + offset_glyphs_bytes(value@));
    }
    use_wide_offsets
}

/// The bytes of the first glyphs are no longer than those of all of them.
proof fn lemma_glyphs_bytes_prefix(gs: Seq<Glyph>, n: int)
    requires
        0 <= n <= gs.len(),
    ensures
        glyphs_bytes(gs.take(n)).len() <= glyphs_bytes(gs).len(),
    decreases gs.len(),
{
    if n < gs.len() {
        assert(gs.drop_last().take(n) =~= gs.take(n));
        lemma_glyphs_bytes_prefix(gs.drop_last(), n);
    } else {
        assert(gs.take(n) =~= gs);
    }
}

#[verifier::spinoff_prover]
#[verifier::rlimit(60)]
pub fn emit_define_font_any(writer: &mut Vec<u8>, value: &DefineFont) -> (r: DefineFontVersion)
    requires
        define_font_valid(*value),
    ensures
        r == define_font_version(*value),
        final(writer)@ == old(writer)@ + define_font_bytes(*value),
{
    let version = match value.em_square_size {
        EmSquareSize::EmSquareSize1024 => DefineFontVersion::Font2,
        EmSquareSize::EmSquareSize20480 => DefineFontVersion::Font3,
    };
    emit_le_u16(writer, value.id);
    let mut offset_glyph_writer: Vec<u8> = Vec::new();
    let use_wide_offsets = match &value.glyphs {
        Some(glyphs) => emit_offset_glyphs(&mut offset_glyph_writer, glyphs),
        None => false,
    };
    let flags: u16 = flag_u16(value.is_bold, 1) + flag_u16(value.is_italic, 2) + 4 + flag_u16(use_wide_offsets, 8)
        + flag_u16(value.is_ansi, 16) + flag_u16(value.is_small, 32) + flag_u16(value.is_shift_jis, 64)
        + flag_u16(value.layout.is_some(), 128);
    emit_u8(writer, flags as u8);
    emit_language_code(writer, value.language);
    emit_font_name(writer, &value.font_name);
    let ghost head = writer@;
    match &value.glyphs {
        Some(glyphs) => {
            emit_le_u16(writer, glyphs.len() as u16);
            emit_bytes(writer, offset_glyph_writer.as_slice());
            match &value.code_units {
                Some(code_units) => emit_u16s(writer, code_units),
                None => {},
            }
            match &value.layout {
                Some(layout) => emit_font_layout(writer, layout),
                None => {},
            }
            proof {
                assert(writer@ =~= head + (le_u16_bytes(glyphs@.len() as u16) + offset_glyphs_bytes(glyphs@)
                    + u16s_bytes(value.code_units.unwrap()@) + match value.layout {
                    Some(l) => font_layout_bytes(l),
                    None => Seq::empty(),
                }));
            }
        },
        None => {
            emit_le_u16(writer, 0);
        },
    }
    proof {
        assert(final(writer)@ =~= old(writer)@ + define_font_bytes(*value));
    }
    version
}

} // verus!
