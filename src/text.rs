use vstd::prelude::*;

use crate::basic_data_types::{
    emit_c_string, emit_matrix, emit_rect, emit_straight_s_rgba8, matrix_bits, rect_bits, Matrix, Rect,
    StraightSRgba8,
};
use crate::tags::c_string_bytes;
use vstd::string::*;
use vstd::utf8::encode_utf8;
use crate::bit_count::{get_i32_bit_count, get_u32_bit_count, i_bit_count, u_bit_count};
use crate::gradient::{color_bytes, color_fits, emit_color};
use crate::io_bits::{i32_bits, lemma_pack_bits_unique, pack_bits, u32_bits, BitsWriter};
use crate::primitives::{emit_bytes, emit_le_i16, emit_le_u16, emit_u8, flag_bit, flag_u16, le_u16_bytes};

verus! {

/// A glyph of a text run: its index in the font and the advance after it.
#[derive(Clone, Copy, Debug, PartialEq, Eq)]
pub struct GlyphEntry {
    pub index: u32,
    pub advance: i32,
}

/// A run of glyphs, with the font, color and offset changes that come before it.
#[derive(Clone, Debug, PartialEq, Eq)]
pub struct TextRecord {
    pub font_id: Option<u16>,
    pub color: Option<StraightSRgba8>,
    pub offset_x: i16,
    pub offset_y: i16,
    pub font_size: Option<u16>,
    pub entries: Vec<GlyphEntry>,
}

#[derive(Clone, Debug, PartialEq, Eq)]
pub struct DefineText {
    pub id: u16,
    pub bounds: Rect,
    pub matrix: Matrix,
    pub records: Vec<TextRecord>,
}

#[derive(Copy, Clone, Debug, PartialEq, Eq)]
pub enum DefineTextVersion {
    Text1,
    Text2,
}

pub open spec fn entries_bits(es: Seq<GlyphEntry>, index_bits: nat, advance_bits: nat) -> Seq<bool>
    decreases es.len(),
{
    if es.len() == 0 {
        Seq::empty()
    } else {
        entries_bits(es.drop_last(), index_bits, advance_bits) + u32_bits(index_bits, es.last().index)
            + i32_bits(advance_bits, es.last().advance)
    }
}

/// The flags of a text record, from bit 0: x offset, y offset, color, font; bit 7 is always set.
pub open spec fn text_record_flags(r: TextRecord) -> u8 {
    (128 + (if r.offset_x != 0 { 1int } else { 0 }) + (if r.offset_y != 0 { 2int } else { 0 }) + (
    if r.color.is_some() {
        4int
    } else {
        0
    }) + (if r.font_id.is_some() { 8int } else { 0 })) as u8
}

/// The flags, then each change that is present.
pub open spec fn text_record_head_bytes(r: TextRecord, with_alpha: bool) -> Seq<u8> {
    seq![text_record_flags(r)] + (match r.font_id {
        Some(id) => le_u16_bytes(id),
        None => Seq::empty(),
    }) + (match r.color {
        Some(c) => color_bytes(c, with_alpha),
        None => Seq::empty(),
    }) + (if r.offset_x != 0 {
        le_u16_bytes(r.offset_x as u16)
    } else {
        Seq::empty()
    }) + (if r.offset_y != 0 {
        le_u16_bytes(r.offset_y as u16)
    } else {
        Seq::empty()
    }) + (match r.font_size {
        Some(s) => le_u16_bytes(s),
        None => Seq::empty(),
    })
}

/// The head, the glyph count, then the glyphs bit-packed.
pub open spec fn text_record_bytes(r: TextRecord, index_bits: nat, advance_bits: nat, with_alpha: bool) -> Seq<u8> {
    text_record_head_bytes(r, with_alpha) + seq![r.entries@.len() as u8] + pack_bits(
        entries_bits(r.entries@, index_bits, advance_bits),
    )
}

/// A font and a size come together, the color fits, and at most 255 glyphs.
pub open spec fn text_record_valid(r: TextRecord, with_alpha: bool) -> bool {
    &&& r.font_id.is_some() == r.font_size.is_some()
    &&& r.entries@.len() <= 255
    &&& match r.color {
        Some(c) => color_fits(c, with_alpha),
        None => true,
    }
}

pub open spec fn text_records_bytes(
    rs: Seq<TextRecord>,
    index_bits: nat,
    advance_bits: nat,
    with_alpha: bool,
) -> Seq<u8>
    decreases rs.len(),
{
    if rs.len() == 0 {
        Seq::empty()
    } else {
        text_records_bytes(rs.drop_last(), index_bits, advance_bits, with_alpha) + text_record_bytes(
            rs.last(),
            index_bits,
            advance_bits,
            with_alpha,
        )
    }
}

fn emit_entries_bits(writer: &mut BitsWriter, value: &Vec<GlyphEntry>, index_bits: u32, advance_bits: u32)
    requires
        old(writer).wf(),
        index_bits <= 32,
        advance_bits <= 32,
    ensures
        final(writer).wf(),
        final(writer)@ == old(writer)@ + entries_bits(value@, index_bits as nat, advance_bits as nat),
{
    let mut i: usize = 0;
    while i < value.len()
        invariant
            writer.wf(),
            i <= value@.len(),
            index_bits <= 32,
            advance_bits <= 32,
            writer@ == old(writer)@ + entries_bits(value@.take(i as int), index_bits as nat, advance_bits as nat),
        decreases value@.len() - i,
    {
        let entry = value[i];
        writer.write_u32_bits(index_bits, entry.index);
        writer.write_i32_bits(advance_bits, entry.advance);
        proof {
            assert(value@.take(i + 1).drop_last() =~= value@.take(i as int));
            assert(writer@ =~= old(writer)@ + entries_bits(value@.take(i + 1), index_bits as nat, advance_bits as nat));
        }
        i = i + 1;
    }
    proof {
        assert(value@.take(i as int) =~= value@);
    }
}

#[verifier::spinoff_prover]
#[verifier::rlimit(60)]
fn emit_text_record_head(writer: &mut Vec<u8>, value: &TextRecord, with_alpha: bool)
    requires
        text_record_valid(*value, with_alpha),
    ensures
        final(writer)@ == old(writer)@ + text_record_head_bytes(*value, with_alpha),
{
    let flags: u8 = 128 + (if value.offset_x != 0 { 1u8 } else { 0u8 }) + (if value.offset_y != 0 {
        2u8
    } else {
        0u8
    }) + (if value.color.is_some() { 4u8 } else { 0u8 }) + (if value.font_id.is_some() {
        8u8
    } else {
        0u8
    });
    emit_u8(writer, flags);
    let ghost after_flags = writer@;
    if let Some(font_id) = value.font_id {
        emit_le_u16(writer, font_id);
    }
    if let Some(color) = value.color {
        emit_color(writer, color, with_alpha);
    }
    if value.offset_x != 0 {
        emit_le_i16(writer, value.offset_x);
    }
    if value.offset_y != 0 {
        emit_le_i16(writer, value.offset_y);
    }
    let ghost after_y = writer@;
    if let Some(font_size) = value.font_size {
        emit_le_u16(writer, font_size);
    }
    proof {
        assert(after_flags == old(writer)@ + seq![text_record_flags(*value)]);
        assert(after_y =~= after_flags + (match value.font_id {
            Some(id) => le_u16_bytes(id),
            None => Seq::empty(),
        }) + (match value.color {
            Some(c) => color_bytes(c, with_alpha),
            None => Seq::empty(),
        }) + (if value.offset_x != 0 {
            le_u16_bytes(value.offset_x as u16)
        } else {
            Seq::empty()
        }) + (if value.offset_y != 0 {
            le_u16_bytes(value.offset_y as u16)
        } else {
            Seq::empty()
        }));
        assert(final(writer)@ =~= old(writer)@ + text_record_head_bytes(*value, with_alpha));
    }
}

#[verifier::spinoff_prover]
#[verifier::rlimit(60)]
pub fn emit_text_record(
    writer: &mut Vec<u8>,
    value: &TextRecord,
    index_bits: u32,
    advance_bits: u32,
    with_alpha: bool,
)
    requires
        text_record_valid(*value, with_alpha),
        index_bits <= 32,
        advance_bits <= 32,
    ensures
        final(writer)@ == old(writer)@ + text_record_bytes(
            *value,
            index_bits as nat,
            advance_bits as nat,
            with_alpha,
        ),
{
    emit_text_record_head(writer, value, with_alpha);
    emit_u8(writer, value.entries.len() as u8);
    let mut bits_writer = BitsWriter::new(Vec::new());
    proof {
        assert(bits_writer@ =~= Seq::<bool>::empty());
    }
    emit_entries_bits(&mut bits_writer, &value.entries, index_bits, advance_bits);
    let bytes = bits_writer.into_inner();
    proof {
        assert(Seq::<bool>::empty() + entries_bits(value.entries@, index_bits as nat, advance_bits as nat)
            =~= entries_bits(value.entries@, index_bits as nat, advance_bits as nat));
        lemma_pack_bits_unique(bytes@, entries_bits(value.entries@, index_bits as nat, advance_bits as nat));
    }
    emit_bytes(writer, bytes.as_slice());
    proof {
        assert(final(writer)@ =~= old(writer)@ + text_record_bytes(
            *value,
            index_bits as nat,
            advance_bits as nat,
            with_alpha,
        ));
    }
}

/// Writes the records, then a zero byte that ends them.
pub fn emit_text_record_string(
    writer: &mut Vec<u8>,
    value: &Vec<TextRecord>,
    index_bits: u32,
    advance_bits: u32,
    with_alpha: bool,
)
    requires
        forall|i: int| 0 <= i < value@.len() ==> text_record_valid(#[trigger] value@[i], with_alpha),
        index_bits <= 32,
        advance_bits <= 32,
    ensures
        final(writer)@ == old(writer)@ + text_records_bytes(
            value@,
            index_bits as nat,
            advance_bits as nat,
            with_alpha,
        ) + seq![0u8],
{
    let mut i: usize = 0;
    while i < value.len()
        invariant
            i <= value@.len(),
            index_bits <= 32,
            advance_bits <= 32,
            forall|j: int| 0 <= j < value@.len() ==> text_record_valid(#[trigger] value@[j], with_alpha),
            writer@ == old(writer)@ + text_records_bytes(
                value@.take(i as int),
                index_bits as nat,
                advance_bits as nat,
                with_alpha,
            ),
        decreases value@.len() - i,
    {
        emit_text_record(writer, &value[i], index_bits, advance_bits, with_alpha);
        proof {
            assert(value@.take(i + 1).drop_last() =~= value@.take(i as int));
            assert(writer@ =~= old(writer)@ + text_records_bytes(
                value@.take(i + 1),
                index_bits as nat,
                advance_bits as nat,
                with_alpha,
            ));
        }
        i = i + 1;
    }
    proof {
        assert(value@.take(i as int) =~= value@);
    }
    emit_u8(writer, 0);
}

pub open spec fn max_nat(a: nat, b: nat) -> nat {
    if a >= b {
        a
    } else {
        b
    }
}

/// The widest glyph index among the entries.
pub open spec fn entries_index_bits(es: Seq<GlyphEntry>) -> nat
    decreases es.len(),
{
    if es.len() == 0 {
        0
    } else {
        max_nat(entries_index_bits(es.drop_last()), u_bit_count(es.last().index as int))
    }
}

/// The widest advance among the entries.
pub open spec fn entries_advance_bits(es: Seq<GlyphEntry>) -> nat
    decreases es.len(),
{
    if es.len() == 0 {
        0
    } else {
        max_nat(entries_advance_bits(es.drop_last()), i_bit_count(es.last().advance as int))
    }
}

pub open spec fn records_index_bits(rs: Seq<TextRecord>) -> nat
    decreases rs.len(),
{
    if rs.len() == 0 {
        0
    } else {
        max_nat(records_index_bits(rs.drop_last()), entries_index_bits(rs.last().entries@))
    }
}

pub open spec fn records_advance_bits(rs: Seq<TextRecord>) -> nat
    decreases rs.len(),
{
    if rs.len() == 0 {
        0
    } else {
        max_nat(records_advance_bits(rs.drop_last()), entries_advance_bits(rs.last().entries@))
    }
}

/// The record sets a color that is not opaque.
pub open spec fn record_has_alpha(r: TextRecord) -> bool {
    match r.color {
        Some(c) => c.a != 255,
        None => false,
    }
}

/// Some record sets a color that is not opaque.
pub open spec fn records_have_alpha(rs: Seq<TextRecord>) -> bool {
    exists|i: int| 0 <= i < rs.len() && record_has_alpha(#[trigger] rs[i])
}

pub open spec fn define_text_version(t: DefineText) -> DefineTextVersion {
    if records_have_alpha(t.records@) {
        DefineTextVersion::Text2
    } else {
        DefineTextVersion::Text1
    }
}

/// The id, bounds and matrix, the glyph index and advance widths, then the records.
pub open spec fn define_text_bytes(t: DefineText) -> Seq<u8> {
    le_u16_bytes(t.id) + pack_bits(rect_bits(t.bounds)) + pack_bits(matrix_bits(t.matrix)) + seq![
        records_index_bits(t.records@) as u8,
        records_advance_bits(t.records@) as u8,
    ] + text_records_bytes(
        t.records@,
        records_index_bits(t.records@),
        records_advance_bits(t.records@),
        records_have_alpha(t.records@),
    ) + seq![0u8]
}

/// Each record pairs a font with a size and holds at most 255 glyphs.
pub open spec fn define_text_valid(t: DefineText) -> bool {
    forall|i: int|
        0 <= i < t.records@.len() ==> (#[trigger] t.records@[i]).font_id.is_some()
            == t.records@[i].font_size.is_some() && t.records@[i].entries@.len() <= 255
}

fn entries_widths(value: &Vec<GlyphEntry>) -> (r: (u32, u32))
    ensures
        r.0 == entries_index_bits(value@),
        r.1 == entries_advance_bits(value@),
        r.0 <= 32,
        r.1 <= 32,
{
    let mut index_bits: u32 = 0;
    let mut advance_bits: u32 = 0;
    let mut i: usize = 0;
    while i < value.len()
        invariant
            i <= value@.len(),
            index_bits == entries_index_bits(value@.take(i as int)),
            advance_bits == entries_advance_bits(value@.take(i as int)),
            index_bits <= 32,
            advance_bits <= 32,
        decreases value@.len() - i,
    {
        proof {
            assert(value@.take(i + 1).drop_last() =~= value@.take(i as int));
        }
        let n = get_u32_bit_count(value[i].index);
        if n > index_bits {
            index_bits = n;
        }
        let m = get_i32_bit_count(value[i].advance);
        if m > advance_bits {
            advance_bits = m;
        }
        i = i + 1;
    }
    proof {
        assert(value@.take(i as int) =~= value@);
    }
    (index_bits, advance_bits)
}

#[verifier::spinoff_prover]
#[verifier::rlimit(60)]
pub fn emit_define_text_any(writer: &mut Vec<u8>, value: &DefineText) -> (r: DefineTextVersion)
    requires
        define_text_valid(*value),
    ensures
        r == define_text_version(*value),
        final(writer)@ == old(writer)@ + define_text_bytes(*value),
{
    emit_le_u16(writer, value.id);
    emit_rect(writer, &value.bounds);
    emit_matrix(writer, &value.matrix);
    let mut index_bits: u32 = 0;
    let mut advance_bits: u32 = 0;
    let mut has_alpha = false;
    let mut i: usize = 0;
    while i < value.records.len()
        invariant
            i <= value.records@.len(),
            index_bits == records_index_bits(value.records@.take(i as int)),
            advance_bits == records_advance_bits(value.records@.take(i as int)),
            has_alpha == records_have_alpha(value.records@.take(i as int)),
            index_bits <= 32,
            advance_bits <= 32,
        decreases value.records@.len() - i,
    {
        let ghost rs = value.records@.take(i + 1);
        proof {
            assert(rs.drop_last() =~= value.records@.take(i as int));
            if records_have_alpha(value.records@.take(i as int)) {
                let j = choose|j: int|
                    0 <= j < i && record_has_alpha(#[trigger] value.records@.take(i as int)[j]);
                assert(rs[j] == value.records@.take(i as int)[j]);
            }
        }
        let record = &value.records[i];
        if let Some(color) = record.color {
            if color.a != 255 {
                has_alpha = true;
            }
        }
        let (n, m) = entries_widths(&record.entries);
        if n > index_bits {
            index_bits = n;
        }
        if m > advance_bits {
            advance_bits = m;
        }
        proof {
            assert(rs[i as int] == value.records@[i as int]);
            if has_alpha && !records_have_alpha(value.records@.take(i as int)) {
                assert(record_has_alpha(rs[i as int]));
            }
            if records_have_alpha(rs) {
                let j = choose|j: int| 0 <= j < rs.len() && record_has_alpha(#[trigger] rs[j]);
                if j < i {
                    assert(value.records@.take(i as int)[j] == rs[j]);
                }
            }
        }
        i = i + 1;
    }
    proof {
        assert(value.records@.take(i as int) =~= value.records@);
        assert forall|j: int| 0 <= j < value.records@.len() implies text_record_valid(
            #[trigger] value.records@[j],
            has_alpha,
        ) by {
            if !has_alpha && record_has_alpha(value.records@[j]) {
                assert(records_have_alpha(value.records@));
            }
        }
    }
    emit_u8(writer, index_bits as u8);
    emit_u8(writer, advance_bits as u8);
    emit_text_record_string(writer, &value.records, index_bits, advance_bits, has_alpha);
    proof {
        assert(final(writer)@ =~= old(writer)@ + define_text_bytes(*value));
    }
    if has_alpha {
        DefineTextVersion::Text2
    } else {
        DefineTextVersion::Text1
    }
}

#[derive(Clone, Copy, Debug, PartialEq, Eq)]
pub enum TextAlignment {
    Left,
    Right,
    Center,
    Justify,
}

pub open spec fn text_alignment_code(a: TextAlignment) -> u8 {
    match a {
        TextAlignment::Left => 0,
        TextAlignment::Right => 1,
        TextAlignment::Center => 2,
        TextAlignment::Justify => 3,
    }
}

pub fn emit_text_alignment(writer: &mut Vec<u8>, value: TextAlignment)
    ensures
        final(writer)@ == old(writer)@.push(text_alignment_code(value)),
{
    let code: u8 = match value {
        TextAlignment::Center => 2,
        TextAlignment::Justify => 3,
        TextAlignment::Left => 0,
        TextAlignment::Right => 1,
    };
    emit_u8(writer, code);
}

#[derive(Clone, Copy, Debug, PartialEq, Eq)]
pub enum LanguageCode {
    Auto,
    Latin,
    Japanese,
    Korean,
    SimplifiedChinese,
    TraditionalChinese,
}

pub open spec fn language_code(l: LanguageCode) -> u8 {
    match l {
        LanguageCode::Auto => 0,
        LanguageCode::Latin => 1,
        LanguageCode::Japanese => 2,
        LanguageCode::Korean => 3,
        LanguageCode::SimplifiedChinese => 4,
        LanguageCode::TraditionalChinese => 5,
    }
}

pub fn emit_language_code(writer: &mut Vec<u8>, value: LanguageCode)
    ensures
        final(writer)@ == old(writer)@.push(language_code(value)),
{
    let code: u8 = match value {
        LanguageCode::Auto => 0,
        LanguageCode::Latin => 1,
        LanguageCode::Japanese => 2,
        LanguageCode::Korean => 3,
        LanguageCode::SimplifiedChinese => 4,
        LanguageCode::TraditionalChinese => 5,
    };
    emit_u8(writer, code);
}

/// An editable or dynamic text field.
#[derive(Clone, Debug, PartialEq, Eq)]
pub struct DefineDynamicText {
    pub id: u16,
    pub bounds: Rect,
    pub word_wrap: bool,
    pub multiline: bool,
    pub password: bool,
    pub readonly: bool,
    pub auto_size: bool,
    pub no_select: bool,
    pub border: bool,
    pub was_static: bool,
    pub html: bool,
    pub use_glyph_font: bool,
    pub font_id: Option<u16>,
    pub font_class: Option<String>,
    pub font_size: Option<u16>,
    pub color: Option<StraightSRgba8>,
    pub max_length: Option<u16>,
    pub align: TextAlignment,
    pub margin_left: u16,
    pub margin_right: u16,
    pub indent: u16,
    pub leading: i16,
    pub variable_name: Option<String>,
    pub text: Option<String>,
}

/// The layout block is written when any layout field differs from its default.
pub open spec fn dynamic_text_has_layout(t: DefineDynamicText) -> bool {
    t.align != TextAlignment::Left || t.margin_left != 0 || t.margin_right != 0 || t.indent != 0
        || t.leading != 0
}


/// The sixteen flags of a text field, from bit 0: font, max length, color, read-only,
/// password, multiline, word wrap, text, glyph font, HTML, was static, border, no select,
/// layout, auto size, font class.
pub open spec fn dynamic_text_flags(t: DefineDynamicText) -> u16 {
    (flag_bit(t.font_id.is_some() && t.font_size.is_some(), 1) + flag_bit(t.max_length.is_some(), 2)
        + flag_bit(t.color.is_some(), 4) + flag_bit(t.readonly, 8) + flag_bit(t.password, 16) + flag_bit(
        t.multiline,
        32,
    ) + flag_bit(t.word_wrap, 64) + flag_bit(t.text.is_some(), 128) + flag_bit(t.use_glyph_font, 256)
        + flag_bit(t.html, 512) + flag_bit(t.was_static, 1024) + flag_bit(t.border, 2048) + flag_bit(
        t.no_select,
        4096,
    ) + flag_bit(dynamic_text_has_layout(t), 8192) + flag_bit(t.auto_size, 16384) + flag_bit(
        t.font_class.is_some() && t.font_size.is_some(),
        32768,
    )) as u16
}

pub open spec fn opt_u16(o: Option<u16>) -> Seq<u8> {
    match o {
        Some(v) => le_u16_bytes(v),
        None => Seq::empty(),
    }
}

pub open spec fn opt_string(o: Option<String>) -> Seq<u8> {
    match o {
        Some(v) => c_string_bytes(v@),
        None => Seq::empty(),
    }
}

pub open spec fn dynamic_text_layout_bytes(t: DefineDynamicText) -> Seq<u8> {
    if dynamic_text_has_layout(t) {
        seq![text_alignment_code(t.align)] + le_u16_bytes(t.margin_left) + le_u16_bytes(t.margin_right)
            + le_u16_bytes(t.indent) + le_u16_bytes(t.leading as u16)
    } else {
        Seq::empty()
    }
}

/// The id, bounds and flags, each optional field that is present, the layout where it is not
/// the default, the variable name (empty where absent), then the initial text.
pub open spec fn dynamic_text_bytes(t: DefineDynamicText) -> Seq<u8> {
    dynamic_text_head_bytes(t) + dynamic_text_tail_bytes(t)
}

/// From the id to the maximum length.
pub open spec fn dynamic_text_head_bytes(t: DefineDynamicText) -> Seq<u8> {
    le_u16_bytes(t.id) + pack_bits(rect_bits(t.bounds)) + le_u16_bytes(dynamic_text_flags(t)) + opt_u16(
        t.font_id,
    ) + opt_string(t.font_class) + opt_u16(t.font_size) + (match t.color {
        Some(c) => seq![c.r, c.g, c.b, c.a],
        None => Seq::empty(),
    }) + opt_u16(t.max_length)
}

/// From the layout to the initial text.
pub open spec fn dynamic_text_tail_bytes(t: DefineDynamicText) -> Seq<u8> {
    dynamic_text_layout_bytes(t) + (match t.variable_name {
        Some(v) => c_string_bytes(v@),
        None => seq![0u8],
    }) + opt_string(t.text)
}

/// A font id or class comes with a size, and a size with one of them.
pub open spec fn dynamic_text_valid(t: DefineDynamicText) -> bool {
    &&& t.font_id.is_some() ==> t.font_size.is_some()
    &&& t.font_class.is_some() ==> t.font_size.is_some()
    &&& t.font_size.is_some() ==> t.font_id.is_some() || t.font_class.is_some()
}


fn emit_opt_u16(writer: &mut Vec<u8>, value: Option<u16>)
    ensures
        final(writer)@ == old(writer)@ + opt_u16(value),
{
    if let Some(v) = value {
        emit_le_u16(writer, v);
    } else {
        proof {
            assert(writer@ =~= old(writer)@ + opt_u16(value));
        }
    }
}

fn emit_opt_string(writer: &mut Vec<u8>, value: &Option<String>)
    ensures
        final(writer)@ == old(writer)@ + opt_string(*value),
{
    if let Some(v) = value {
        emit_c_string(writer, v.as_str());
        proof {
            assert(writer@ =~= old(writer)@ + opt_string(*value));
        }
    } else {
        proof {
            assert(writer@ =~= old(writer)@ + opt_string(*value));
        }
    }
}

fn dynamic_text_flags_of(value: &DefineDynamicText, has_layout: bool) -> (r: u16)
    requires
        has_layout == dynamic_text_has_layout(*value),
    ensures
        r == dynamic_text_flags(*value),
{
    flag_u16(value.font_id.is_some() && value.font_size.is_some(), 1) + flag_u16(value.max_length.is_some(), 2)
        + flag_u16(value.color.is_some(), 4) + flag_u16(value.readonly, 8) + flag_u16(value.password, 16) + flag_u16(
        value.multiline,
        32,
    ) + flag_u16(value.word_wrap, 64) + flag_u16(value.text.is_some(), 128) + flag_u16(value.use_glyph_font, 256)
        + flag_u16(value.html, 512) + flag_u16(value.was_static, 1024) + flag_u16(value.border, 2048) + flag_u16(
        value.no_select,
        4096,
    ) + flag_u16(has_layout, 8192) + flag_u16(value.auto_size, 16384) + flag_u16(
        value.font_class.is_some() && value.font_size.is_some(),
        32768,
    )
}

fn emit_dynamic_text_layout(writer: &mut Vec<u8>, value: &DefineDynamicText, has_layout: bool)
    requires
        has_layout == dynamic_text_has_layout(*value),
    ensures
        final(writer)@ == old(writer)@ + dynamic_text_layout_bytes(*value),
{
    if has_layout {
        emit_text_alignment(writer, value.align);
        emit_le_u16(writer, value.margin_left);
        emit_le_u16(writer, value.margin_right);
        emit_le_u16(writer, value.indent);
        emit_le_i16(writer, value.leading);
    }
    proof {
        assert(final(writer)@ =~= old(writer)@ + dynamic_text_layout_bytes(*value));
    }
}

#[verifier::spinoff_prover]
#[verifier::rlimit(60)]
fn emit_dynamic_text_head(writer: &mut Vec<u8>, value: &DefineDynamicText, has_layout: bool)
    requires
        has_layout == dynamic_text_has_layout(*value),
    ensures
        final(writer)@ == old(writer)@ + dynamic_text_head_bytes(*value),
{
    emit_le_u16(writer, value.id);
    emit_rect(writer, &value.bounds);
    emit_le_u16(writer, dynamic_text_flags_of(value, has_layout));
    let ghost a = writer@;
    emit_opt_u16(writer, value.font_id);
    emit_opt_string(writer, &value.font_class);
    emit_opt_u16(writer, value.font_size);
    let ghost b = writer@;
    if let Some(color) = value.color {
        emit_straight_s_rgba8(writer, color);
    }
    emit_opt_u16(writer, value.max_length);
    proof {
        assert(b =~= a + opt_u16(value.font_id) + opt_string(value.font_class) + opt_u16(value.font_size));
        assert(final(writer)@ =~= old(writer)@ + dynamic_text_head_bytes(*value));
    }
}

#[verifier::spinoff_prover]
#[verifier::rlimit(60)]
fn emit_dynamic_text_tail(writer: &mut Vec<u8>, value: &DefineDynamicText, has_layout: bool)
    requires
        has_layout == dynamic_text_has_layout(*value),
    ensures
        final(writer)@ == old(writer)@ + dynamic_text_tail_bytes(*value),
{
    emit_dynamic_text_layout(writer, value, has_layout);
    let ghost d = writer@;
    match &value.variable_name {
        Some(name) => {
            emit_c_string(writer, name.as_str());
        },
        None => {
            emit_c_string(writer, "");
            proof {
                assert(encode_utf8(""@) =~= Seq::<u8>::empty()) by {
                    reveal_strlit("");
                    assert(""@ =~= Seq::<char>::empty());
                }
            }
        },
    }
    let ghost e = writer@;
    emit_opt_string(writer, &value.text);
    proof {
        assert(e =~= d + match value.variable_name {
            Some(v) => c_string_bytes(v@),
            None => seq![0u8],
        });
        assert(final(writer)@ =~= old(writer)@ + dynamic_text_tail_bytes(*value));
    }
}

pub fn emit_define_dynamic_text(writer: &mut Vec<u8>, value: &DefineDynamicText)
    requires
        dynamic_text_valid(*value),
    ensures
        final(writer)@ == old(writer)@ + dynamic_text_bytes(*value),
{
    let is_left = match value.align {
        TextAlignment::Left => true,
        _ => false,
    };
    let has_layout = !is_left || value.margin_left != 0 || value.margin_right != 0 || value.indent != 0
        || value.leading != 0;
    emit_dynamic_text_head(writer, value, has_layout);
    emit_dynamic_text_tail(writer, value, has_layout);
    proof {
        assert(final(writer)@ =~= old(writer)@ + dynamic_text_bytes(*value));
    }
}

#[derive(Copy, Clone, Debug, PartialEq, Eq)]
pub enum DefineFontInfoVersion {
    FontInfo1,
    FontInfo2,
}

/// The names and code units of a font's glyphs.
#[derive(Clone, Debug, PartialEq, Eq)]
pub struct DefineFontInfo {
    pub font_id: u16,
    pub font_name: String,
    pub is_small: bool,
    pub is_shift_jis: bool,
    pub is_ansi: bool,
    pub is_italic: bool,
    pub is_bold: bool,
    pub language: LanguageCode,
    pub code_units: Vec<u16>,
}

/// The second form carries a language; the first does not.
pub open spec fn font_info_version(t: DefineFontInfo) -> DefineFontInfoVersion {
    if t.language == LanguageCode::Auto {
        DefineFontInfoVersion::FontInfo1
    } else {
        DefineFontInfoVersion::FontInfo2
    }
}

/// Code units take 16 bits in the second form, or where one does not fit in a byte.
pub open spec fn font_info_wide_codes(t: DefineFontInfo) -> bool {
    font_info_version(t) == DefineFontInfoVersion::FontInfo2 || exists|i: int|
        0 <= i < t.code_units@.len() && #[trigger] t.code_units@[i] >= 256
}

pub open spec fn code_units_bytes(cs: Seq<u16>, wide: bool) -> Seq<u8>
    decreases cs.len(),
{
    if cs.len() == 0 {
        Seq::empty()
    } else {
        code_units_bytes(cs.drop_last(), wide) + if wide {
            le_u16_bytes(cs.last())
        } else {
            seq![cs.last() as u8]
        }
    }
}

/// A font name: its length with the terminating zero, then the null-terminated name.
pub open spec fn font_name_bytes(name: Seq<char>) -> Seq<u8> {
    seq![(encode_utf8(name).len() + 1) as u8] + c_string_bytes(name)
}

/// The name holds no zero character and fits, with its terminator, in 255 bytes.
pub open spec fn font_name_valid(name: Seq<char>) -> bool {
    &&& encode_utf8(name).len() + 1 <= 255
    &&& forall|i: int| 0 <= i < name.len() ==> #[trigger] name[i] != '\0'
}

/// The flags of font info, from bit 0: wide codes, bold, italic, ANSI, Shift-JIS, small.
pub open spec fn font_info_flags(t: DefineFontInfo) -> u8 {
    (flag_bit(font_info_wide_codes(t), 1) + flag_bit(t.is_bold, 2) + flag_bit(t.is_italic, 4) + flag_bit(
        t.is_ansi,
        8,
    ) + flag_bit(t.is_shift_jis, 16) + flag_bit(t.is_small, 32)) as u8
}

pub open spec fn font_info_bytes(t: DefineFontInfo) -> Seq<u8> {
    le_u16_bytes(t.font_id) + font_name_bytes(t.font_name@) + seq![font_info_flags(t)] + (
    if font_info_version(t) == DefineFontInfoVersion::FontInfo2 {
        seq![language_code(t.language)]
    } else {
        Seq::empty()
    }) + code_units_bytes(t.code_units@, font_info_wide_codes(t))
}

/// Writes a font name: its length with the terminator, then the null-terminated name.
pub fn emit_font_name(writer: &mut Vec<u8>, value: &String)
    requires
        font_name_valid(value@),
    ensures
        final(writer)@ == old(writer)@ + font_name_bytes(value@),
{
    let name = value.as_str();
    let len = name.as_bytes().len();
    emit_u8(writer, (len + 1) as u8);
    emit_c_string(writer, name);
    proof {
        assert(final(writer)@ =~= old(writer)@ + font_name_bytes(value@));
    }
}

fn font_info_flags_of(value: &DefineFontInfo, use_wide_codes: bool) -> (r: u8)
    requires
        use_wide_codes == font_info_wide_codes(*value),
    ensures
        r == font_info_flags(*value),
{
    (flag_u16(use_wide_codes, 1) + flag_u16(value.is_bold, 2) + flag_u16(value.is_italic, 4) + flag_u16(value.is_ansi, 8)
        + flag_u16(value.is_shift_jis, 16) + flag_u16(value.is_small, 32)) as u8
}

#[verifier::spinoff_prover]
#[verifier::rlimit(60)]
pub fn emit_define_font_info_any(writer: &mut Vec<u8>, value: &DefineFontInfo) -> (r: DefineFontInfoVersion)
    requires
        font_name_valid(value.font_name@),
    ensures
        r == font_info_version(*value),
        final(writer)@ == old(writer)@ + font_info_bytes(*value),
{
    let version = match value.language {
        LanguageCode::Auto => DefineFontInfoVersion::FontInfo1,
        _ => DefineFontInfoVersion::FontInfo2,
    };
    emit_le_u16(writer, value.font_id);
    emit_font_name(writer, &value.font_name);
    let is_font_info2 = match version {
        DefineFontInfoVersion::FontInfo2 => true,
        _ => false,
    };
    let mut use_wide_codes = is_font_info2;
    let mut i: usize = 0;
    while i < value.code_units.len()
        invariant
            i <= value.code_units@.len(),
            is_font_info2 == (font_info_version(*value) == DefineFontInfoVersion::FontInfo2),
            use_wide_codes == (is_font_info2 || exists|j: int|
                0 <= j < i && #[trigger] value.code_units@[j] >= 256),
        decreases value.code_units@.len() - i,
    {
        if value.code_units[i] >= 256 {
            use_wide_codes = true;
        }
        i = i + 1;
    }
    emit_u8(writer, font_info_flags_of(value, use_wide_codes));
    if is_font_info2 {
        emit_language_code(writer, value.language);
    }
    let ghost head = writer@;
    let mut i: usize = 0;
    while i < value.code_units.len()
        invariant
            i <= value.code_units@.len(),
            use_wide_codes == font_info_wide_codes(*value),
            use_wide_codes || forall|j: int| 0 <= j < value.code_units@.len() ==> #[trigger] value.code_units@[j] < 256,
            writer@ == head + code_units_bytes(value.code_units@.take(i as int), use_wide_codes),
        decreases value.code_units@.len() - i,
    {
        let code_unit = value.code_units[i];
        if use_wide_codes {
            emit_le_u16(writer, code_unit);
        } else {
            emit_u8(writer, code_unit as u8);
        }
        proof {
            assert(value.code_units@.take(i + 1).drop_last() =~= value.code_units@.take(i as int));
            assert(writer@ =~= head + code_units_bytes(value.code_units@.take(i + 1), use_wide_codes));
        }
        i = i + 1;
    }
    proof {
        assert(value.code_units@.take(i as int) =~= value.code_units@);
        assert(final(writer)@ =~= old(writer)@ + font_info_bytes(*value));
    }
    version
}

#[derive(Clone, Debug, PartialEq, Eq)]
pub struct DefineFontName {
    pub font_id: u16,
    pub name: String,
    pub copyright: String,
}

pub fn emit_define_font_name(writer: &mut Vec<u8>, value: &DefineFontName)
    ensures
        final(writer)@ == old(writer)@ + le_u16_bytes(value.font_id) + c_string_bytes(value.name@)
            + c_string_bytes(value.copyright@),
{
    emit_le_u16(writer, value.font_id);
    emit_c_string(writer, value.name.as_str());
    emit_c_string(writer, value.copyright.as_str());
    proof {
        assert(final(writer)@ =~= old(writer)@ + le_u16_bytes(value.font_id) + c_string_bytes(value.name@)
            + c_string_bytes(value.copyright@));
    }
}

} // verus!
