use vstd::prelude::*;

use crate::basic_data_types::{
    color_transform_with_alpha_bits, emit_color_transform_with_alpha, emit_matrix, matrix_bits,
    ColorTransformWithAlpha, Matrix, FIXED8_ONE,
};
use crate::display::{
    blend_mode_code, emit_blend_mode, emit_filter_list, filter_list_bytes, filter_list_valid, BlendMode,
    Filter,
};
use crate::io_bits::pack_bits;
use crate::primitives::{emit_bytes, emit_le_u16, emit_u8, flag_bit, flag_u16, le_u16_bytes};

verus! {

#[derive(Copy, Clone, Debug, PartialEq, Eq)]
pub enum ButtonVersion {
    Button1,
    Button2,
}

/// A character shown in some states of a button.
#[derive(Clone, Debug, PartialEq, Eq)]
pub struct ButtonRecord {
    pub state_up: bool,
    pub state_over: bool,
    pub state_down: bool,
    pub state_hit_test: bool,
    pub character_id: u16,
    pub depth: u16,
    pub matrix: Matrix,
    pub color_transform: Option<ColorTransformWithAlpha>,
    pub filters: Vec<Filter>,
    pub blend_mode: BlendMode,
}

/// The state transitions, and the key, that run a button action.
#[derive(Clone, Copy, Debug, PartialEq, Eq)]
pub struct ButtonCond {
    pub key_press: Option<u32>,
    pub idle_to_over_up: bool,
    pub over_up_to_idle: bool,
    pub over_up_to_over_down: bool,
    pub over_down_to_over_up: bool,
    pub over_down_to_out_down: bool,
    pub out_down_to_over_down: bool,
    pub out_down_to_idle: bool,
    pub idle_to_over_down: bool,
    pub over_down_to_idle: bool,
}

#[derive(Clone, Debug, PartialEq, Eq)]
pub struct ButtonCondAction {
    pub conditions: Option<ButtonCond>,
    pub actions: Vec<u8>,
}

#[derive(Clone, Debug, PartialEq, Eq)]
pub struct DefineButton {
    pub id: u16,
    pub track_as_menu: bool,
    pub records: Vec<ButtonRecord>,
    pub actions: Vec<ButtonCondAction>,
}

/// Multipliers of 1 and additive terms of 0 on every channel.
pub open spec fn is_identity_transform(c: ColorTransformWithAlpha) -> bool {
    &&& c.red_mult == FIXED8_ONE && c.green_mult == FIXED8_ONE && c.blue_mult == FIXED8_ONE
    &&& c.alpha_mult == FIXED8_ONE
    &&& c.red_add == 0 && c.green_add == 0 && c.blue_add == 0 && c.alpha_add == 0
}

/// The record uses a feature of the second button form: a color transform that changes
/// something, filters, or a blend mode other than normal.
pub open spec fn record_needs_button2(r: ButtonRecord) -> bool {
    ||| (r.color_transform matches Some(c) && !is_identity_transform(c))
    ||| r.filters@.len() != 0
    ||| r.blend_mode != BlendMode::Normal
}

/// The first form holds a button that does not track as a menu, whose records need nothing of
/// the second form, and that has exactly one action, run without conditions.
pub open spec fn button_version(b: DefineButton) -> ButtonVersion {
    if b.track_as_menu || (exists|i: int| 0 <= i < b.records@.len() && record_needs_button2(#[trigger] b.records@[i]))
        || b.actions@.len() != 1 || b.actions@[0].conditions.is_some() {
        ButtonVersion::Button2
    } else {
        ButtonVersion::Button1
    }
}

pub open spec fn button_version_code(v: ButtonVersion) -> u16 {
    match v {
        ButtonVersion::Button1 => 7,
        ButtonVersion::Button2 => 34,
    }
}

fn is_identity(c: &ColorTransformWithAlpha) -> (r: bool)
    ensures
        r == is_identity_transform(*c),
{
    c.red_mult == FIXED8_ONE && c.green_mult == FIXED8_ONE && c.blue_mult == FIXED8_ONE && c.alpha_mult
        == FIXED8_ONE && c.red_add == 0 && c.green_add == 0 && c.blue_add == 0 && c.alpha_add == 0
}

fn is_normal_blend(b: BlendMode) -> (r: bool)
    ensures
        r == (b == BlendMode::Normal),
{
    match b {
        BlendMode::Normal => true,
        _ => false,
    }
}

pub fn get_min_button_version(value: &DefineButton) -> (r: ButtonVersion)
    ensures
        r == button_version(*value),
{
    if value.track_as_menu {
        return ButtonVersion::Button2;
    }
    let mut i: usize = 0;
    while i < value.records.len()
        invariant
            i <= value.records@.len(),
            forall|j: int| 0 <= j < i ==> !record_needs_button2(#[trigger] value.records@[j]),
        decreases value.records@.len() - i,
    {
        let record = &value.records[i];
        let is_default_color_transform = match &record.color_transform {
            None => true,
            Some(transform) => is_identity(transform),
        };
        if !is_default_color_transform || record.filters.len() != 0 || !is_normal_blend(record.blend_mode) {
            proof {
                assert(record_needs_button2(value.records@[i as int]));
            }
            return ButtonVersion::Button2;
        }
        i = i + 1;
    }
    if value.actions.len() != 1 {
        return ButtonVersion::Button2;
    }
    if value.actions[0].conditions.is_some() {
        return ButtonVersion::Button2;
    }
    ButtonVersion::Button1
}

/// From bit 0: up, over, down, hit test, has filters, has blend mode.
pub open spec fn button_record_flags(r: ButtonRecord) -> u8 {
    ((if r.state_up { 1int } else { 0 }) + (if r.state_over { 2int } else { 0 }) + (if r.state_down {
        4int
    } else {
        0
    }) + (if r.state_hit_test { 8int } else { 0 }) + (if r.filters@.len() != 0 { 16int } else { 0 }) + (
    if r.blend_mode != BlendMode::Normal {
        32int
    } else {
        0
    })) as u8
}

/// The flags, character, depth and matrix; in the second form also the color transform, the
/// filters where there are any, and the blend mode where it is not normal.
pub open spec fn button_record_bytes(r: ButtonRecord, version: ButtonVersion) -> Seq<u8> {
    seq![button_record_flags(r)] + le_u16_bytes(r.character_id) + le_u16_bytes(r.depth) + pack_bits(
        matrix_bits(r.matrix),
    ) + if version == ButtonVersion::Button2 {
        pack_bits(color_transform_with_alpha_bits(r.color_transform.unwrap())) + (if r.filters@.len() != 0 {
            filter_list_bytes(r.filters@)
        } else {
            Seq::empty()
        }) + (if r.blend_mode != BlendMode::Normal {
            seq![blend_mode_code(r.blend_mode)]
        } else {
            Seq::empty()
        })
    } else {
        Seq::empty()
    }
}

pub open spec fn button_records_bytes(rs: Seq<ButtonRecord>, version: ButtonVersion) -> Seq<u8>
    decreases rs.len(),
{
    if rs.len() == 0 {
        Seq::empty()
    } else {
        button_records_bytes(rs.drop_last(), version) + button_record_bytes(rs.last(), version)
    }
}

/// The second form needs a color transform, and valid filters.
pub open spec fn button_record_valid(r: ButtonRecord, version: ButtonVersion) -> bool {
    version == ButtonVersion::Button2 ==> r.color_transform.is_some() && filter_list_valid(r.filters@)
}

#[verifier::spinoff_prover]
#[verifier::rlimit(60)]
pub fn emit_button_record(writer: &mut Vec<u8>, value: &ButtonRecord, version: ButtonVersion)
    requires
        button_record_valid(*value, version),
    ensures
        final(writer)@ == old(writer)@ + button_record_bytes(*value, version),
{
    let has_filters = value.filters.len() != 0;
    let has_blend_mode = !is_normal_blend(value.blend_mode);
    let flags: u8 = (if value.state_up { 1u8 } else { 0u8 }) + (if value.state_over { 2u8 } else { 0u8 }) + (
    if value.state_down {
        4u8
    } else {
        0u8
    }) + (if value.state_hit_test { 8u8 } else { 0u8 }) + (if has_filters { 16u8 } else { 0u8 }) + (
    if has_blend_mode {
        32u8
    } else {
        0u8
    });
    emit_u8(writer, flags);
    emit_le_u16(writer, value.character_id);
    emit_le_u16(writer, value.depth);
    emit_matrix(writer, &value.matrix);
    match version {
        ButtonVersion::Button2 => {
            match &value.color_transform {
                Some(color_transform) => emit_color_transform_with_alpha(writer, color_transform),
                None => {},
            }
            let ghost a = writer@;
            if has_filters {
                emit_filter_list(writer, &value.filters);
            }
            if has_blend_mode {
                emit_blend_mode(writer, value.blend_mode);
            }
            proof {
                assert(final(writer)@ =~= old(writer)@ + button_record_bytes(*value, version));
            }
        },
        ButtonVersion::Button1 => {
            proof {
                assert(final(writer)@ =~= old(writer)@ + button_record_bytes(*value, version));
            }
        },
    }
}

/// Writes the records, then a zero byte that ends them.
pub fn emit_button_record_string(writer: &mut Vec<u8>, value: &Vec<ButtonRecord>, version: ButtonVersion)
    requires
        forall|i: int| 0 <= i < value@.len() ==> button_record_valid(#[trigger] value@[i], version),
    ensures
        final(writer)@ == old(writer)@ + button_records_bytes(value@, version) + seq![0u8],
{
    let mut i: usize = 0;
    while i < value.len()
        invariant
            i <= value@.len(),
            forall|j: int| 0 <= j < value@.len() ==> button_record_valid(#[trigger] value@[j], version),
            writer@ == old(writer)@ + button_records_bytes(value@.take(i as int), version),
        decreases value@.len() - i,
    {
        emit_button_record(writer, &value[i], version);
        proof {
            assert(value@.take(i + 1).drop_last() =~= value@.take(i as int));
            assert(writer@ =~= old(writer)@ + button_records_bytes(value@.take(i + 1), version));
        }
        i = i + 1;
    }
    proof {
        assert(value@.take(i as int) =~= value@);
    }
    emit_u8(writer, 0);
}

/// The nine transition flags in bits 0 to 8, and the low seven bits of the key in bits 9 to 15.
pub open spec fn button_cond_flags(c: ButtonCond) -> u16 {
    (button_cond_transition_flags(c) + 512 * match c.key_press {
        Some(k) => k % 128,
        None => 0,
    }) as u16
}

/// From bit 0: idle to over-up, over-up to idle, over-up to over-down, over-down to over-up,
/// over-down to out-down, out-down to over-down, out-down to idle, idle to over-down,
/// over-down to idle.
pub open spec fn button_cond_transition_flags(c: ButtonCond) -> int {
    flag_bit(c.idle_to_over_up, 1) + flag_bit(c.over_up_to_idle, 2) + flag_bit(c.over_up_to_over_down, 4)
        + flag_bit(c.over_down_to_over_up, 8) + flag_bit(c.over_down_to_out_down, 16) + flag_bit(
        c.out_down_to_over_down,
        32,
    ) + flag_bit(c.out_down_to_idle, 64) + flag_bit(c.idle_to_over_down, 128) + flag_bit(
        c.over_down_to_idle,
        256,
    )
}

/// A key code fits in 16 bits.
pub open spec fn button_cond_valid(c: ButtonCond) -> bool {
    match c.key_press {
        Some(k) => k <= u16::MAX,
        None => true,
    }
}

fn button_cond_transitions(value: &ButtonCond) -> (r: u16)
    ensures
        r == button_cond_transition_flags(*value),
        r < 512,
{
    flag_u16(value.idle_to_over_up, 1) + flag_u16(value.over_up_to_idle, 2) + flag_u16(
        value.over_up_to_over_down,
        4,
    ) + flag_u16(value.over_down_to_over_up, 8) + flag_u16(value.over_down_to_out_down, 16) + flag_u16(
        value.out_down_to_over_down,
        32,
    ) + flag_u16(value.out_down_to_idle, 64) + flag_u16(value.idle_to_over_down, 128) + flag_u16(
        value.over_down_to_idle,
        256,
    )
}

pub fn emit_button_cond(writer: &mut Vec<u8>, value: &ButtonCond)
    requires
        button_cond_valid(*value),
    ensures
        final(writer)@ == old(writer)@ + le_u16_bytes(button_cond_flags(*value)),
{
    let key_code: u16 = match value.key_press {
        Some(key_code) => (key_code % 128) as u16,
        None => 0,
    };
    let flags: u16 = button_cond_transitions(value) + 512 * key_code;
    emit_le_u16(writer, flags);
}

/// The conditions, then the actions.
pub open spec fn cond_action_bytes(a: ButtonCondAction) -> Seq<u8> {
    le_u16_bytes(button_cond_flags(a.conditions.unwrap())) + a.actions@
}

/// Each action behind a 16-bit size field: the size of the last action there, 0 for the
/// others.
pub open spec fn cond_action_string_bytes(s: Seq<ButtonCondAction>, total: nat) -> Seq<u8>
    decreases s.len(),
{
    if s.len() == 0 {
        Seq::empty()
    } else {
        cond_action_string_bytes(s.drop_last(), total) + le_u16_bytes(
            if s.len() == total {
                cond_action_bytes(s.last()).len() as u16
            } else {
                0
            },
        ) + cond_action_bytes(s.last())
    }
}

pub open spec fn cond_action_valid(a: ButtonCondAction) -> bool {
    &&& a.conditions matches Some(c) && button_cond_valid(c)
    &&& a.actions@.len() + 2 <= u16::MAX
}

pub fn emit_button2_cond_action(writer: &mut Vec<u8>, value: &ButtonCondAction)
    requires
        cond_action_valid(*value),
    ensures
        final(writer)@ == old(writer)@ + cond_action_bytes(*value),
{
    match &value.conditions {
        Some(conditions) => emit_button_cond(writer, conditions),
        None => {},
    }
    emit_bytes(writer, value.actions.as_slice());
}

pub fn emit_button2_cond_action_string(writer: &mut Vec<u8>, value: &Vec<ButtonCondAction>)
    requires
        forall|i: int| 0 <= i < value@.len() ==> cond_action_valid(#[trigger] value@[i]),
    ensures
        final(writer)@ == old(writer)@ + cond_action_string_bytes(value@, value@.len()),
{
    let mut i: usize = 0;
    while i < value.len()
        invariant
            i <= value@.len(),
            forall|j: int| 0 <= j < value@.len() ==> cond_action_valid(#[trigger] value@[j]),
            writer@ == old(writer)@ + cond_action_string_bytes(value@.take(i as int), value@.len()),
        decreases value@.len() - i,
    {
        let mut action_writer: Vec<u8> = Vec::new();
        emit_button2_cond_action(&mut action_writer, &value[i]);
        proof {
            assert(action_writer@ =~= cond_action_bytes(value@[i as int]));
        }
        if i == value.len() - 1 {
            emit_le_u16(writer, action_writer.len() as u16);
        } else {
            emit_le_u16(writer, 0);
        }
        emit_bytes(writer, action_writer.as_slice());
        proof {
            let t = value@.take(i + 1);
            assert(t.drop_last() =~= value@.take(i as int));
            assert(t.last() == value@[i as int]);
            assert(writer@ =~= old(writer)@ + cond_action_string_bytes(t, value@.len()));
        }
        i = i + 1;
    }
    proof {
        assert(value@.take(i as int) =~= value@);
    }
}

/// The id, then in the first form the records and the one action's bytes; in the second the
/// menu flag, the offset to the actions (0 where there are none), the records and the actions.
pub open spec fn define_button_bytes(b: DefineButton) -> Seq<u8> {
    let version = button_version(b);
    let records = button_records_bytes(b.records@, version) + seq![0u8];
    le_u16_bytes(b.id) + if version == ButtonVersion::Button1 {
        records + b.actions@[0].actions@
    } else if b.actions@.len() == 0 {
        seq![if b.track_as_menu { 1u8 } else { 0u8 }] + le_u16_bytes(0) + records
    } else {
        seq![if b.track_as_menu { 1u8 } else { 0u8 }] + le_u16_bytes((2 + records.len()) as u16) + records
            + cond_action_string_bytes(b.actions@, b.actions@.len())
    }
}

/// Records and actions can be written in the form the button needs, and the offset to the
/// actions fits in 16 bits.
pub open spec fn define_button_valid(b: DefineButton) -> bool {
    &&& forall|i: int| 0 <= i < b.records@.len() ==> button_record_valid(#[trigger] b.records@[i], button_version(b))
    &&& button_version(b) == ButtonVersion::Button2 ==> forall|i: int|
        0 <= i < b.actions@.len() ==> cond_action_valid(#[trigger] b.actions@[i])
    &&& 2 + button_records_bytes(b.records@, button_version(b)).len() + 1 <= u16::MAX
}

#[verifier::spinoff_prover]
#[verifier::rlimit(60)]
pub fn emit_define_button_any(writer: &mut Vec<u8>, value: &DefineButton) -> (r: ButtonVersion)
    requires
        define_button_valid(*value),
    ensures
        r == button_version(*value),
        final(writer)@ == old(writer)@ + define_button_bytes(*value),
{
    emit_le_u16(writer, value.id);
    let version = get_min_button_version(value);
    let mut record_writer: Vec<u8> = Vec::new();
    emit_button_record_string(&mut record_writer, &value.records, version);
    match version {
        ButtonVersion::Button1 => {
            emit_bytes(writer, record_writer.as_slice());
            emit_bytes(writer, value.actions[0].actions.as_slice());
        },
        ButtonVersion::Button2 => {
            emit_u8(writer, if value.track_as_menu { 1 } else { 0 });
            if value.actions.len() == 0 {
                emit_le_u16(writer, 0);
                emit_bytes(writer, record_writer.as_slice());
            } else {
                emit_le_u16(writer, (2 + record_writer.len()) as u16);
                emit_bytes(writer, record_writer.as_slice());
                emit_button2_cond_action_string(writer, &value.actions);
            }
        },
    }
    proof {
        assert(final(writer)@ =~= old(writer)@ + define_button_bytes(*value));
    }
    version
}

} // verus!
