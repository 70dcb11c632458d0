use vstd::prelude::*;

use crate::basic_data_types::{emit_straight_s_rgba8, StraightSRgba8};
use crate::primitives::{emit_bytes, emit_le_i16, emit_le_u16, emit_le_u32, emit_u8, le_u16_bytes, le_u32_bytes};

verus! {

#[derive(Clone, Copy, Debug, PartialEq, Eq)]
pub enum BlendMode {
    Normal,
    Layer,
    Multiply,
    Screen,
    Lighten,
    Darken,
    Difference,
    Add,
    Subtract,
    Invert,
    Alpha,
    Erase,
    Overlay,
    Hardlight,
}

pub open spec fn blend_mode_code(b: BlendMode) -> u8 {
    match b {
        BlendMode::Normal => 0,
        BlendMode::Layer => 2,
        BlendMode::Multiply => 3,
        BlendMode::Screen => 4,
        BlendMode::Lighten => 5,
        BlendMode::Darken => 6,
        BlendMode::Difference => 7,
        BlendMode::Add => 8,
        BlendMode::Subtract => 9,
        BlendMode::Invert => 10,
        BlendMode::Alpha => 11,
        BlendMode::Erase => 12,
        BlendMode::Overlay => 13,
        BlendMode::Hardlight => 14,
    }
}

pub fn emit_blend_mode(writer: &mut Vec<u8>, value: BlendMode)
    ensures
        final(writer)@ == old(writer)@.push(blend_mode_code(value)),
{
    let code: u8 = match value {
        BlendMode::Normal => 0,
        BlendMode::Layer => 2,
        BlendMode::Multiply => 3,
        BlendMode::Screen => 4,
        BlendMode::Lighten => 5,
        BlendMode::Darken => 6,
        BlendMode::Difference => 7,
        BlendMode::Add => 8,
        BlendMode::Subtract => 9,
        BlendMode::Invert => 10,
        BlendMode::Alpha => 11,
        BlendMode::Erase => 12,
        BlendMode::Overlay => 13,
        BlendMode::Hardlight => 14,
    };
    emit_u8(writer, code);
}

/// A blur filter. Blur sizes are 16.16 fixed-point numbers, held as their count of 1/65536
/// steps; `passes` is under 32.
#[derive(Clone, Copy, Debug, PartialEq, Eq)]
pub struct BlurFilter {
    pub blur_x: i32,
    pub blur_y: i32,
    pub passes: u8,
}

/// A glow filter; the strength is an 8.8 fixed-point number.
#[derive(Clone, Copy, Debug, PartialEq, Eq)]
pub struct GlowFilter {
    pub color: StraightSRgba8,
    pub blur_x: i32,
    pub blur_y: i32,
    pub strength: i16,
    pub inner: bool,
    pub knockout: bool,
    pub composite_source: bool,
    pub passes: u8,
}

/// A drop shadow filter; angle and distance are 16.16 fixed-point numbers.
#[derive(Clone, Copy, Debug, PartialEq, Eq)]
pub struct DropShadowFilter {
    pub color: StraightSRgba8,
    pub blur_x: i32,
    pub blur_y: i32,
    pub angle: i32,
    pub distance: i32,
    pub strength: i16,
    pub inner: bool,
    pub knockout: bool,
    pub composite_source: bool,
    pub passes: u8,
}

/// A bevel filter; blur, angle and distance are 16.16 fixed-point numbers, the strength 8.8;
/// `passes` is under 16.
#[derive(Clone, Copy, Debug, PartialEq, Eq)]
pub struct BevelFilter {
    pub shadow_color: StraightSRgba8,
    pub highlight_color: StraightSRgba8,
    pub blur_x: i32,
    pub blur_y: i32,
    pub angle: i32,
    pub distance: i32,
    pub strength: i16,
    pub inner: bool,
    pub knockout: bool,
    pub composite_source: bool,
    pub on_top: bool,
    pub passes: u8,
}

/// A gradient stop of a gradient filter.
#[derive(Clone, Copy, Debug, PartialEq, Eq)]
pub struct FilterColorStop {
    pub ratio: u8,
    pub color: StraightSRgba8,
}

/// A gradient glow or gradient bevel filter.
#[derive(Clone, Debug, PartialEq, Eq)]
pub struct GradientFilter {
    pub gradient: Vec<FilterColorStop>,
    pub blur_x: i32,
    pub blur_y: i32,
    pub angle: i32,
    pub distance: i32,
    pub strength: i16,
    pub inner: bool,
    pub knockout: bool,
    pub composite_source: bool,
    pub on_top: bool,
    pub passes: u8,
}

#[derive(Clone, Debug, PartialEq, Eq)]
pub enum Filter {
    DropShadow(DropShadowFilter),
    Blur(BlurFilter),
    Glow(GlowFilter),
    Bevel(BevelFilter),
    GradientGlow(GradientFilter),
    GradientBevel(GradientFilter),
}

/// The flag byte of a bevel or gradient filter: inner, knockout, composite source and on top
/// from bit 7 down, then the passes in bits 0 to 3.
pub open spec fn bevel_flags(inner: bool, knockout: bool, composite_source: bool, on_top: bool, passes: u8) -> u8 {
    ((if inner { 128int } else { 0 }) + (if knockout { 64int } else { 0 }) + (if composite_source {
        32int
    } else {
        0
    }) + (if on_top { 16int } else { 0 }) + passes) as u8
}

pub open spec fn filter_stop_colors_bytes(s: Seq<FilterColorStop>) -> Seq<u8>
    decreases s.len(),
{
    if s.len() == 0 {
        Seq::empty()
    } else {
        filter_stop_colors_bytes(s.drop_last()) + color_rgba_bytes(s.last().color)
    }
}

pub open spec fn filter_stop_ratios_bytes(s: Seq<FilterColorStop>) -> Seq<u8>
    decreases s.len(),
{
    if s.len() == 0 {
        Seq::empty()
    } else {
        filter_stop_ratios_bytes(s.drop_last()) + seq![s.last().ratio]
    }
}

/// The stop count, every color, every ratio, then the blur, angle, distance, strength and
/// flags.
pub open spec fn gradient_filter_bytes(g: GradientFilter) -> Seq<u8> {
    seq![g.gradient@.len() as u8] + filter_stop_colors_bytes(g.gradient@) + filter_stop_ratios_bytes(
        g.gradient@,
    ) + le_u32_bytes(g.blur_x as u32) + le_u32_bytes(g.blur_y as u32) + le_u32_bytes(g.angle as u32)
        + le_u32_bytes(g.distance as u32) + le_u16_bytes(g.strength as u16) + seq![
        bevel_flags(g.inner, g.knockout, g.composite_source, g.on_top, g.passes),
    ]
}

/// The flag byte of a shadow or glow: inner, knockout and composite source from bit 7 down,
/// then the passes in bits 0 to 4.
pub open spec fn shadow_flags(inner: bool, knockout: bool, composite_source: bool, passes: u8) -> u8 {
    ((if inner { 128int } else { 0 }) + (if knockout { 64int } else { 0 }) + (if composite_source {
        32int
    } else {
        0
    }) + passes) as u8
}

pub open spec fn color_rgba_bytes(c: StraightSRgba8) -> Seq<u8> {
    seq![c.r, c.g, c.b, c.a]
}

/// The filter's type byte, then its fields.
pub open spec fn filter_bytes(f: Filter) -> Seq<u8> {
    match f {
        Filter::DropShadow(s) => seq![0u8] + color_rgba_bytes(s.color) + le_u32_bytes(s.blur_x as u32)
            + le_u32_bytes(s.blur_y as u32) + le_u32_bytes(s.angle as u32) + le_u32_bytes(
            s.distance as u32,
        ) + le_u16_bytes(s.strength as u16) + seq![
            shadow_flags(s.inner, s.knockout, s.composite_source, s.passes),
        ],
        Filter::Blur(s) => seq![1u8] + le_u32_bytes(s.blur_x as u32) + le_u32_bytes(s.blur_y as u32)
            + seq![(s.passes * 8) as u8],
        Filter::Glow(s) => seq![2u8] + color_rgba_bytes(s.color) + le_u32_bytes(s.blur_x as u32)
            + le_u32_bytes(s.blur_y as u32) + le_u16_bytes(s.strength as u16) + seq![
            shadow_flags(s.inner, s.knockout, s.composite_source, s.passes),
        ],
        Filter::Bevel(s) => seq![3u8] + color_rgba_bytes(s.shadow_color) + color_rgba_bytes(
            s.highlight_color,
        ) + le_u32_bytes(s.blur_x as u32) + le_u32_bytes(s.blur_y as u32) + le_u32_bytes(s.angle as u32)
            + le_u32_bytes(s.distance as u32) + le_u16_bytes(s.strength as u16) + seq![
            bevel_flags(s.inner, s.knockout, s.composite_source, s.on_top, s.passes),
        ],
        Filter::GradientGlow(g) => seq![4u8] + gradient_filter_bytes(g),
        Filter::GradientBevel(g) => seq![7u8] + gradient_filter_bytes(g),
    }
}

/// Passes fit in five bits.
pub open spec fn filter_valid(f: Filter) -> bool {
    match f {
        Filter::DropShadow(s) => s.passes < 32,
        Filter::Blur(s) => s.passes < 32,
        Filter::Glow(s) => s.passes < 32,
        Filter::Bevel(s) => s.passes < 16,
        Filter::GradientGlow(g) => g.passes < 16 && g.gradient@.len() <= 255,
        Filter::GradientBevel(g) => g.passes < 16 && g.gradient@.len() <= 255,
    }
}

pub open spec fn filters_bytes(fs: Seq<Filter>) -> Seq<u8>
    decreases fs.len(),
{
    if fs.len() == 0 {
        Seq::empty()
    } else {
        filters_bytes(fs.drop_last()) + filter_bytes(fs.last())
    }
}

/// A count byte, then the filters.
pub open spec fn filter_list_bytes(fs: Seq<Filter>) -> Seq<u8> {
    seq![fs.len() as u8] + filters_bytes(fs)
}

pub open spec fn filter_list_valid(fs: Seq<Filter>) -> bool {
    fs.len() <= 255 && forall|i: int| 0 <= i < fs.len() ==> filter_valid(#[trigger] fs[i])
}

fn emit_shadow_flags(writer: &mut Vec<u8>, inner: bool, knockout: bool, composite_source: bool, passes: u8)
    requires
        passes < 32,
    ensures
        final(writer)@ == old(writer)@.push(shadow_flags(inner, knockout, composite_source, passes)),
{
    let flags: u8 = (if inner { 128u8 } else { 0u8 }) + (if knockout { 64u8 } else { 0u8 }) + (
    if composite_source {
        32u8
    } else {
        0u8
    }) + passes;
    emit_u8(writer, flags);
}

fn emit_bevel_flags(
    writer: &mut Vec<u8>,
    inner: bool,
    knockout: bool,
    composite_source: bool,
    on_top: bool,
    passes: u8,
)
    requires
        passes < 16,
    ensures
        final(writer)@ == old(writer)@.push(bevel_flags(inner, knockout, composite_source, on_top, passes)),
{
    let flags: u8 = (if inner { 128u8 } else { 0u8 }) + (if knockout { 64u8 } else { 0u8 }) + (
    if composite_source {
        32u8
    } else {
        0u8
    }) + (if on_top { 16u8 } else { 0u8 }) + passes;
    emit_u8(writer, flags);
}

#[verifier::spinoff_prover]
#[verifier::rlimit(60)]
fn emit_gradient_filter(writer: &mut Vec<u8>, value: &GradientFilter)
    requires
        value.passes < 16,
        value.gradient@.len() <= 255,
    ensures
        final(writer)@ == old(writer)@ + gradient_filter_bytes(*value),
{
    emit_u8(writer, value.gradient.len() as u8);
    let ghost head = writer@;
    let mut i: usize = 0;
    while i < value.gradient.len()
        invariant
            i <= value.gradient@.len(),
            writer@ == head + filter_stop_colors_bytes(value.gradient@.take(i as int)),
        decreases value.gradient@.len() - i,
    {
        emit_straight_s_rgba8(writer, value.gradient[i].color);
        proof {
            assert(value.gradient@.take(i + 1).drop_last() =~= value.gradient@.take(i as int));
            assert(writer@ =~= head + filter_stop_colors_bytes(value.gradient@.take(i + 1)));
        }
        i = i + 1;
    }
    proof {
        assert(value.gradient@.take(i as int) =~= value.gradient@);
    }
    let ghost mid = writer@;
    let mut i: usize = 0;
    while i < value.gradient.len()
        invariant
            i <= value.gradient@.len(),
            writer@ == mid + filter_stop_ratios_bytes(value.gradient@.take(i as int)),
        decreases value.gradient@.len() - i,
    {
        emit_u8(writer, value.gradient[i].ratio);
        proof {
            assert(value.gradient@.take(i + 1).drop_last() =~= value.gradient@.take(i as int));
            assert(writer@ =~= mid + filter_stop_ratios_bytes(value.gradient@.take(i + 1)));
        }
        i = i + 1;
    }
    proof {
        assert(value.gradient@.take(i as int) =~= value.gradient@);
    }
    emit_le_u32(writer, value.blur_x as u32);
    emit_le_u32(writer, value.blur_y as u32);
    emit_le_u32(writer, value.angle as u32);
    emit_le_u32(writer, value.distance as u32);
    emit_le_i16(writer, value.strength);
    emit_bevel_flags(writer, value.inner, value.knockout, value.composite_source, value.on_top, value.passes);
    proof {
        assert(final(writer)@ =~= old(writer)@ + gradient_filter_bytes(*value));
    }
}

#[verifier::spinoff_prover]
#[verifier::rlimit(60)]
pub fn emit_filter(writer: &mut Vec<u8>, value: &Filter)
    requires
        filter_valid(*value),
    ensures
        final(writer)@ == old(writer)@ + filter_bytes(*value),
{
    match value {
        Filter::DropShadow(s) => {
            emit_u8(writer, 0);
            emit_straight_s_rgba8(writer, s.color);
            emit_le_u32(writer, s.blur_x as u32);
            emit_le_u32(writer, s.blur_y as u32);
            emit_le_u32(writer, s.angle as u32);
            emit_le_u32(writer, s.distance as u32);
            emit_le_i16(writer, s.strength);
            emit_shadow_flags(writer, s.inner, s.knockout, s.composite_source, s.passes);
        },
        Filter::Blur(s) => {
            emit_u8(writer, 1);
            emit_le_u32(writer, s.blur_x as u32);
            emit_le_u32(writer, s.blur_y as u32);
            emit_u8(writer, s.passes * 8);
        },
        Filter::Glow(s) => {
            emit_u8(writer, 2);
            emit_straight_s_rgba8(writer, s.color);
            emit_le_u32(writer, s.blur_x as u32);
            emit_le_u32(writer, s.blur_y as u32);
            emit_le_i16(writer, s.strength);
            emit_shadow_flags(writer, s.inner, s.knockout, s.composite_source, s.passes);
        },
        Filter::Bevel(s) => {
            emit_u8(writer, 3);
            emit_straight_s_rgba8(writer, s.shadow_color);
            emit_straight_s_rgba8(writer, s.highlight_color);
            emit_le_u32(writer, s.blur_x as u32);
            emit_le_u32(writer, s.blur_y as u32);
            emit_le_u32(writer, s.angle as u32);
            emit_le_u32(writer, s.distance as u32);
            emit_le_i16(writer, s.strength);
            emit_bevel_flags(writer, s.inner, s.knockout, s.composite_source, s.on_top, s.passes);
        },
        Filter::GradientGlow(g) => {
            emit_u8(writer, 4);
            emit_gradient_filter(writer, g);
        },
        Filter::GradientBevel(g) => {
            emit_u8(writer, 7);
            emit_gradient_filter(writer, g);
        },
    }
    proof {
        assert(final(writer)@ =~= old(writer)@ + filter_bytes(*value));
    }
}

pub fn emit_filter_list(writer: &mut Vec<u8>, value: &Vec<Filter>)
    requires
        filter_list_valid(value@),
    ensures
        final(writer)@ == old(writer)@ + filter_list_bytes(value@),
{
    emit_u8(writer, value.len() as u8);
    let ghost head = writer@;
    let mut i: usize = 0;
    while i < value.len()
        invariant
            i <= value@.len(),
            filter_list_valid(value@),
            head == old(writer)@.push(value@.len() as u8),
            writer@ == head + filters_bytes(value@.take(i as int)),
        decreases value@.len() - i,
    {
        emit_filter(writer, &value[i]);
        proof {
            assert(value@.take(i + 1).drop_last() =~= value@.take(i as int));
            assert(writer@ =~= head + filters_bytes(value@.take(i + 1)));
        }
        i = i + 1;
    }
    proof {
        assert(value@.take(i as int) =~= value@);
        assert(final(writer)@ =~= old(writer)@ + filter_list_bytes(value@));
    }
}

/// The key-press event bit of the clip event flags, in their 32-bit form.
pub const CLIP_EVENT_KEY_PRESS: u32 = 0x20000;

/// An action block run on clip events. `events` holds the event flags in their 32-bit form;
/// the 16-bit form keeps the low half.
#[derive(Clone, Debug, PartialEq, Eq)]
pub struct ClipAction {
    pub events: u32,
    pub key_code: Option<u8>,
    pub actions: Vec<u8>,
}

/// Event flags in 32 bits, or their low half in 16 bits.
pub open spec fn clip_event_flags_bytes(events: u32, extended: bool) -> Seq<u8> {
    if extended {
        le_u32_bytes(events)
    } else {
        le_u16_bytes((events % 65536) as u16)
    }
}

/// The key code byte is present exactly when the key-press event is set.
pub open spec fn clip_action_valid(a: ClipAction) -> bool {
    &&& (a.events & CLIP_EVENT_KEY_PRESS != 0) == a.key_code.is_some()
    &&& a.actions@.len() + 1 <= u32::MAX
}

/// Event flags, the size of what follows, the key code if any, then the actions.
pub open spec fn clip_action_bytes(a: ClipAction, extended: bool) -> Seq<u8> {
    clip_event_flags_bytes(a.events, extended) + match a.key_code {
        Some(k) => le_u32_bytes((a.actions@.len() + 1) as u32) + seq![k],
        None => le_u32_bytes(a.actions@.len() as u32),
    } + a.actions@
}

pub open spec fn clip_actions_bytes(s: Seq<ClipAction>, extended: bool) -> Seq<u8>
    decreases s.len(),
{
    if s.len() == 0 {
        Seq::empty()
    } else {
        clip_actions_bytes(s.drop_last(), extended) + clip_action_bytes(s.last(), extended)
    }
}

/// The union of the event flags of all actions.
pub open spec fn clip_events_union(s: Seq<ClipAction>) -> u32
    decreases s.len(),
{
    if s.len() == 0 {
        0
    } else {
        clip_events_union(s.drop_last()) | s.last().events
    }
}

/// A reserved zero word, the union of all event flags, each action, then zero flags.
pub open spec fn clip_actions_string_bytes(s: Seq<ClipAction>, extended: bool) -> Seq<u8> {
    le_u16_bytes(0) + clip_event_flags_bytes(clip_events_union(s), extended) + clip_actions_bytes(
        s,
        extended,
    ) + clip_event_flags_bytes(0, extended)
}

fn emit_clip_event_flags(writer: &mut Vec<u8>, events: u32, extended: bool)
    ensures
        final(writer)@ == old(writer)@ + clip_event_flags_bytes(events, extended),
{
    if extended {
        emit_le_u32(writer, events);
    } else {
        emit_le_u16(writer, (events % 65536) as u16);
    }
}

pub fn emit_clip_actions_string(writer: &mut Vec<u8>, value: &Vec<ClipAction>, extended: bool)
    requires
        forall|i: int| 0 <= i < value@.len() ==> clip_action_valid(#[trigger] value@[i]),
    ensures
        final(writer)@ == old(writer)@ + clip_actions_string_bytes(value@, extended),
{
    emit_le_u16(writer, 0);
    let mut union: u32 = 0;
    let mut i: usize = 0;
    while i < value.len()
        invariant
            i <= value@.len(),
            union == clip_events_union(value@.take(i as int)),
        decreases value@.len() - i,
    {
        proof {
            assert(value@.take(i + 1).drop_last() =~= value@.take(i as int));
        }
        union = union | value[i].events;
        i = i + 1;
    }
    proof {
        assert(value@.take(i as int) =~= value@);
    }
    emit_clip_event_flags(writer, union, extended);
    let ghost head = writer@;
    let mut i: usize = 0;
    while i < value.len()
        invariant
            i <= value@.len(),
            forall|j: int| 0 <= j < value@.len() ==> clip_action_valid(#[trigger] value@[j]),
            writer@ == head + clip_actions_bytes(value@.take(i as int), extended),
        decreases value@.len() - i,
    {
        let action = &value[i];
        proof {
            assert(clip_action_valid(value@[i as int]));
        }
        emit_clip_event_flags(writer, action.events, extended);
        match action.key_code {
            Some(key_code) => {
                emit_le_u32(writer, (action.actions.len() + 1) as u32);
                emit_u8(writer, key_code);
            },
            None => {
                emit_le_u32(writer, action.actions.len() as u32);
            },
        }
        emit_bytes(writer, action.actions.as_slice());
        proof {
            assert(value@.take(i + 1).drop_last() =~= value@.take(i as int));
            assert(writer@ =~= head + clip_actions_bytes(value@.take(i + 1), extended));
        }
        i = i + 1;
    }
    proof {
        assert(value@.take(i as int) =~= value@);
    }
    emit_clip_event_flags(writer, 0, extended);
    proof {
        assert(final(writer)@ =~= old(writer)@ + clip_actions_string_bytes(value@, extended));
    }
}

} // verus!
