use vstd::prelude::*;

use crate::basic_data_types::{emit_s_rgb8, emit_straight_s_rgba8, SRgb8, StraightSRgba8};
use crate::primitives::emit_u8;

verus! {

#[derive(Clone, Copy, Debug, PartialEq, Eq)]
pub enum GradientSpread {
    Pad,
    Reflect,
    Repeat,
}

#[derive(Clone, Copy, Debug, PartialEq, Eq)]
pub enum ColorSpace {
    SRgb,
    LinearRgb,
}

/// A gradient color at a position from 0 to 255.
#[derive(Clone, Copy, Debug, PartialEq, Eq)]
pub struct ColorStop {
    pub ratio: u8,
    pub color: StraightSRgba8,
}

#[derive(Clone, Debug, PartialEq, Eq)]
pub struct Gradient {
    pub spread: GradientSpread,
    pub color_space: ColorSpace,
    pub colors: Vec<ColorStop>,
}

pub open spec fn spread_code(s: GradientSpread) -> u8 {
    match s {
        GradientSpread::Pad => 0,
        GradientSpread::Reflect => 1,
        GradientSpread::Repeat => 2,
    }
}

pub open spec fn color_space_code(c: ColorSpace) -> u8 {
    match c {
        ColorSpace::SRgb => 0,
        ColorSpace::LinearRgb => 1,
    }
}

/// A color as RGBA, or as RGB where the alpha channel is left out.
pub open spec fn color_bytes(c: StraightSRgba8, with_alpha: bool) -> Seq<u8> {
    if with_alpha {
        seq![c.r, c.g, c.b, c.a]
    } else {
        seq![c.r, c.g, c.b]
    }
}

/// The color is opaque, as a color written without alpha must be.
pub open spec fn color_fits(c: StraightSRgba8, with_alpha: bool) -> bool {
    with_alpha || c.a == 255
}

pub open spec fn color_stops_bytes(s: Seq<ColorStop>, with_alpha: bool) -> Seq<u8>
    decreases s.len(),
{
    if s.len() == 0 {
        Seq::empty()
    } else {
        color_stops_bytes(s.drop_last(), with_alpha) + seq![s.last().ratio] + color_bytes(
            s.last().color,
            with_alpha,
        )
    }
}

/// At most 15 stops, and every color fits the form.
pub open spec fn gradient_fits(g: Gradient, with_alpha: bool) -> bool {
    &&& g.colors@.len() <= 15
    &&& forall|i: int| 0 <= i < g.colors@.len() ==> color_fits(#[trigger] g.colors@[i].color, with_alpha)
}

/// The stop count in bits 0 to 3, the spread in bits 4 and 5, the color space in bits 6 and 7.
pub open spec fn gradient_flags(g: Gradient) -> u8 {
    (g.colors@.len() + 16 * spread_code(g.spread) + 64 * color_space_code(g.color_space)) as u8
}

pub open spec fn gradient_bytes(g: Gradient, with_alpha: bool) -> Seq<u8> {
    seq![gradient_flags(g)] + color_stops_bytes(g.colors@, with_alpha)
}

/// Writes a color with or without its alpha channel.
pub fn emit_color(writer: &mut Vec<u8>, value: StraightSRgba8, with_alpha: bool)
    requires
        color_fits(value, with_alpha),
    ensures
        final(writer)@ == old(writer)@ + color_bytes(value, with_alpha),
{
    if with_alpha {
        emit_straight_s_rgba8(writer, value);
    } else {
        emit_s_rgb8(writer, SRgb8 { r: value.r, g: value.g, b: value.b });
    }
}

fn gradient_spread_to_code(value: GradientSpread) -> (r: u8)
    ensures
        r == spread_code(value),
{
    match value {
        GradientSpread::Pad => 0,
        GradientSpread::Reflect => 1,
        GradientSpread::Repeat => 2,
    }
}

fn color_space_to_code(value: ColorSpace) -> (r: u8)
    ensures
        r == color_space_code(value),
{
    match value {
        ColorSpace::LinearRgb => 1,
        ColorSpace::SRgb => 0,
    }
}

pub fn emit_gradient(writer: &mut Vec<u8>, value: &Gradient, with_alpha: bool)
    requires
        gradient_fits(*value, with_alpha),
    ensures
        final(writer)@ == old(writer)@ + gradient_bytes(*value, with_alpha),
{
    let flags: u8 = value.colors.len() as u8 + 16 * gradient_spread_to_code(value.spread) + 64
        * color_space_to_code(value.color_space);
    emit_u8(writer, flags);
    let ghost head = writer@;
    let mut i: usize = 0;
    while i < value.colors.len()
        invariant
            i <= value.colors@.len(),
            gradient_fits(*value, with_alpha),
            head == old(writer)@.push(gradient_flags(*value)),
            writer@ == head + color_stops_bytes(value.colors@.take(i as int), with_alpha),
        decreases value.colors@.len() - i,
    {
        let stop = value.colors[i];
        emit_u8(writer, stop.ratio);
        emit_color(writer, stop.color, with_alpha);
        proof {
            assert(value.colors@.take(i + 1).drop_last() =~= value.colors@.take(i as int));
            assert(writer@ =~= head + color_stops_bytes(value.colors@.take(i + 1), with_alpha));
        }
        i = i + 1;
    }
    proof {
        assert(value.colors@.take(i as int) =~= value.colors@);
        assert(final(writer)@ =~= old(writer)@ + gradient_bytes(*value, with_alpha));
    }
}

/// A gradient stop at the start and at the end of a morph.
#[derive(Clone, Copy, Debug, PartialEq, Eq)]
pub struct MorphColorStop {
    pub ratio: u8,
    pub color: StraightSRgba8,
    pub morph_ratio: u8,
    pub morph_color: StraightSRgba8,
}

#[derive(Clone, Debug, PartialEq, Eq)]
pub struct MorphGradient {
    pub spread: GradientSpread,
    pub color_space: ColorSpace,
    pub colors: Vec<MorphColorStop>,
}

pub open spec fn morph_color_stops_bytes(s: Seq<MorphColorStop>) -> Seq<u8>
    decreases s.len(),
{
    if s.len() == 0 {
        Seq::empty()
    } else {
        morph_color_stops_bytes(s.drop_last()) + seq![s.last().ratio] + color_bytes(s.last().color, true)
            + seq![s.last().morph_ratio] + color_bytes(s.last().morph_color, true)
    }
}

pub open spec fn morph_gradient_flags(g: MorphGradient) -> u8 {
    (g.colors@.len() + 16 * spread_code(g.spread) + 64 * color_space_code(g.color_space)) as u8
}

/// The flags, then each stop as its start and end ratio and color, with alpha.
pub open spec fn morph_gradient_bytes(g: MorphGradient) -> Seq<u8> {
    seq![morph_gradient_flags(g)] + morph_color_stops_bytes(g.colors@)
}

pub fn emit_morph_gradient(writer: &mut Vec<u8>, value: &MorphGradient)
    requires
        value.colors@.len() <= 15,
    ensures
        final(writer)@ == old(writer)@ + morph_gradient_bytes(*value),
{
    let flags: u8 = value.colors.len() as u8 + 16 * gradient_spread_to_code(value.spread) + 64
        * color_space_to_code(value.color_space);
    emit_u8(writer, flags);
    let ghost head = writer@;
    let mut i: usize = 0;
    while i < value.colors.len()
        invariant
            i <= value.colors@.len(),
            head == old(writer)@.push(morph_gradient_flags(*value)),
            writer@ == head + morph_color_stops_bytes(value.colors@.take(i as int)),
        decreases value.colors@.len() - i,
    {
        let stop = value.colors[i];
        emit_u8(writer, stop.ratio);
        emit_straight_s_rgba8(writer, stop.color);
        emit_u8(writer, stop.morph_ratio);
        emit_straight_s_rgba8(writer, stop.morph_color);
        proof {
            assert(value.colors@.take(i + 1).drop_last() =~= value.colors@.take(i as int));
            assert(writer@ =~= head + morph_color_stops_bytes(value.colors@.take(i + 1)));
        }
        i = i + 1;
    }
    proof {
        assert(value.colors@.take(i as int) =~= value.colors@);
        assert(final(writer)@ =~= old(writer)@ + morph_gradient_bytes(*value));
    }
}

} // verus!
