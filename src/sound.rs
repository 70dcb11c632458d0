use vstd::prelude::*;

use crate::primitives::{emit_bytes, emit_le_u16, emit_le_u32, emit_u8, le_u16_bytes, le_u32_bytes};

verus! {

#[derive(Clone, Copy, Debug, PartialEq, Eq)]
pub enum AudioCodingFormat {
    UncompressedNativeEndian,
    Adpcm,
    Mp3,
    UncompressedLittleEndian,
    Nellymoser16,
    Nellymoser8,
    Nellymoser,
    Speex,
}

#[derive(Clone, Copy, Debug, PartialEq, Eq)]
pub enum SoundRate {
    SoundRate5500,
    SoundRate11000,
    SoundRate22000,
    SoundRate44000,
}

pub open spec fn audio_coding_format_code(f: AudioCodingFormat) -> u8 {
    match f {
        AudioCodingFormat::UncompressedNativeEndian => 0,
        AudioCodingFormat::Adpcm => 1,
        AudioCodingFormat::Mp3 => 2,
        AudioCodingFormat::UncompressedLittleEndian => 3,
        AudioCodingFormat::Nellymoser16 => 4,
        AudioCodingFormat::Nellymoser8 => 5,
        AudioCodingFormat::Nellymoser => 6,
        AudioCodingFormat::Speex => 11,
    }
}

pub open spec fn sound_rate_code(r: SoundRate) -> u8 {
    match r {
        SoundRate::SoundRate5500 => 0,
        SoundRate::SoundRate11000 => 1,
        SoundRate::SoundRate22000 => 2,
        SoundRate::SoundRate44000 => 3,
    }
}

pub fn audio_coding_format_to_code(value: AudioCodingFormat) -> (r: u8)
    ensures
        r == audio_coding_format_code(value),
{
    match value {
        AudioCodingFormat::UncompressedNativeEndian => 0,
        AudioCodingFormat::Adpcm => 1,
        AudioCodingFormat::Mp3 => 2,
        AudioCodingFormat::UncompressedLittleEndian => 3,
        AudioCodingFormat::Nellymoser16 => 4,
        AudioCodingFormat::Nellymoser8 => 5,
        AudioCodingFormat::Nellymoser => 6,
        AudioCodingFormat::Speex => 11,
    }
}

pub fn sound_rate_to_code(value: SoundRate) -> (r: u8)
    ensures
        r == sound_rate_code(value),
{
    match value {
        SoundRate::SoundRate5500 => 0,
        SoundRate::SoundRate11000 => 1,
        SoundRate::SoundRate22000 => 2,
        SoundRate::SoundRate44000 => 3,
    }
}

/// A point of a volume envelope: the position in 44 kHz samples and the two channel levels.
#[derive(Clone, Copy, Debug, PartialEq, Eq)]
pub struct SoundEnvelope {
    pub pos44: u32,
    pub left_level: u16,
    pub right_level: u16,
}

/// How a sound is played.
#[derive(Clone, Debug, PartialEq, Eq)]
pub struct SoundInfo {
    pub sync_stop: bool,
    pub sync_no_multiple: bool,
    pub in_point: Option<u32>,
    pub out_point: Option<u32>,
    pub loop_count: Option<u16>,
    pub envelope_records: Option<Vec<SoundEnvelope>>,
}

pub open spec fn envelope_records_bytes(s: Seq<SoundEnvelope>) -> Seq<u8>
    decreases s.len(),
{
    if s.len() == 0 {
        Seq::empty()
    } else {
        envelope_records_bytes(s.drop_last()) + le_u32_bytes(s.last().pos44) + le_u16_bytes(
            s.last().left_level,
        ) + le_u16_bytes(s.last().right_level)
    }
}

/// A count byte, then each point.
pub open spec fn sound_envelope_bytes(s: Seq<SoundEnvelope>) -> Seq<u8> {
    seq![s.len() as u8] + envelope_records_bytes(s)
}

/// The flags, from bit 0: in point, out point, loops, envelope, no multiple, stop.
pub open spec fn sound_info_flags(i: SoundInfo) -> u8 {
    ((if i.in_point.is_some() { 1int } else { 0 }) + (if i.out_point.is_some() { 2int } else { 0 }) + (
    if i.loop_count.is_some() {
        4int
    } else {
        0
    }) + (if i.envelope_records.is_some() { 8int } else { 0 }) + (if i.sync_no_multiple {
        16int
    } else {
        0
    }) + (if i.sync_stop { 32int } else { 0 })) as u8
}

/// The flags, then each part that is present.
pub open spec fn sound_info_bytes(i: SoundInfo) -> Seq<u8> {
    seq![sound_info_flags(i)] + (match i.in_point {
        Some(p) => le_u32_bytes(p),
        None => Seq::empty(),
    }) + (match i.out_point {
        Some(p) => le_u32_bytes(p),
        None => Seq::empty(),
    }) + (match i.loop_count {
        Some(c) => le_u16_bytes(c),
        None => Seq::empty(),
    }) + (match i.envelope_records {
        Some(e) => sound_envelope_bytes(e@),
        None => Seq::empty(),
    })
}

/// An envelope holds at most 255 points.
pub open spec fn sound_info_valid(i: SoundInfo) -> bool {
    match i.envelope_records {
        Some(e) => e@.len() <= 255,
        None => true,
    }
}

pub fn emit_sound_envelope(writer: &mut Vec<u8>, value: &Vec<SoundEnvelope>)
    requires
        value@.len() <= 255,
    ensures
        final(writer)@ == old(writer)@ + sound_envelope_bytes(value@),
{
    emit_u8(writer, value.len() as u8);
    let ghost head = writer@;
    let mut i: usize = 0;
    while i < value.len()
        invariant
            i <= value@.len(),
            head == old(writer)@.push(value@.len() as u8),
            writer@ == head + envelope_records_bytes(value@.take(i as int)),
        decreases value@.len() - i,
    {
        let record = value[i];
        emit_le_u32(writer, record.pos44);
        emit_le_u16(writer, record.left_level);
        emit_le_u16(writer, record.right_level);
        proof {
            assert(value@.take(i + 1).drop_last() =~= value@.take(i as int));
            assert(writer@ =~= head + envelope_records_bytes(value@.take(i + 1)));
        }
        i = i + 1;
    }
    proof {
        assert(value@.take(i as int) =~= value@);
        assert(final(writer)@ =~= old(writer)@ + sound_envelope_bytes(value@));
    }
}

fn sound_info_flags_of(value: &SoundInfo) -> (r: u8)
    ensures
        r == sound_info_flags(*value),
{
    (if value.in_point.is_some() { 1u8 } else { 0u8 }) + (if value.out_point.is_some() {
        2u8
    } else {
        0u8
    }) + (if value.loop_count.is_some() { 4u8 } else { 0u8 }) + (if value.envelope_records.is_some() {
        8u8
    } else {
        0u8
    }) + (if value.sync_no_multiple { 16u8 } else { 0u8 }) + (if value.sync_stop { 32u8 } else { 0u8 })
}

#[verifier::spinoff_prover]
#[verifier::rlimit(40)]
pub fn emit_sound_info(writer: &mut Vec<u8>, value: &SoundInfo)
    requires
        sound_info_valid(*value),
    ensures
        final(writer)@ == old(writer)@ + sound_info_bytes(*value),
{
    let flags = sound_info_flags_of(value);
    emit_u8(writer, flags);
    if let Some(in_point) = value.in_point {
        emit_le_u32(writer, in_point);
    }
    if let Some(out_point) = value.out_point {
        emit_le_u32(writer, out_point);
    }
    if let Some(loop_count) = value.loop_count {
        emit_le_u16(writer, loop_count);
    }
    if let Some(envelope) = &value.envelope_records {
        emit_sound_envelope(writer, envelope);
    }
    proof {
        assert(final(writer)@ =~= old(writer)@ + sound_info_bytes(*value));
    }
}

#[derive(Clone, Copy, Debug, PartialEq, Eq)]
pub enum SoundType {
    Mono,
    Stereo,
}

#[derive(Clone, Copy, Debug, PartialEq, Eq)]
pub enum SoundSize {
    SoundSize8,
    SoundSize16,
}

#[derive(Clone, Debug, PartialEq, Eq)]
pub struct DefineSound {
    pub id: u16,
    pub sound_type: SoundType,
    pub sound_size: SoundSize,
    pub sound_rate: SoundRate,
    pub format: AudioCodingFormat,
    pub sample_count: u32,
    pub data: Vec<u8>,
}

/// From bit 0: stereo, 16-bit samples, the rate in bits 2 and 3, the format in bits 4 to 7.
pub open spec fn define_sound_flags(t: DefineSound) -> u8 {
    ((if t.sound_type == SoundType::Stereo { 1int } else { 0 }) + (if t.sound_size == SoundSize::SoundSize16 {
        2int
    } else {
        0
    }) + 4 * sound_rate_code(t.sound_rate) + 16 * audio_coding_format_code(t.format)) as u8
}

pub open spec fn define_sound_bytes(t: DefineSound) -> Seq<u8> {
    le_u16_bytes(t.id) + seq![define_sound_flags(t)] + le_u32_bytes(t.sample_count) + t.data@
}

pub fn emit_define_sound(writer: &mut Vec<u8>, value: &DefineSound)
    ensures
        final(writer)@ == old(writer)@ + define_sound_bytes(*value),
{
    emit_le_u16(writer, value.id);
    let stereo: u8 = match value.sound_type {
        SoundType::Stereo => 1,
        SoundType::Mono => 0,
    };
    let wide: u8 = match value.sound_size {
        SoundSize::SoundSize16 => 2,
        SoundSize::SoundSize8 => 0,
    };
    let flags: u8 = stereo + wide + 4 * sound_rate_to_code(value.sound_rate) + 16 * audio_coding_format_to_code(
        value.format,
    );
    emit_u8(writer, flags);
    emit_le_u32(writer, value.sample_count);
    emit_bytes(writer, value.data.as_slice());
    proof {
        assert(final(writer)@ =~= old(writer)@ + define_sound_bytes(*value));
    }
}

#[derive(Clone, Debug, PartialEq, Eq)]
pub struct StartSound {
    pub sound_id: u16,
    pub sound_info: SoundInfo,
}

pub fn emit_start_sound(writer: &mut Vec<u8>, value: &StartSound)
    requires
        sound_info_valid(value.sound_info),
    ensures
        final(writer)@ == old(writer)@ + le_u16_bytes(value.sound_id) + sound_info_bytes(value.sound_info),
{
    emit_le_u16(writer, value.sound_id);
    emit_sound_info(writer, &value.sound_info);
    proof {
        assert(final(writer)@ =~= old(writer)@ + le_u16_bytes(value.sound_id) + sound_info_bytes(
            value.sound_info,
        ));
    }
}

/// A sound played on a button state transition.
#[derive(Clone, Debug, PartialEq, Eq)]
pub struct ButtonSound {
    pub sound_id: u16,
    pub sound_info: SoundInfo,
}

/// A sound id and how it plays, or a zero id where the transition plays no sound.
pub open spec fn button_sound_bytes(s: Option<ButtonSound>) -> Seq<u8> {
    match s {
        Some(b) => le_u16_bytes(b.sound_id) + sound_info_bytes(b.sound_info),
        None => le_u16_bytes(0),
    }
}

pub open spec fn button_sound_valid(s: Option<ButtonSound>) -> bool {
    match s {
        Some(b) => b.sound_id != 0 && sound_info_valid(b.sound_info),
        None => true,
    }
}

pub fn emit_button_sound(writer: &mut Vec<u8>, value: &Option<ButtonSound>)
    requires
        button_sound_valid(*value),
    ensures
        final(writer)@ == old(writer)@ + button_sound_bytes(*value),
{
    match value {
        Some(sound) => {
            emit_le_u16(writer, sound.sound_id);
            emit_sound_info(writer, &sound.sound_info);
            proof {
                assert(final(writer)@ =~= old(writer)@ + button_sound_bytes(*value));
            }
        },
        None => emit_le_u16(writer, 0),
    }
}

/// The sounds of a button, one per state transition.
#[derive(Clone, Debug, PartialEq, Eq)]
pub struct DefineButtonSound {
    pub button_id: u16,
    pub over_up_to_idle: Option<ButtonSound>,
    pub idle_to_over_up: Option<ButtonSound>,
    pub over_up_to_over_down: Option<ButtonSound>,
    pub over_down_to_over_up: Option<ButtonSound>,
}

pub open spec fn define_button_sound_bytes(t: DefineButtonSound) -> Seq<u8> {
    le_u16_bytes(t.button_id) + button_sound_bytes(t.over_up_to_idle) + button_sound_bytes(t.idle_to_over_up)
        + button_sound_bytes(t.over_up_to_over_down) + button_sound_bytes(t.over_down_to_over_up)
}

pub open spec fn define_button_sound_valid(t: DefineButtonSound) -> bool {
    &&& button_sound_valid(t.over_up_to_idle)
    &&& button_sound_valid(t.idle_to_over_up)
    &&& button_sound_valid(t.over_up_to_over_down)
    &&& button_sound_valid(t.over_down_to_over_up)
}

pub fn emit_define_button_sound(writer: &mut Vec<u8>, value: &DefineButtonSound)
    requires
        define_button_sound_valid(*value),
    ensures
        final(writer)@ == old(writer)@ + define_button_sound_bytes(*value),
{
    emit_le_u16(writer, value.button_id);
    emit_button_sound(writer, &value.over_up_to_idle);
    emit_button_sound(writer, &value.idle_to_over_up);
    emit_button_sound(writer, &value.over_up_to_over_down);
    emit_button_sound(writer, &value.over_down_to_over_up);
    proof {
        assert(final(writer)@ =~= old(writer)@ + define_button_sound_bytes(*value));
    }
}

} // verus!
