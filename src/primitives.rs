use vstd::prelude::*;

verus! {

/// Little-endian bytes of a 16-bit value.
pub open spec fn le_u16_bytes(v: u16) -> Seq<u8> {
    seq![(v % 256) as u8, (v / 256) as u8]
}

/// Little-endian bytes of a 32-bit value.
pub open spec fn le_u32_bytes(v: u32) -> Seq<u8> {
    seq![
        (v % 256) as u8,
        ((v / 256) % 256) as u8,
        ((v / 65536) % 256) as u8,
        (v / 16777216) as u8,
    ]
}

/// Appends `bytes` to `writer`.
pub fn emit_bytes(writer: &mut Vec<u8>, bytes: &[u8])
    ensures
        final(writer)@ == old(writer)@ + bytes@,
{
    let mut i: usize = 0;
    while i < bytes.len()
        invariant
            i <= bytes@.len(),
            writer@ == old(writer)@ + bytes@.take(i as int),
        decreases bytes@.len() - i,
    {
        writer.push(bytes[i]);
        proof {
            assert(old(writer)@ + bytes@.take(i + 1) =~= (old(writer)@ + bytes@.take(i as int)).push(
                bytes@[i as int],
            ));
        }
        i = i + 1;
    }
    proof {
        assert(bytes@.take(i as int) =~= bytes@);
    }
}

pub fn emit_u8(writer: &mut Vec<u8>, value: u8)
    ensures
        final(writer)@ == old(writer)@.push(value),
{
    writer.push(value);
}

pub fn emit_le_u16(writer: &mut Vec<u8>, value: u16)
    ensures
        final(writer)@ == old(writer)@ + le_u16_bytes(value),
{
    writer.push((value % 256) as u8);
    writer.push((value / 256) as u8);
    proof {
        assert(final(writer)@ =~= old(writer)@ + le_u16_bytes(value));
    }
}

pub fn emit_le_u32(writer: &mut Vec<u8>, value: u32)
    ensures
        final(writer)@ == old(writer)@ + le_u32_bytes(value),
{
    writer.push((value % 256) as u8);
    writer.push(((value / 256) % 256) as u8);
    writer.push(((value / 65536) % 256) as u8);
    writer.push((value / 16777216) as u8);
    proof {
        assert(final(writer)@ =~= old(writer)@ + le_u32_bytes(value));
    }
}

pub fn emit_le_i16(writer: &mut Vec<u8>, value: i16)
    ensures
        final(writer)@ == old(writer)@ + le_u16_bytes(value as u16),
{
    emit_le_u16(writer, value as u16);
}

pub fn emit_le_i32(writer: &mut Vec<u8>, value: i32)
    ensures
        final(writer)@ == old(writer)@ + le_u32_bytes(value as u32),
{
    emit_le_u32(writer, value as u32);
}

/// `weight` where `b` holds, else 0: one flag of a bit field.
#[verifier::opaque]
pub open spec fn flag_bit(b: bool, weight: int) -> int {
    if b {
        weight
    } else {
        0
    }
}

/// The value of one flag of a bit field.
pub fn flag_u16(b: bool, weight: u16) -> (r: u16)
    ensures
        r == flag_bit(b, weight as int),
        r <= weight,
{
    proof {
        reveal(flag_bit);
    }
    if b {
        weight
    } else {
        0
    }
}

} // verus!
