use vstd::prelude::*;

verus! {

/// Bit `i` of `b`, counted from the most significant bit.
pub open spec fn byte_bit(b: u8, i: int) -> bool {
    (b >> ((7 - i) as u8)) & 1u8 == 1u8
}

/// The eight bits of a byte, most significant first.
pub open spec fn byte_bits(b: u8) -> Seq<bool> {
    Seq::new(8, |i: int| byte_bit(b, i))
}

/// The bits of a byte string, each byte most significant bit first.
pub open spec fn bytes_bits(s: Seq<u8>) -> Seq<bool>
    decreases s.len(),
{
    if s.len() == 0 {
        Seq::empty()
    } else {
        bytes_bits(s.drop_last()) + byte_bits(s.last())
    }
}

/// The low `n` bits of `v`, most significant first.
pub open spec fn u32_bits(n: nat, v: u32) -> Seq<bool> {
    Seq::new(n, |j: int| (v >> ((n - 1 - j) as u32)) & 1u32 == 1u32)
}

/// The low `n` bits of the two's complement form of `v`, most significant first.
pub open spec fn i32_bits(n: nat, v: i32) -> Seq<bool> {
    u32_bits(n, v as u32)
}

/// `n` zero bits.
pub open spec fn zero_bits(n: nat) -> Seq<bool> {
    Seq::new(n, |j: int| false)
}

/// Number of zero bits that complete `n` bits to a whole number of bytes.
pub open spec fn padding(n: nat) -> nat {
    if n % 8 == 0 {
        0
    } else {
        (8 - n % 8) as nat
    }
}

/// The byte whose bits, most significant first, are the eight values of `b`.
pub open spec fn byte_from_bits(b: Seq<bool>) -> u8 {
    (if b[0] { 128u8 } else { 0u8 }) | (if b[1] { 64u8 } else { 0u8 }) | (if b[2] { 32u8 } else { 0u8 })
        | (if b[3] { 16u8 } else { 0u8 }) | (if b[4] { 8u8 } else { 0u8 }) | (if b[5] { 4u8 } else { 0u8 })
        | (if b[6] { 2u8 } else { 0u8 }) | (if b[7] { 1u8 } else { 0u8 })
}

/// The bytes whose bits are `p`, eight at a time.
pub open spec fn bytes_from_bits(p: Seq<bool>) -> Seq<u8>
    decreases p.len(),
{
    if p.len() < 8 {
        Seq::empty()
    } else {
        bytes_from_bits(p.take(p.len() - 8)).push(byte_from_bits(p.skip(p.len() - 8)))
    }
}

/// `bits` packed into bytes, most significant bit first, the last byte completed with zeros.
pub closed spec fn pack_bits(bits: Seq<bool>) -> Seq<u8> {
    bytes_from_bits(bits + zero_bits(padding(bits.len())))
}

pub proof fn lemma_byte_from_bits(b: Seq<bool>)
    requires
        b.len() == 8,
    ensures
        byte_bits(byte_from_bits(b)) == b,
{
    let (b0, b1, b2, b3, b4, b5, b6, b7) = (b[0], b[1], b[2], b[3], b[4], b[5], b[6], b[7]);
    let x = byte_from_bits(b);
    assert(x == (if b0 { 128u8 } else { 0u8 }) | (if b1 { 64u8 } else { 0u8 }) | (if b2 { 32u8 } else { 0u8 })
        | (if b3 { 16u8 } else { 0u8 }) | (if b4 { 8u8 } else { 0u8 }) | (if b5 { 4u8 } else { 0u8 })
        | (if b6 { 2u8 } else { 0u8 }) | (if b7 { 1u8 } else { 0u8 }));
    assert({
        &&& ((x >> 7u8) & 1u8 == 1u8) == b0
        &&& ((x >> 6u8) & 1u8 == 1u8) == b1
        &&& ((x >> 5u8) & 1u8 == 1u8) == b2
        &&& ((x >> 4u8) & 1u8 == 1u8) == b3
        &&& ((x >> 3u8) & 1u8 == 1u8) == b4
        &&& ((x >> 2u8) & 1u8 == 1u8) == b5
        &&& ((x >> 1u8) & 1u8 == 1u8) == b6
        &&& ((x >> 0u8) & 1u8 == 1u8) == b7
    }) by (bit_vector)
        requires
            x == (if b0 { 128u8 } else { 0u8 }) | (if b1 { 64u8 } else { 0u8 }) | (if b2 { 32u8 } else { 0u8 })
                | (if b3 { 16u8 } else { 0u8 }) | (if b4 { 8u8 } else { 0u8 }) | (if b5 { 4u8 } else { 0u8 })
                | (if b6 { 2u8 } else { 0u8 }) | (if b7 { 1u8 } else { 0u8 }),
    ;
    assert(byte_bits(x) =~= b);
}

pub proof fn lemma_byte_bits_injective(a: u8, b: u8)
    requires
        byte_bits(a) == byte_bits(b),
    ensures
        a == b,
{
    assert(byte_bits(a)[0] == byte_bits(b)[0]);
    assert(byte_bits(a)[0] == byte_bit(a, 0) && byte_bits(b)[0] == byte_bit(b, 0));
    assert(byte_bit(a, 0) == ((a >> 7u8) & 1u8 == 1u8));
    assert(byte_bit(b, 0) == ((b >> 7u8) & 1u8 == 1u8));
    assert(((a >> 7u8) & 1u8 == 1u8) == ((b >> 7u8) & 1u8 == 1u8));
    assert(byte_bits(a)[1] == byte_bits(b)[1]);
    assert(byte_bits(a)[1] == byte_bit(a, 1) && byte_bits(b)[1] == byte_bit(b, 1));
    assert(byte_bit(a, 1) == ((a >> 6u8) & 1u8 == 1u8));
    assert(byte_bit(b, 1) == ((b >> 6u8) & 1u8 == 1u8));
    assert(((a >> 6u8) & 1u8 == 1u8) == ((b >> 6u8) & 1u8 == 1u8));
    assert(byte_bits(a)[2] == byte_bits(b)[2]);
    assert(byte_bits(a)[2] == byte_bit(a, 2) && byte_bits(b)[2] == byte_bit(b, 2));
    assert(byte_bit(a, 2) == ((a >> 5u8) & 1u8 == 1u8));
    assert(byte_bit(b, 2) == ((b >> 5u8) & 1u8 == 1u8));
    assert(((a >> 5u8) & 1u8 == 1u8) == ((b >> 5u8) & 1u8 == 1u8));
    assert(byte_bits(a)[3] == byte_bits(b)[3]);
    assert(byte_bits(a)[3] == byte_bit(a, 3) && byte_bits(b)[3] == byte_bit(b, 3));
    assert(byte_bit(a, 3) == ((a >> 4u8) & 1u8 == 1u8));
    assert(byte_bit(b, 3) == ((b >> 4u8) & 1u8 == 1u8));
    assert(((a >> 4u8) & 1u8 == 1u8) == ((b >> 4u8) & 1u8 == 1u8));
    assert(byte_bits(a)[4] == byte_bits(b)[4]);
    assert(byte_bits(a)[4] == byte_bit(a, 4) && byte_bits(b)[4] == byte_bit(b, 4));
    assert(byte_bit(a, 4) == ((a >> 3u8) & 1u8 == 1u8));
    assert(byte_bit(b, 4) == ((b >> 3u8) & 1u8 == 1u8));
    assert(((a >> 3u8) & 1u8 == 1u8) == ((b >> 3u8) & 1u8 == 1u8));
    assert(byte_bits(a)[5] == byte_bits(b)[5]);
    assert(byte_bits(a)[5] == byte_bit(a, 5) && byte_bits(b)[5] == byte_bit(b, 5));
    assert(byte_bit(a, 5) == ((a >> 2u8) & 1u8 == 1u8));
    assert(byte_bit(b, 5) == ((b >> 2u8) & 1u8 == 1u8));
    assert(((a >> 2u8) & 1u8 == 1u8) == ((b >> 2u8) & 1u8 == 1u8));
    assert(byte_bits(a)[6] == byte_bits(b)[6]);
    assert(byte_bits(a)[6] == byte_bit(a, 6) && byte_bits(b)[6] == byte_bit(b, 6));
    assert(byte_bit(a, 6) == ((a >> 1u8) & 1u8 == 1u8));
    assert(byte_bit(b, 6) == ((b >> 1u8) & 1u8 == 1u8));
    assert(((a >> 1u8) & 1u8 == 1u8) == ((b >> 1u8) & 1u8 == 1u8));
    assert(byte_bits(a)[7] == byte_bits(b)[7]);
    assert(byte_bits(a)[7] == byte_bit(a, 7) && byte_bits(b)[7] == byte_bit(b, 7));
    assert(byte_bit(a, 7) == ((a >> 0u8) & 1u8 == 1u8));
    assert(byte_bit(b, 7) == ((b >> 0u8) & 1u8 == 1u8));
    assert(((a >> 0u8) & 1u8 == 1u8) == ((b >> 0u8) & 1u8 == 1u8));
    assert(a == b) by (bit_vector)
        requires
            ((a >> 7u8) & 1u8 == 1u8) == ((b >> 7u8) & 1u8 == 1u8),
            ((a >> 6u8) & 1u8 == 1u8) == ((b >> 6u8) & 1u8 == 1u8),
            ((a >> 5u8) & 1u8 == 1u8) == ((b >> 5u8) & 1u8 == 1u8),
            ((a >> 4u8) & 1u8 == 1u8) == ((b >> 4u8) & 1u8 == 1u8),
            ((a >> 3u8) & 1u8 == 1u8) == ((b >> 3u8) & 1u8 == 1u8),
            ((a >> 2u8) & 1u8 == 1u8) == ((b >> 2u8) & 1u8 == 1u8),
            ((a >> 1u8) & 1u8 == 1u8) == ((b >> 1u8) & 1u8 == 1u8),
            ((a >> 0u8) & 1u8 == 1u8) == ((b >> 0u8) & 1u8 == 1u8),
    ;
}

pub proof fn lemma_bytes_from_bits(p: Seq<bool>)
    requires
        p.len() % 8 == 0,
    ensures
        bytes_bits(bytes_from_bits(p)) == p,
        bytes_from_bits(p).len() == p.len() / 8,
    decreases p.len(),
{
    if p.len() < 8 {
        assert(p =~= Seq::<bool>::empty());
    } else {
        let q = p.take(p.len() - 8);
        lemma_bytes_from_bits(q);
        lemma_byte_from_bits(p.skip(p.len() - 8));
        lemma_bytes_bits_push(bytes_from_bits(q), byte_from_bits(p.skip(p.len() - 8)));
        assert(q + p.skip(p.len() - 8) =~= p);
    }
}

pub proof fn lemma_bytes_bits_injective(a: Seq<u8>, b: Seq<u8>)
    requires
        bytes_bits(a) == bytes_bits(b),
    ensures
        a == b,
    decreases a.len(),
{
    lemma_bytes_bits_len(a);
    lemma_bytes_bits_len(b);
    if a.len() == 0 {
        assert(a =~= b);
    } else {
        let n = 8 * (a.len() - 1);
        lemma_bytes_bits_len(a.drop_last());
        lemma_bytes_bits_len(b.drop_last());
        assert(bytes_bits(a).take(n) =~= bytes_bits(a.drop_last()));
        assert(bytes_bits(b).take(n) =~= bytes_bits(b.drop_last()));
        assert(bytes_bits(a).skip(n) =~= byte_bits(a.last()));
        assert(bytes_bits(b).skip(n) =~= byte_bits(b.last()));
        lemma_byte_bits_injective(a.last(), b.last());
        lemma_bytes_bits_injective(a.drop_last(), b.drop_last());
        assert(a =~= a.drop_last().push(a.last()));
        assert(b =~= b.drop_last().push(b.last()));
    }
}

/// Bytes whose bits are `bits` and then the zero bits that complete the last byte are the
/// packed form of `bits`.
pub proof fn lemma_pack_bits_unique(bytes: Seq<u8>, bits: Seq<bool>)
    requires
        bytes_bits(bytes) == bits + zero_bits(padding(bits.len())),
    ensures
        bytes == pack_bits(bits),
        bytes.len() == (bits.len() + 7) / 8,
{
    let p = bits + zero_bits(padding(bits.len()));
    assert(p.len() % 8 == 0) by {
        let n = bits.len() as int;
        assert(p.len() == n + padding(n as nat));
    }
    lemma_bytes_from_bits(p);
    lemma_bytes_bits_injective(bytes, bytes_from_bits(p));
    assert(p.len() == bits.len() + padding(bits.len()));
}

/// The packed form of `bits` holds them, then the zero bits that complete the last byte.
pub proof fn lemma_pack_bits(bits: Seq<bool>)
    ensures
        bytes_bits(pack_bits(bits)) == bits + zero_bits(padding(bits.len())),
        pack_bits(bits).len() == (bits.len() + 7) / 8,
{
    let p = bits + zero_bits(padding(bits.len()));
    assert(p.len() % 8 == 0) by {
        let n = bits.len() as int;
        assert(p.len() == n + padding(n as nat));
    }
    lemma_bytes_from_bits(p);
    assert(p.len() == bits.len() + padding(bits.len()));
}

pub proof fn lemma_bytes_bits_push(s: Seq<u8>, b: u8)
    ensures
        bytes_bits(s.push(b)) == bytes_bits(s) + byte_bits(b),
{
    assert(s.push(b).drop_last() =~= s);
}

pub proof fn lemma_bytes_bits_len(s: Seq<u8>)
    ensures
        bytes_bits(s).len() == 8 * s.len(),
    decreases s.len(),
{
    if s.len() > 0 {
        lemma_bytes_bits_len(s.drop_last());
    }
}

pub proof fn lemma_bytes_bits_append(s: Seq<u8>, t: Seq<u8>)
    ensures
        bytes_bits(s + t) == bytes_bits(s) + bytes_bits(t),
    decreases t.len(),
{
    if t.len() == 0 {
        assert(s + t =~= s);
        assert(bytes_bits(s) + bytes_bits(t) =~= bytes_bits(s));
    } else {
        lemma_bytes_bits_append(s, t.drop_last());
        assert((s + t).drop_last() =~= s + t.drop_last());
        assert(bytes_bits(s) + bytes_bits(t.drop_last()) + byte_bits(t.last()) =~= bytes_bits(s)
            + (bytes_bits(t.drop_last()) + byte_bits(t.last())));
    }
}

/// Writes values bit by bit, most significant bit first, into a byte buffer.
pub struct BitsWriter {
    bit: u32,
    buffer: u8,
    inner: Vec<u8>,
}

impl BitsWriter {
    /// The bits written so far.
    pub closed spec fn view(&self) -> Seq<bool> {
        bytes_bits(self.inner@) + byte_bits(self.buffer).take(self.bit as int)
    }

    /// The partial byte holds `bit` bits, and zeros after them.
    pub closed spec fn wf(&self) -> bool {
        &&& self.bit < 8
        &&& forall|i: int| self.bit <= i < 8 ==> !byte_bit(self.buffer, i)
    }

    /// No partial byte is pending.
    pub closed spec fn aligned(&self) -> bool {
        self.bit == 0
    }

    /// A writer that appends to `inner`.
    pub fn new(inner: Vec<u8>) -> (r: BitsWriter)
        ensures
            r.wf(),
            r@ == bytes_bits(inner@),
    {
        let r = BitsWriter { bit: 0, buffer: 0, inner };
        proof {
            assert forall|i: int| 0 <= i < 8 implies !byte_bit(0u8, i) by {
                let k = (7 - i) as u8;
                assert((0u8 >> k) & 1u8 == 0u8) by (bit_vector);
            }
            assert(byte_bits(0u8).take(0) =~= Seq::<bool>::empty());
            assert(r@ =~= bytes_bits(inner@));
        }
        r
    }

    /// Completes the partial byte with zero bits and hands over the bytes.
    pub fn into_inner(self) -> (r: Vec<u8>)
        requires
            self.wf(),
        ensures
            bytes_bits(r@) == self@ + zero_bits(padding(self@.len())),
    {
        let mut w = self;
        w.align();
        proof {
            assert(byte_bits(w.buffer).take(0) =~= Seq::<bool>::empty());
            assert(w@ =~= bytes_bits(w.inner@));
        }
        w.inner
    }

    /// Writes the partial byte, if any, completed with zero bits.
    pub fn align(&mut self)
        requires
            old(self).wf(),
        ensures
            final(self).wf(),
            final(self).aligned(),
            final(self)@ == old(self)@ + zero_bits(padding(old(self)@.len())),
    {
        proof {
            lemma_bytes_bits_len(self.inner@);
        }
        if self.bit != 0 {
            let b = self.buffer;
            self.inner.push(b);
            proof {
                lemma_bytes_bits_push(old(self).inner@, b);
                let n = old(self).bit as int;
                let total = old(self)@.len() as int;
                let whole = old(self).inner@.len() as int;
                assert(total % 8 == n) by (nonlinear_arith)
                    requires
                        total == 8 * whole + n,
                        0 <= n < 8,
                ;
                assert(byte_bits(b) =~= byte_bits(b).take(n) + zero_bits(padding(
                    old(self)@.len(),
                )));
            }
            self.bit = 0;
            self.buffer = 0;
        } else {
            proof {
                let total = old(self)@.len() as int;
                let whole = old(self).inner@.len() as int;
                assert(total % 8 == 0) by (nonlinear_arith)
                    requires
                        total == 8 * whole,
                ;
            }
        }
        proof {
            assert forall|i: int| 0 <= i < 8 implies !byte_bit(self.buffer, i) by {
                let k = (7 - i) as u8;
                assert((0u8 >> k) & 1u8 == 0u8) by (bit_vector);
            }
            assert(byte_bits(self.buffer).take(0) =~= Seq::<bool>::empty());
            assert(self@ =~= old(self)@ + zero_bits(padding(old(self)@.len())));
        }
    }

    /// Writes one bit.
    pub fn write_bool_bits(&mut self, value: bool)
        requires
            old(self).wf(),
        ensures
            final(self).wf(),
            final(self)@ == old(self)@.push(value),
    {
        let k: u8 = self.bit as u8;
        let b: u8 = self.buffer;
        let sh: u8 = 7 - k;
        let nb: u8 = if value {
            b | (1u8 << sh)
        } else {
            b
        };
        proof {
            assert forall|i: int| 0 <= i < 8 implies byte_bit(nb, i) == (if i < k {
                byte_bit(b, i)
            } else if i == k {
                value
            } else {
                false
            }) by {
                let ii = i as u8;
                let j = (7 - i) as u8;
                assert(!byte_bit(b, k as int));
                if i > k {
                    assert(!byte_bit(b, i));
                }
                if value {
                    assert(ii < k ==> (b | (1u8 << sh)) >> j & 1u8 == b >> j & 1u8) by (bit_vector)
                        requires
                            j + ii == 7,
                            sh + k == 7,
                            k < 8,
                            ii < 8,
                    ;
                    assert(ii == k ==> (b | (1u8 << sh)) >> j & 1u8 == 1u8) by (bit_vector)
                        requires
                            j + ii == 7,
                            sh + k == 7,
                            k < 8,
                            ii < 8,
                    ;
                    assert(ii > k && b >> j & 1u8 != 1u8 ==> (b | (1u8 << sh)) >> j & 1u8 != 1u8)
                        by (bit_vector)
                        requires
                            j + ii == 7,
                            sh + k == 7,
                            k < 8,
                            ii < 8,
                    ;
                }
            }
            assert(byte_bits(nb).take(k + 1) =~= byte_bits(b).take(k as int).push(value));
        }
        self.buffer = nb;
        self.bit = self.bit + 1;
        if self.bit == 8 {
            self.inner.push(nb);
            proof {
                lemma_bytes_bits_push(old(self).inner@, nb);
                assert(byte_bits(nb).take(8) =~= byte_bits(nb));
            }
            self.bit = 0;
            self.buffer = 0;
            proof {
                assert forall|i: int| 0 <= i < 8 implies !byte_bit(0u8, i) by {
                    let j = (7 - i) as u8;
                    assert((0u8 >> j) & 1u8 == 0u8) by (bit_vector);
                }
                assert(byte_bits(0u8).take(0) =~= Seq::<bool>::empty());
                assert(self@ =~= old(self)@.push(value));
            }
        } else {
            proof {
                assert(self@ =~= old(self)@.push(value));
            }
        }
    }

    /// Writes the low `bits` bits of `value`, most significant first.
    pub fn write_u32_bits(&mut self, bits: u32, value: u32)
        requires
            old(self).wf(),
            bits <= 32,
        ensures
            final(self).wf(),
            final(self)@ == old(self)@ + u32_bits(bits as nat, value),
    {
        let mut k: u32 = bits;
        while k > 0
            invariant
                self.wf(),
                k <= bits <= 32,
                self@ == old(self)@ + u32_bits(bits as nat, value).take(bits - k),
            decreases k,
        {
            let bit: bool = (value >> (k - 1)) & 1 == 1;
            self.write_bool_bits(bit);
            proof {
                assert(u32_bits(bits as nat, value).take(bits - k + 1) =~= u32_bits(
                    bits as nat,
                    value,
                ).take(bits - k).push(bit));
            }
            k = k - 1;
        }
        proof {
            assert(u32_bits(bits as nat, value).take(bits as int) =~= u32_bits(bits as nat, value));
        }
    }

    /// Writes the low `bits` bits of the two's complement form of `value`.
    pub fn write_i32_bits(&mut self, bits: u32, value: i32)
        requires
            old(self).wf(),
            bits <= 32,
        ensures
            final(self).wf(),
            final(self)@ == old(self)@ + i32_bits(bits as nat, value),
    {
        self.write_u32_bits(bits, value as u32);
    }

    /// Aligns the writer, then writes whole bytes.
    pub fn write_bytes(&mut self, bytes: &[u8])
        requires
            old(self).wf(),
        ensures
            final(self).wf(),
            final(self)@ == old(self)@ + zero_bits(padding(old(self)@.len())) + bytes_bits(bytes@),
    {
        self.align();
        let ghost mid = self.inner@;
        proof {
            assert(byte_bits(self.buffer).take(0) =~= Seq::<bool>::empty());
            assert(self@ =~= bytes_bits(mid));
        }
        let mut i: usize = 0;
        while i < bytes.len()
            invariant
                i <= bytes@.len(),
                self.inner@ == mid + bytes@.take(i as int),
                self.bit == 0,
                self.wf(),
            decreases bytes@.len() - i,
        {
            self.inner.push(bytes[i]);
            proof {
                assert(mid + bytes@.take(i + 1) =~= (mid + bytes@.take(i as int)).push(bytes@[i as int]));
            }
            i = i + 1;
        }
        proof {
            assert(bytes@.take(i as int) =~= bytes@);
            assert(byte_bits(self.buffer).take(0) =~= Seq::<bool>::empty());
            lemma_bytes_bits_append(mid, bytes@);
            assert(self@ =~= old(self)@ + zero_bits(padding(old(self)@.len())) + bytes_bits(bytes@));
        }
    }
}

/// A sink of bits, most significant bit first within each byte.
pub trait WriteBits {
    /// The bits written so far.
    spec fn written(&self) -> Seq<bool>;

    /// The sink is in a state where it takes writes.
    spec fn ready(&self) -> bool;

    /// Completes the current byte with zero bits.
    fn align(&mut self)
        requires
            old(self).ready(),
        ensures
            final(self).ready(),
            final(self).written() == old(self).written() + zero_bits(padding(old(self).written().len())),
    ;

    fn write_bool_bits(&mut self, value: bool)
        requires
            old(self).ready(),
        ensures
            final(self).ready(),
            final(self).written() == old(self).written().push(value),
    ;

    /// Writes the low `bits` bits of the two's complement form of `value`.
    fn write_i32_bits(&mut self, bits: u32, value: i32)
        requires
            old(self).ready(),
            bits <= 32,
        ensures
            final(self).ready(),
            final(self).written() == old(self).written() + i32_bits(bits as nat, value),
    ;

    /// Writes the low `bits` bits of `value`.
    fn write_u32_bits(&mut self, bits: u32, value: u32)
        requires
            old(self).ready(),
            bits <= 32,
        ensures
            final(self).ready(),
            final(self).written() == old(self).written() + u32_bits(bits as nat, value),
    ;

    /// Aligns the sink, then writes whole bytes.
    fn write_bytes(&mut self, bytes: &[u8])
        requires
            old(self).ready(),
        ensures
            final(self).ready(),
            final(self).written() == old(self).written() + zero_bits(padding(old(self).written().len()))
                + bytes_bits(bytes@),
    ;
}

impl WriteBits for BitsWriter {
    open spec fn written(&self) -> Seq<bool> {
        self@
    }

    open spec fn ready(&self) -> bool {
        self.wf()
    }

    fn align(&mut self) {
        BitsWriter::align(self);
    }

    fn write_bool_bits(&mut self, value: bool) {
        BitsWriter::write_bool_bits(self, value);
    }

    fn write_i32_bits(&mut self, bits: u32, value: i32) {
        BitsWriter::write_i32_bits(self, bits, value);
    }

    fn write_u32_bits(&mut self, bits: u32, value: u32) {
        BitsWriter::write_u32_bits(self, bits, value);
    }

    fn write_bytes(&mut self, bytes: &[u8]) {
        BitsWriter::write_bytes(self, bytes);
    }
}

} // verus!
