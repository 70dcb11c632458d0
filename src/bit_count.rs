use vstd::prelude::*;

verus! {

/// Number of bits needed to write `v` as an unsigned integer: 0 for 0, else floor(log2(v)) + 1.
pub open spec fn u_bit_count(v: int) -> nat
    decreases v,
{
    if v <= 0 {
        0
    } else {
        1 + u_bit_count(v / 2)
    }
}

/// Number of bits needed to write `v` as a two's complement integer
/// (0 for 0, one sign bit more than the magnitude bits otherwise).
pub open spec fn i_bit_count(v: int) -> nat {
    if v == 0 {
        0
    } else if v > 0 {
        u_bit_count(v) + 1
    } else {
        u_bit_count(-v - 1) + 1
    }
}

/// Largest unsigned bit count over a sequence, 0 when it is empty.
pub open spec fn u_min_bit_count(vs: Seq<u32>) -> nat
    decreases vs.len(),
{
    if vs.len() == 0 {
        0
    } else {
        let rest = u_min_bit_count(vs.drop_last());
        let last = u_bit_count(vs.last() as int);
        if last > rest {
            last
        } else {
            rest
        }
    }
}

/// Largest signed bit count over a sequence, 0 when it is empty.
pub open spec fn i_min_bit_count(vs: Seq<i32>) -> nat
    decreases vs.len(),
{
    if vs.len() == 0 {
        0
    } else {
        let rest = i_min_bit_count(vs.drop_last());
        let last = i_bit_count(vs.last() as int);
        if last > rest {
            last
        } else {
            rest
        }
    }
}

pub proof fn lemma_u_bit_count_bound(v: int, k: nat)
    requires
        0 <= v < vstd::arithmetic::power2::pow2(k),
    ensures
        u_bit_count(v) <= k,
    decreases k,
{
    vstd::arithmetic::power2::lemma2_to64();
    if k > 0 && v > 0 {
        vstd::arithmetic::power2::lemma_pow2_unfold(k);
        lemma_u_bit_count_bound(v / 2, (k - 1) as nat);
    }
}

/// Number of bits needed for `value` as an unsigned integer.
pub fn get_u32_bit_count(value: u32) -> (r: u32)
    ensures
        r == u_bit_count(value as int),
        r <= 32,
{
    let mut rest: u32 = value;
    let mut count: u32 = 0;
    proof {
        vstd::arithmetic::power2::lemma2_to64();
        lemma_u_bit_count_bound(value as int, 32);
    }
    while rest > 0
        invariant
            count + u_bit_count(rest as int) == u_bit_count(value as int),
            u_bit_count(value as int) <= 32,
        decreases rest,
    {
        rest = rest / 2;
        count = count + 1;
    }
    count
}

/// Number of bits needed for `value` as a two's complement integer.
pub fn get_i32_bit_count(value: i32) -> (r: u32)
    ensures
        r == i_bit_count(value as int),
        r <= 32,
{
    if value == 0 {
        0
    } else if value < 0 {
        let magnitude: u32 = (-1 - value) as u32;
        proof {
            vstd::arithmetic::power2::lemma2_to64();
            lemma_u_bit_count_bound(magnitude as int, 31);
        }
        get_u32_bit_count(magnitude) + 1
    } else {
        proof {
            vstd::arithmetic::power2::lemma2_to64();
            lemma_u_bit_count_bound(value as int, 31);
        }
        get_u32_bit_count(value as u32) + 1
    }
}

/// Largest unsigned bit count over `values`.
pub fn get_u32_min_bit_count(values: &[u32]) -> (r: u32)
    ensures
        r == u_min_bit_count(values@),
        r <= 32,
{
    let mut result: u32 = 0;
    let mut i: usize = 0;
    while i < values.len()
        invariant
            i <= values@.len(),
            result == u_min_bit_count(values@.take(i as int)),
            result <= 32,
        decreases values@.len() - i,
    {
        let count = get_u32_bit_count(values[i]);
        proof {
            assert(values@.take(i + 1).drop_last() =~= values@.take(i as int));
        }
        if count > result {
            result = count;
        }
        i = i + 1;
    }
    proof {
        assert(values@.take(i as int) =~= values@);
    }
    result
}

/// Largest signed bit count over `values`.
pub fn get_i32_min_bit_count(values: &[i32]) -> (r: u32)
    ensures
        r == i_min_bit_count(values@),
        r <= 32,
{
    let mut result: u32 = 0;
    let mut i: usize = 0;
    while i < values.len()
        invariant
            i <= values@.len(),
            result == i_min_bit_count(values@.take(i as int)),
            result <= 32,
        decreases values@.len() - i,
    {
        let count = get_i32_bit_count(values[i]);
        proof {
            assert(values@.take(i + 1).drop_last() =~= values@.take(i as int));
        }
        if count > result {
            result = count;
        }
        i = i + 1;
    }
    proof {
        assert(values@.take(i as int) =~= values@);
    }
    result
}

} // verus!
