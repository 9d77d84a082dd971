//! Exact single-precision encodings of the small dyadic values that the packed
//! buffers hold (grid coordinates, rotation entries, atlas tiles, half-unit corners).
use vstd::prelude::*;

verus! {

/// Largest magnitude (exclusive) of a numerator that single precision holds exactly.
pub const F32_EXACT_LIMIT: i64 = 0x100_0000;

/// `2^e`.
pub open spec fn two_to(e: nat) -> nat
    decreases e,
{
    if e == 0 {
        1
    } else {
        2 * two_to((e - 1) as nat)
    }
}

/// Position of the highest set bit of `m` (0 for `m < 2`).
pub open spec fn top_bit(m: nat) -> nat
    decreases m,
{
    if m < 2 {
        0
    } else {
        1 + top_bit(m / 2)
    }
}

/// The IEEE-754 single-precision bit pattern of `n / 2^k`, for `|n| < 2^24` and
/// `k <= 126`: the sign bit, the biased exponent, and the bits of `|n|` below its
/// leading one, left-aligned in the 23-bit fraction. Zero is all zero bits.
pub open spec fn f32_bits(n: int, k: nat) -> int {
    if n == 0 {
        0
    } else {
        let m = if n < 0 {
            -n
        } else {
            n
        };
        let e = top_bit(m as nat);
        (if n < 0 {
            0x8000_0000int
        } else {
            0
        }) + (127 + e - k) * 0x80_0000 + (m - two_to(e)) * two_to((23 - e) as nat)
    }
}

proof fn lemma_two_to_23()
    ensures
        two_to(23) == 0x80_0000,
{
    reveal_with_fuel(two_to, 24);
}

proof fn lemma_two_to_monotonic(a: nat, b: nat)
    requires
        a <= b,
    ensures
        two_to(a) <= two_to(b),
    decreases b,
{
    if a < b {
        lemma_two_to_monotonic(a, (b - 1) as nat);
    }
}

proof fn lemma_top_bit(m: nat, e: nat)
    requires
        two_to(e) <= m < 2 * two_to(e),
    ensures
        top_bit(m) == e,
    decreases e,
{
    if e > 0 {
        lemma_top_bit(m / 2, (e - 1) as nat);
    }
}

/// The bit pattern of the single-precision value `n / 2^k`.
pub fn f32_bits_of(n: i64, k: u32) -> (r: u32)
    requires
        -F32_EXACT_LIMIT < n < F32_EXACT_LIMIT,
        k <= 126,
    ensures
        r == f32_bits(n as int, k as nat),
{
    if n == 0 {
        return 0;
    }
    let m: u64 = if n < 0 {
        (-n) as u64
    } else {
        n as u64
    };
    proof {
        lemma_two_to_23();
    }
    let mut p: u64 = 0x80_0000;
    let mut e: u64 = 23;
    while p > m
        invariant
            1 <= m < 0x100_0000,
            e <= 23,
            p == two_to(e as nat),
            m < 2 * p,
        decreases e,
    {
        assert(e > 0);
        p = p / 2;
        e = e - 1;
    }
    proof {
        lemma_top_bit(m as nat, e as nat);
    }
    let mut frac: u64 = m - p;
    let mut j: u64 = e;
    assert(two_to((j - e) as nat) == 1) by {
        assert(j - e == 0);
        reveal_with_fuel(two_to, 1);
    }
    assert(frac == (m - p) * two_to((j - e) as nat)) by (nonlinear_arith)
        requires
            frac == m - p,
            two_to((j - e) as nat) == 1,
    ;
    while j < 23
        invariant
            e <= j <= 23,
            p == two_to(e as nat),
            p <= m < 2 * p,
            frac == (m - p) * two_to((j - e) as nat),
            frac < two_to(j as nat),
            two_to(23) == 0x80_0000,
        decreases 23 - j,
    {
        proof {
            lemma_two_to_monotonic((j + 1) as nat, 23);
        }
        assert(two_to((j + 1 - e) as nat) == 2 * two_to((j - e) as nat));
        assert(two_to((j + 1) as nat) == 2 * two_to(j as nat));
        assert((m - p) * two_to((j + 1 - e) as nat) == 2 * ((m - p) * two_to((j - e) as nat)))
            by (nonlinear_arith)
            requires
                two_to((j + 1 - e) as nat) == 2 * two_to((j - e) as nat),
        ;
        frac = frac * 2;
        j = j + 1;
    }
    let sign: u64 = if n < 0 {
        0x8000_0000
    } else {
        0
    };
    let bits = sign + (127 + e - k as u64) * 0x80_0000 + frac;
    bits as u32
}

} // verus!
