//! Parameter ranges and the conversion between normalised and raw values.
//!
//! A normalised value is an integer in `[0, NORM_ONE]` standing for a
//! fraction of full scale. A raw value is kept as an exact numerator over
//! the denominator `NORM_ONE^factor`, so that converting a normalised value
//! to a raw value and back loses nothing.

use vstd::prelude::*;

verus! {

use vstd::arithmetic::power::pow;
use vstd::arithmetic::power::lemma_pow_increases;
use vstd::arithmetic::div_mod::lemma_div_multiples_vanish;
use vstd::arithmetic::div_mod::lemma_div_is_ordered;

/// A normalised value of one, in micro-units.
pub const NORM_ONE: u32 = 1_000_000;

/// A parameter's raw range and the shape of its normalised mapping.
///
/// `Linear` maps a normalised value affinely onto `[min, max]`.
/// `Skewed` first raises the normalised fraction to the integer power
/// `factor`, giving finer control near `min`; it is the shape used for
/// the gain parameter, whose raw unit is milli-decibels.
pub enum Range {
    Linear { min: i64, max: i64 },
    Skewed { min: i64, max: i64, factor: u32 },
}

impl Range {
    pub open spec fn min_spec(&self) -> int {
        match *self {
            Range::Linear { min, .. } => min as int,
            Range::Skewed { min, .. } => min as int,
        }
    }

    pub open spec fn max_spec(&self) -> int {
        match *self {
            Range::Linear { max, .. } => max as int,
            Range::Skewed { max, .. } => max as int,
        }
    }

    /// The exponent applied to the normalised fraction; `1` for `Linear`.
    pub open spec fn factor_spec(&self) -> nat {
        match *self {
            Range::Linear { .. } => 1nat,
            Range::Skewed { factor, .. } => factor as nat,
        }
    }

    /// Denominator of raw numerators for this range.
    pub open spec fn den(&self) -> int {
        pow(NORM_ONE as int, self.factor_spec())
    }

    pub open spec fn wf(&self) -> bool {
        &&& self.min_spec() < self.max_spec()
        &&& -1_000_000_000 <= self.min_spec()
        &&& self.max_spec() <= 1_000_000_000
        &&& 1 <= self.factor_spec() <= 4
    }

    /// Lowest raw numerator of the range.
    pub open spec fn lo(&self) -> int {
        self.min_spec() * self.den()
    }

    /// Highest raw numerator of the range.
    pub open spec fn hi(&self) -> int {
        self.max_spec() * self.den()
    }
}

/// Raw numerator for the normalised value `v`:
/// `min * den + v^factor * (max - min)`, over the denominator `den`.
pub open spec fn spec_denorm(r: Range, v: int) -> int {
    r.lo() + pow(v, r.factor_spec()) * (r.max_spec() - r.min_spec())
}

/// The integer `factor`-th root: the unique `v` with
/// `v^k <= n < (v+1)^k` (for `k >= 1` and `n >= 0`).
pub open spec fn spec_root(n: int, k: nat) -> int {
    choose|v: int| 0 <= v && #[trigger] pow(v, k) <= n < pow(v + 1, k)
}

/// Normalised value for the raw numerator `num`: the `factor`-th root of
/// the (truncated) normalised fraction `(num - min * den) / (max - min)`.
pub open spec fn spec_norm(r: Range, num: int) -> int {
    spec_root((num - r.lo()) / (r.max_spec() - r.min_spec()), r.factor_spec())
}

/// Raising to a power keeps order of non-negative bases.
pub proof fn lemma_pow_base_le(a: int, b: int, k: nat)
    requires
        0 <= a <= b,
    ensures
        pow(a, k) <= pow(b, k),
    decreases k,
{
    reveal(pow);
    if k > 0 {
        lemma_pow_base_le(a, b, (k - 1) as nat);
        assert(pow(a, (k - 1) as nat) >= 0) by {
            lemma_pow_nonneg(a, (k - 1) as nat);
        }
        assert(a * pow(a, (k - 1) as nat) <= b * pow(b, (k - 1) as nat)) by (nonlinear_arith)
            requires
                0 <= a <= b,
                0 <= pow(a, (k - 1) as nat) <= pow(b, (k - 1) as nat),
        {}
    }
}

/// A power of a non-negative base is non-negative.
pub proof fn lemma_pow_nonneg(a: int, k: nat)
    requires
        0 <= a,
    ensures
        0 <= pow(a, k),
    decreases k,
{
    reveal(pow);
    if k > 0 {
        lemma_pow_nonneg(a, (k - 1) as nat);
        assert(0 <= a * pow(a, (k - 1) as nat)) by (nonlinear_arith)
            requires
                0 <= a,
                0 <= pow(a, (k - 1) as nat),
        {}
    }
}

/// Raising to a positive power keeps strict order of non-negative bases.
pub proof fn lemma_pow_base_lt(a: int, b: int, k: nat)
    requires
        0 <= a < b,
        1 <= k,
    ensures
        pow(a, k) < pow(b, k),
    decreases k,
{
    reveal(pow);
    if k == 1 {
        assert(pow(a, 1) == a * pow(a, 0));
        assert(pow(b, 1) == b * pow(b, 0));
    } else {
        lemma_pow_base_lt(a, b, (k - 1) as nat);
        lemma_pow_nonneg(a, (k - 1) as nat);
        assert(a * pow(a, (k - 1) as nat) < b * pow(b, (k - 1) as nat)) by (nonlinear_arith)
            requires
                0 <= a < b,
                0 <= pow(a, (k - 1) as nat) < pow(b, (k - 1) as nat),
        {}
    }
}

/// The integer root is unique: any witness equals `spec_root`.
pub proof fn lemma_root_unique(n: int, k: nat, v: int)
    requires
        1 <= k,
        0 <= v,
        pow(v, k) <= n < pow(v + 1, k),
    ensures
        spec_root(n, k) == v,
{
    let w = spec_root(n, k);
    assert(0 <= w && pow(w, k) <= n < pow(w + 1, k)) by {
        assert(0 <= v && pow(v, k) <= n < pow(v + 1, k));
    }
    if w < v {
        lemma_pow_base_le(w + 1, v, k);
        assert(false);
    }
    if v < w {
        lemma_pow_base_le(v + 1, w, k);
        assert(false);
    }
}

/// Concrete powers of `NORM_ONE`, by unfolding.
pub proof fn lemma_pow_norm_one()
    ensures
        pow(1_000_000, 1) == 1_000_000,
        pow(1_000_000, 2) == 1_000_000_000_000,
        pow(1_000_000, 3) == 1_000_000_000_000_000_000,
        pow(1_000_000, 4) == 1_000_000_000_000_000_000_000_000,
{
    reveal(pow);
    assert(pow(1_000_000, 0) == 1);
    assert(pow(1_000_000, 1) == 1_000_000 * pow(1_000_000, 0));
    assert(pow(1_000_000, 2) == 1_000_000 * pow(1_000_000, 1));
    assert(pow(1_000_000, 3) == 1_000_000 * pow(1_000_000, 2));
    assert(pow(1_000_000, 4) == 1_000_000 * pow(1_000_000, 3));
}

/// Concrete powers of `2_000_000`, by unfolding.
proof fn lemma_pow_two_million()
    ensures
        pow(2_000_000, 3) == 8_000_000_000_000_000_000,
{
    reveal(pow);
    assert(pow(2_000_000, 0) == 1);
    assert(pow(2_000_000, 1) == 2_000_000 * pow(2_000_000, 0));
    assert(pow(2_000_000, 2) == 2_000_000 * pow(2_000_000, 1));
    assert(pow(2_000_000, 3) == 2_000_000 * pow(2_000_000, 2));
}

/// `b` raised to the `k`-th power, exactly.
pub fn pow_u(b: u32, k: u32) -> (r: u128)
    requires
        b <= 2_000_000,
        k <= 4,
    ensures
        r == pow(b as int, k as nat),
{
    let mut acc: u128 = 1;
    let mut i: u32 = 0;
    proof {
        reveal(pow);
    }
    while i < k
        invariant
            i <= k <= 4,
            b <= 2_000_000,
            acc == pow(b as int, i as nat),
        decreases k - i,
    {
        proof {
            reveal(pow);
            lemma_pow_base_le(b as int, 2_000_000, i as nat);
            lemma_pow_increases(2_000_000, i as nat, 3);
            lemma_pow_two_million();
            lemma_pow_nonneg(b as int, i as nat);
            assert(pow(b as int, (i + 1) as nat) == (b as int) * pow(b as int, i as nat));
            assert((acc as int) * (b as int) == (b as int) * (acc as int)) by (nonlinear_arith) {}
            assert((acc as int) * (b as int) <= 2_000_000 * 8_000_000_000_000_000_000)
                by (nonlinear_arith)
                requires
                    0 <= acc as int <= 8_000_000_000_000_000_000,
                    0 <= b as int <= 2_000_000,
            {}
        }
        acc = acc * (b as u128);
        i = i + 1;
    }
    acc
}

/// Largest `r` with `r^k <= n`, by binary search.
pub fn kth_root(n: u128, k: u32) -> (r: u32)
    requires
        1 <= k <= 4,
        n <= pow(NORM_ONE as int, k as nat),
    ensures
        r <= NORM_ONE,
        pow(r as int, k as nat) <= n < pow(r as int + 1, k as nat),
{
    let mut lo: u32 = 0;
    let mut hi: u32 = NORM_ONE;
    proof {
        assert(pow(0, k as nat) == 0) by {
            reveal(pow);
            lemma_pow_nonneg(0, (k - 1) as nat);
            assert(pow(0, k as nat) == 0 * pow(0, (k - 1) as nat));
        }
        lemma_pow_base_lt(NORM_ONE as int, NORM_ONE as int + 1, k as nat);
        lemma_pow_base_le(NORM_ONE as int, NORM_ONE as int, k as nat);
    }
    while lo < hi
        invariant
            1 <= k <= 4,
            lo <= hi <= NORM_ONE,
            pow(lo as int, k as nat) <= n,
            n < pow(hi as int + 1, k as nat),
        decreases hi - lo,
    {
        let mid: u32 = lo + (hi - lo + 1) / 2;
        let p: u128 = pow_u(mid, k);
        if p <= n {
            lo = mid;
        } else {
            hi = mid - 1;
        }
    }
    lo
}

/// Raw numerator for the normalised value `v` in range `r`.
pub fn denormalize(r: &Range, v: u32) -> (num: i128)
    requires
        r.wf(),
        v <= NORM_ONE,
    ensures
        num == spec_denorm(*r, v as int),
        r.lo() <= num <= r.hi(),
{
    let (min, max, factor): (i64, i64, u32) = match *r {
        Range::Linear { min, max } => (min, max, 1),
        Range::Skewed { min, max, factor } => (min, max, factor),
    };
    let den: u128 = pow_u(NORM_ONE, factor);
    let p: u128 = pow_u(v, factor);
    proof {
        lemma_pow_base_le(v as int, NORM_ONE as int, factor as nat);
        lemma_pow_increases(NORM_ONE as nat, factor as nat, 4);
        lemma_pow_norm_one();
        lemma_pow_nonneg(v as int, factor as nat);
        assert((p as int) * ((max - min) as int) <= (den as int) * ((max - min) as int))
            by (nonlinear_arith)
            requires
                0 <= p as int <= den as int,
                0 < (max - min) as int,
        {}
        assert(0 <= (p as int) * ((max - min) as int)) by (nonlinear_arith)
            requires
                0 <= p as int,
                0 < (max - min) as int,
        {}
        assert((min as int) * (den as int) + (den as int) * ((max - min) as int)
            == (max as int) * (den as int)) by (nonlinear_arith)
        {}
        assert(-1_000_000_000_000_000_000_000_000_000_000_000
            <= (min as int) * (den as int)
            <= 1_000_000_000_000_000_000_000_000_000_000_000) by (nonlinear_arith)
            requires
                -1_000_000_000 <= min as int <= 1_000_000_000,
                0 < den as int <= 1_000_000_000_000_000_000_000_000,
        {}
        assert((max as int) * (den as int)
            <= 1_000_000_000_000_000_000_000_000_000_000_000) by (nonlinear_arith)
            requires
                max as int <= 1_000_000_000,
                0 < den as int <= 1_000_000_000_000_000_000_000_000,
        {}
    }
    (min as i128) * (den as i128) + (p as i128) * ((max as i128) - (min as i128))
}

/// Normalised value for the raw numerator `num` in range `r`.
pub fn normalize(r: &Range, num: i128) -> (v: u32)
    requires
        r.wf(),
        r.lo() <= num <= r.hi(),
    ensures
        v <= NORM_ONE,
        v as int == spec_norm(*r, num as int),
{
    let (min, max, factor): (i64, i64, u32) = match *r {
        Range::Linear { min, max } => (min, max, 1),
        Range::Skewed { min, max, factor } => (min, max, factor),
    };
    let den: u128 = pow_u(NORM_ONE, factor);
    proof {
        lemma_pow_increases(NORM_ONE as nat, factor as nat, 4);
        lemma_pow_norm_one();
        lemma_pow_increases(NORM_ONE as nat, 1, factor as nat);
        assert((min as int) * (den as int) + (den as int) * ((max - min) as int)
            == (max as int) * (den as int)) by (nonlinear_arith)
        {}
        assert(-1_000_000_000_000_000_000_000_000_000_000_000
            <= (min as int) * (den as int)
            <= 1_000_000_000_000_000_000_000_000_000_000_000) by (nonlinear_arith)
            requires
                -1_000_000_000 <= min as int <= 1_000_000_000,
                0 < den as int <= 1_000_000_000_000_000_000_000_000,
        {}
        assert((den as int) * ((max - min) as int)
            <= 2_000_000_000_000_000_000_000_000_000_000_000) by (nonlinear_arith)
            requires
                0 < (max - min) as int <= 2_000_000_000,
                0 < den as int <= 1_000_000_000_000_000_000_000_000,
        {}
    }
    let diff: i128 = num - (min as i128) * (den as i128);
    let span: i128 = (max as i128) - (min as i128);
    let q: i128 = diff / span;
    proof {
        assert(diff as int <= (den as int) * (span as int));
        lemma_div_is_ordered(diff as int, (den as int) * (span as int), span as int);
        lemma_div_multiples_vanish(den as int, span as int);
        assert((den as int) * (span as int) == (span as int) * (den as int))
            by (nonlinear_arith)
        {}
        lemma_div_nonneg(diff as int, span as int);
    }
    let root: u32 = kth_root(q as u128, factor);
    proof {
        lemma_root_unique(q as int, factor as nat, root as int);
    }
    root
}

/// Division truncating toward zero, as the machine's signed division does.
pub open spec fn div_trunc(a: int, d: int) -> int {
    if a >= 0 { a / d } else { -((-a) / d) }
}

/// Truncating integer division keeps non-negative values non-negative.
pub proof fn lemma_div_nonneg(a: int, d: int)
    requires
        0 <= a,
        0 < d,
    ensures
        0 <= a / d,
{
    lemma_div_is_ordered(0, a, d);
}

/// The normalised-to-raw map is monotonic: a larger normalised value
/// never yields a smaller raw value, whatever the range kind.
pub proof fn lemma_denormalize_monotone(r: Range, v1: int, v2: int)
    requires
        r.wf(),
        0 <= v1 <= v2 <= NORM_ONE,
    ensures
        spec_denorm(r, v1) <= spec_denorm(r, v2),
{
    let k = r.factor_spec();
    let span = r.max_spec() - r.min_spec();
    lemma_pow_base_le(v1, v2, k);
    lemma_pow_nonneg(v1, k);
    assert(pow(v1, k) * span <= pow(v2, k) * span) by (nonlinear_arith)
        requires
            0 <= pow(v1, k) <= pow(v2, k),
            0 < span,
    {}
}

/// Round-trip law: for every well-formed range and every normalised value
/// `v` in `[0, NORM_ONE]`, converting `v` to a raw numerator and back
/// yields `v` exactly, whatever the range kind.
pub proof fn lemma_normalize_denormalize(r: Range, v: int)
    requires
        r.wf(),
        0 <= v <= NORM_ONE,
    ensures
        spec_norm(r, spec_denorm(r, v)) == v,
{
    let k = r.factor_spec();
    let span = r.max_spec() - r.min_spec();
    let p = pow(v, k);
    assert(spec_denorm(r, v) - r.lo() == p * span);
    assert((p * span) / span == p) by {
        lemma_div_multiples_vanish(p, span);
        assert(span * p == p * span);
    }
    lemma_pow_base_lt(v, v + 1, k);
    lemma_root_unique(p, k, v);
}

} // verus!
