//! The tempo-synchronised decay envelope.
//!
//! Per sample, the position inside the loop is
//! `beat = (tempo / 60 * seconds) mod length`, and the attenuation is
//! `-((beat + 1)^(-pow)) * 50 * amount` decibels: maximal at the start of
//! the loop, decaying toward none as the beat grows. With `length == 0`
//! the envelope is bypassed altogether; that is a documented mode, not an
//! error.
//!
//! Units: tempo in milli-BPM, position in microseconds, the beat as a
//! micro-beat count, the decay exponent as a whole number, the amount in
//! micro-units, and the result in milli-decibels. `(beat + 1)^(-pow)` is
//! computed as `pow` successive fixed-point divisions, each truncating.

use vstd::prelude::*;

verus! {

use vstd::arithmetic::div_mod::lemma_div_is_ordered;
use vstd::arithmetic::div_mod::lemma_div_is_ordered_by_denominator;
use vstd::arithmetic::div_mod::lemma_div_multiples_vanish;
use vstd::arithmetic::div_mod::lemma_div_denominator;
use vstd::arithmetic::div_mod::lemma_mod_bound;

/// Beat position inside the loop, in micro-beats:
/// `(tempo / 60 * seconds) mod length`, for `length >= 1` bars.
pub open spec fn spec_beat(tempo_mbpm: int, pos_us: int, length_bars: int) -> int {
    (tempo_mbpm * pos_us / 60_000) % (length_bars * 1_000_000)
}

/// `(beat + 1)^(-k)` in micro-units, as `k` truncating divisions.
pub open spec fn spec_decay(beat: int, k: nat) -> int
    decreases k,
{
    if k == 0 {
        1_000_000
    } else {
        spec_decay(beat, (k - 1) as nat) * 1_000_000 / (beat + 1_000_000)
    }
}

/// Envelope attenuation in milli-decibels:
/// `-(decay * 50 * amount)`, scaled back to milli-decibels; zero when the
/// envelope is bypassed (`length == 0`).
pub open spec fn spec_attenuation_mdb(
    tempo_mbpm: int,
    pos_us: int,
    length_bars: int,
    k: nat,
    amount: int,
) -> int {
    if length_bars == 0 {
        0
    } else {
        -(spec_decay(spec_beat(tempo_mbpm, pos_us, length_bars), k) * amount / 20_000_000)
    }
}

/// At the start of the loop (`beat == 0`) the decay factor is one.
pub proof fn lemma_decay_at_zero(k: nat)
    ensures
        spec_decay(0, k) == 1_000_000,
    decreases k,
{
    if k > 0 {
        lemma_decay_at_zero((k - 1) as nat);
        lemma_div_multiples_vanish(1_000_000, 1_000_000);
    }
}

/// Bypass: with `length == 0` the attenuation is zero — a gain
/// multiplier of exactly one — whatever the transport and parameters.
pub proof fn lemma_envelope_bypass(tempo_mbpm: int, pos_us: int, k: nat, amount: int)
    ensures
        spec_attenuation_mdb(tempo_mbpm, pos_us, 0, k, amount) == 0,
{
}

/// With `amount == 0` the attenuation is zero for any beat.
pub proof fn lemma_envelope_amount_zero(
    tempo_mbpm: int,
    pos_us: int,
    length_bars: int,
    k: nat,
)
    ensures
        spec_attenuation_mdb(tempo_mbpm, pos_us, length_bars, k, 0) == 0,
{
    if length_bars != 0 {
        let d = spec_decay(spec_beat(tempo_mbpm, pos_us, length_bars), k);
        assert(d * 0 == 0);
        assert(0int / 20_000_000 == 0);
    }
}

/// At `beat == 0` the attenuation is `-50 * amount` decibels exactly,
/// that is `-amount / 20` milli-decibels for a micro-unit amount.
pub proof fn lemma_envelope_beat_zero(
    tempo_mbpm: int,
    pos_us: int,
    length_bars: int,
    k: nat,
    amount: int,
)
    requires
        1 <= length_bars,
        0 <= amount,
        spec_beat(tempo_mbpm, pos_us, length_bars) == 0,
    ensures
        spec_attenuation_mdb(tempo_mbpm, pos_us, length_bars, k, amount) == -(amount / 20),
{
    lemma_decay_at_zero(k);
    assert(1_000_000 * amount / 20_000_000 == amount / 20) by {
        lemma_div_denominator(1_000_000 * amount, 1_000_000, 20);
        lemma_div_multiples_vanish(amount, 1_000_000);
        assert(1_000_000 * 20 == 20_000_000);
    }
}

/// Envelope attenuation for one sample, in milli-decibels.
///
/// `tempo_mbpm` is the transport tempo in milli-BPM (the tempo must be
/// known and positive: a host that cannot supply it violates its contract
/// and the caller fails the block before reaching this computation),
/// `pos_us` the playback position in microseconds, `length_bars` the loop
/// length (zero bypasses), `k` the decay exponent, and `amount` the decay
/// depth in micro-units.
pub fn attenuation_mdb(
    tempo_mbpm: u64,
    pos_us: u64,
    length_bars: u32,
    k: u32,
    amount: u32,
) -> (mdb: i64)
    requires
        1 <= tempo_mbpm <= 100_000_000,
        length_bars <= 4,
        k <= 20,
        amount <= 1_000_000,
    ensures
        mdb == spec_attenuation_mdb(
            tempo_mbpm as int, pos_us as int, length_bars as int, k as nat, amount as int),
        -50_000 <= mdb <= 0,
{
    if length_bars == 0 {
        return 0;
    }
    proof {
        assert((tempo_mbpm as int) * (pos_us as int)
            <= 100_000_000 * 0xffff_ffff_ffff_ffff) by (nonlinear_arith)
            requires
                0 <= tempo_mbpm as int <= 100_000_000,
                0 <= pos_us as int <= 0xffff_ffff_ffff_ffff,
        {}
    }
    let total: u128 = (tempo_mbpm as u128) * (pos_us as u128) / 60_000;
    let cycle: u128 = (length_bars as u128) * 1_000_000;
    let beat: u64 = (total % cycle) as u64;
    proof {
        crate::range::lemma_div_nonneg(
            (tempo_mbpm as int) * (pos_us as int), 60_000);
        lemma_mod_bound(total as int, cycle as int);
    }
    let mut x: u64 = 1_000_000;
    let mut i: u32 = 0;
    while i < k
        invariant
            i <= k,
            0 <= x <= 1_000_000,
            x == spec_decay(beat as int, i as nat),
            beat < 5_000_000,
        decreases k - i,
    {
        proof {
            let xi = x as int;
            lemma_div_is_ordered_by_denominator(xi * 1_000_000, 1_000_000, beat + 1_000_000);
            lemma_div_multiples_vanish(xi, 1_000_000);
            assert(xi * 1_000_000 == 1_000_000 * xi);
            crate::range::lemma_div_nonneg(xi * 1_000_000, beat as int + 1_000_000);
        }
        x = x * 1_000_000 / (beat + 1_000_000);
        i = i + 1;
    }
    proof {
        assert(0 <= (x as int) * (amount as int) <= 1_000_000_000_000) by (nonlinear_arith)
            requires
                0 <= x as int <= 1_000_000,
                0 <= amount as int <= 1_000_000,
        {}
        lemma_div_is_ordered((x as int) * (amount as int), 1_000_000_000_000, 20_000_000);
        crate::range::lemma_div_nonneg((x as int) * (amount as int), 20_000_000);
    }
    let scaled: u64 = x * (amount as u64) / 20_000_000;
    -(scaled as i64)
}

} // verus!
