//! Per-block driving of the smoother and the envelope.
//!
//! For one audio block the caller passes the block-level parameter values
//! (length, decay exponent, amount — read once per block) and the gain
//! smoother, which is advanced once per sample. The result is one total
//! gain per sample, in milli-decibels: envelope attenuation plus smoothed
//! gain. The host glue turns each entry into an amplitude factor and
//! multiplies the channel samples; the position of sample `i` is derived
//! from the block start as `pos_us + i / sample_rate`, since the host
//! supplies the transport at block granularity only.

use vstd::prelude::*;

verus! {

use crate::smoother::Smoother;
use crate::smoother::run_spec;
use crate::envelope::attenuation_mdb;
use crate::envelope::spec_attenuation_mdb;
use crate::smoother::SMOOTH_LIMIT;

/// Playback position of sample `i`, in microseconds from the block start.
pub open spec fn spec_sample_pos(pos_us: int, i: int, sample_rate: int) -> int {
    pos_us + (i * 1_000_000) / sample_rate
}

/// Total per-sample gain of one block, in milli-decibels.
///
/// Entry `i` is the envelope attenuation at sample `i`'s position plus the
/// gain smoother's value after `i + 1` steps; the smoother is left in the
/// state reached after the whole block.
pub fn process_block(
    gain: &mut Smoother,
    length_bars: u32,
    k: u32,
    amount: u32,
    tempo_mbpm: u64,
    pos_us: u64,
    sample_rate: u32,
    n: usize,
) -> (out: Vec<i64>)
    requires
        old(gain).wf(),
        1 <= tempo_mbpm <= 100_000_000,
        length_bars <= 4,
        k <= 20,
        amount <= 1_000_000,
        1 <= sample_rate,
        n <= 1_000_000,
        pos_us <= 1_000_000_000_000_000_000,
    ensures
        final(gain).wf(),
        *final(gain) == run_spec(*old(gain), n as nat),
        out.len() == n,
        forall|i: int| 0 <= i < n ==> out[i] == spec_attenuation_mdb(
            tempo_mbpm as int,
            spec_sample_pos(pos_us as int, i, sample_rate as int),
            length_bars as int,
            k as nat,
            amount as int,
        ) + run_spec(*old(gain), (i + 1) as nat).current,
{
    let mut out: Vec<i64> = Vec::new();
    let mut i: usize = 0;
    while i < n
        invariant
            i <= n <= 1_000_000,
            out.len() == i,
            gain.wf(),
            *gain == run_spec(*old(gain), i as nat),
            old(gain).wf(),
            1 <= tempo_mbpm <= 100_000_000,
            length_bars <= 4,
            k <= 20,
            amount <= 1_000_000,
            1 <= sample_rate,
            pos_us <= 1_000_000_000_000_000_000,
            forall|j: int| 0 <= j < i ==> out[j] == spec_attenuation_mdb(
                tempo_mbpm as int,
                spec_sample_pos(pos_us as int, j, sample_rate as int),
                length_bars as int,
                k as nat,
                amount as int,
            ) + run_spec(*old(gain), (j + 1) as nat).current,
        decreases n - i,
    {
        let g: i64 = gain.next();
        proof {
            assert(run_spec(*old(gain), (i + 1) as nat)
                == crate::smoother::step_spec(run_spec(*old(gain), i as nat)));
        }
        let off: u64 = (i as u64) * 1_000_000 / (sample_rate as u64);
        proof {
            crate::range::lemma_div_nonneg((i as int) * 1_000_000, sample_rate as int);
            vstd::arithmetic::div_mod::lemma_div_is_ordered_by_denominator(
                (i as int) * 1_000_000, 1, sample_rate as int);
            vstd::arithmetic::div_mod::lemma_div_multiples_vanish(
                (i as int) * 1_000_000, 1);
        }
        let p: u64 = pos_us + off;
        let env: i64 = attenuation_mdb(tempo_mbpm, p, length_bars, k, amount);
        assert(-SMOOTH_LIMIT <= g <= SMOOTH_LIMIT);
        out.push(env + g);
        i = i + 1;
    }
    out
}

} // verus!
