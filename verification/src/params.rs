//! The four tunable parameters: ranges, defaults, normalised get/set, the
//! UI edit bracket, and the gain change flag.
//!
//! Raw units: gain in milli-decibels (numerator over `NORM_ONE^2`), the
//! decay exponent in milli-units (numerator over `NORM_ONE`), the decay
//! amount in micro-units (numerator over `NORM_ONE`), and the envelope
//! length as a plain bar count.

use vstd::prelude::*;

verus! {

use crate::range::Range;
use crate::range::NORM_ONE;
use crate::range::spec_denorm;
use crate::range::spec_norm;
use crate::range::denormalize;
use crate::range::normalize;

/// Range of the gain parameter: -30 dB to +30 dB in milli-decibels,
/// skewed quadratically for finer control near the low end.
pub open spec fn gain_range() -> Range {
    Range::Skewed { min: -30_000i64, max: 30_000i64, factor: 2u32 }
}

/// Range of the decay exponent: 0 to 20 in milli-units.
pub open spec fn pow_range() -> Range {
    Range::Linear { min: 0i64, max: 20_000i64 }
}

/// Range of the decay amount: 0 to 1 in micro-units.
pub open spec fn amount_range() -> Range {
    Range::Linear { min: 0i64, max: 1_000_000i64 }
}

/// Largest envelope length, in bars.
pub const MAX_LENGTH_BARS: u32 = 4;

pub fn gain_range_exec() -> (r: Range)
    ensures
        r == gain_range(),
{
    Range::Skewed { min: -30_000, max: 30_000, factor: 2 }
}

pub fn pow_range_exec() -> (r: Range)
    ensures
        r == pow_range(),
{
    Range::Linear { min: 0, max: 20_000 }
}

pub fn amount_range_exec() -> (r: Range)
    ensures
        r == amount_range(),
{
    Range::Linear { min: 0, max: 1_000_000 }
}

/// A normalised input clamped to `[0, NORM_ONE]`.
pub open spec fn clamp_norm(v: int) -> int {
    if v > NORM_ONE { NORM_ONE as int } else { v }
}

/// Host-facing identifier of the gain parameter.
pub fn param_id_gain() -> (s: &'static str)
    ensures
        s@ == "gain"@,
{
    "gain"
}

/// Host-facing identifier of the length parameter. The spelling is
/// deliberate: it is persisted in saved sessions and must stay stable.
pub fn param_id_length() -> (s: &'static str)
    ensures
        s@ == "lenght"@,
{
    "lenght"
}

/// Host-facing identifier of the decay-exponent parameter. The spelling
/// is deliberate: it is persisted in saved sessions and must stay stable.
pub fn param_id_pow() -> (s: &'static str)
    ensures
        s@ == "pump"@,
{
    "pump"
}

/// Host-facing identifier of the amount parameter.
pub fn param_id_amount() -> (s: &'static str)
    ensures
        s@ == "amount"@,
{
    "amount"
}

/// The shared parameter state: read by the audio path every block, written
/// by the control bridge on UI actions or by host automation.
///
/// The concurrent realisation keeps each cell in an atomic word and the
/// change flag in an atomic boolean whose clear is an exchange; this model
/// is the sequential content of those operations.
pub struct ParameterModel {
    /// Gain raw numerator over `NORM_ONE^2`, in milli-decibels.
    pub gain_num: i128,
    /// Set whenever the gain value is written; cleared exactly once by the
    /// bridge when it emits the matching notification.
    pub gain_changed: bool,
    /// True between `begin_edit` and `end_edit` of a UI edit bracket.
    pub editing: bool,
    /// Envelope length in bars, `0 ..= MAX_LENGTH_BARS`; `0` bypasses the
    /// envelope.
    pub length_bars: u32,
    /// Decay exponent raw numerator over `NORM_ONE`, in milli-units.
    pub pow_num: i128,
    /// Decay amount raw numerator over `NORM_ONE`, in micro-units.
    pub amount_num: i128,
}

impl ParameterModel {
    pub open spec fn wf(&self) -> bool {
        &&& gain_range().lo() <= self.gain_num <= gain_range().hi()
        &&& pow_range().lo() <= self.pow_num <= pow_range().hi()
        &&& amount_range().lo() <= self.amount_num <= amount_range().hi()
        &&& self.length_bars <= MAX_LENGTH_BARS
    }

    /// Fresh state with every parameter at its default: gain 0 dB, length
    /// 0 bars, decay exponent 10, amount one half.
    pub fn new() -> (m: ParameterModel)
        ensures
            m.wf(),
            m.gain_num == 0,
            !m.gain_changed,
            !m.editing,
            m.length_bars == 0,
            m.pow_num == 10_000 * (NORM_ONE as int),
            m.amount_num == 500_000 * (NORM_ONE as int),
    {
        proof {
            crate::range::lemma_pow_norm_one();
        }
        ParameterModel {
            gain_num: 0,
            gain_changed: false,
            editing: false,
            length_bars: 0,
            pow_num: 10_000 * (NORM_ONE as i128),
            amount_num: 500_000 * (NORM_ONE as i128),
        }
    }

    /// Opens a UI edit bracket; every UI-originated change must sit inside
    /// one so that host automation recording is well-formed.
    pub fn begin_edit(&mut self)
        requires
            !old(self).editing,
        ensures
            *final(self) == (ParameterModel { editing: true, ..*old(self) }),
    {
        self.editing = true;
    }

    /// Closes the UI edit bracket opened by `begin_edit`.
    pub fn end_edit(&mut self)
        requires
            old(self).editing,
        ensures
            *final(self) == (ParameterModel { editing: false, ..*old(self) }),
    {
        self.editing = false;
    }

    /// UI path: sets the gain from a normalised value, clamped to
    /// `[0, NORM_ONE]`, and raises the change flag.
    pub fn set_gain_normalized(&mut self, v: u32)
        requires
            old(self).wf(),
            old(self).editing,
        ensures
            final(self).wf(),
            final(self).gain_num == spec_denorm(gain_range(), clamp_norm(v as int)),
            final(self).gain_changed,
            final(self).editing == old(self).editing,
            final(self).length_bars == old(self).length_bars,
            final(self).pow_num == old(self).pow_num,
            final(self).amount_num == old(self).amount_num,
    {
        let c: u32 = if v > NORM_ONE { NORM_ONE } else { v };
        let r = gain_range_exec();
        self.gain_num = denormalize(&r, c);
        self.gain_changed = true;
    }

    /// Host-automation path: the same write without the UI edit bracket.
    /// It too raises the change flag, so the UI mirrors host moves.
    pub fn automate_gain_normalized(&mut self, v: u32)
        requires
            old(self).wf(),
        ensures
            final(self).wf(),
            final(self).gain_num == spec_denorm(gain_range(), clamp_norm(v as int)),
            final(self).gain_changed,
            final(self).editing == old(self).editing,
            final(self).length_bars == old(self).length_bars,
            final(self).pow_num == old(self).pow_num,
            final(self).amount_num == old(self).amount_num,
    {
        let c: u32 = if v > NORM_ONE { NORM_ONE } else { v };
        let r = gain_range_exec();
        self.gain_num = denormalize(&r, c);
        self.gain_changed = true;
    }

    /// UI path: sets the envelope length from a raw bar count, clamped to
    /// `[0, MAX_LENGTH_BARS]`. Structural parameter: no smoothing, no flag.
    pub fn set_length_bars(&mut self, bars: u32)
        requires
            old(self).wf(),
            old(self).editing,
        ensures
            final(self).wf(),
            *final(self) == (ParameterModel {
                length_bars: if bars > MAX_LENGTH_BARS { MAX_LENGTH_BARS as u32 } else { bars },
                ..*old(self)
            }),
    {
        self.length_bars = if bars > MAX_LENGTH_BARS { MAX_LENGTH_BARS } else { bars };
    }

    /// UI path: sets the decay exponent from a normalised value, clamped.
    pub fn set_pow_normalized(&mut self, v: u32)
        requires
            old(self).wf(),
            old(self).editing,
        ensures
            final(self).wf(),
            final(self).pow_num == spec_denorm(pow_range(), clamp_norm(v as int)),
            final(self).gain_num == old(self).gain_num,
            final(self).gain_changed == old(self).gain_changed,
            final(self).editing == old(self).editing,
            final(self).length_bars == old(self).length_bars,
            final(self).amount_num == old(self).amount_num,
    {
        let c: u32 = if v > NORM_ONE { NORM_ONE } else { v };
        let r = pow_range_exec();
        self.pow_num = denormalize(&r, c);
    }

    /// UI path: sets the decay amount from a normalised value, clamped.
    pub fn set_amount_normalized(&mut self, v: u32)
        requires
            old(self).wf(),
            old(self).editing,
        ensures
            final(self).wf(),
            final(self).amount_num == spec_denorm(amount_range(), clamp_norm(v as int)),
            final(self).gain_num == old(self).gain_num,
            final(self).gain_changed == old(self).gain_changed,
            final(self).editing == old(self).editing,
            final(self).length_bars == old(self).length_bars,
            final(self).pow_num == old(self).pow_num,
    {
        let c: u32 = if v > NORM_ONE { NORM_ONE } else { v };
        let r = amount_range_exec();
        self.amount_num = denormalize(&r, c);
    }

    /// The gain's normalised value in `[0, NORM_ONE]`.
    pub fn gain_normalized(&self) -> (v: u32)
        requires
            self.wf(),
        ensures
            v <= NORM_ONE,
            v as int == spec_norm(gain_range(), self.gain_num as int),
    {
        let r = gain_range_exec();
        normalize(&r, self.gain_num)
    }

    /// The gain's raw value in milli-decibels, truncated toward zero.
    pub fn gain_mdb(&self) -> (mdb: i64)
        requires
            self.wf(),
        ensures
            mdb == crate::range::div_trunc(self.gain_num as int, 1_000_000_000_000),
            -30_000 <= mdb <= 30_000,
    {
        proof {
            crate::range::lemma_pow_norm_one();
        }
        let den: i128 = 1_000_000_000_000;
        if self.gain_num < 0 {
            let q: i128 = (-self.gain_num) / den;
            proof {
                vstd::arithmetic::div_mod::lemma_div_is_ordered(
                    (-self.gain_num) as int, 30_000_000_000_000_000, den as int);
                vstd::arithmetic::div_mod::lemma_div_multiples_vanish(30_000, den as int);
                crate::range::lemma_div_nonneg((-self.gain_num) as int, den as int);
            }
            -(q as i64)
        } else {
            let q: i128 = self.gain_num / den;
            proof {
                vstd::arithmetic::div_mod::lemma_div_is_ordered(
                    self.gain_num as int, 30_000_000_000_000_000, den as int);
                vstd::arithmetic::div_mod::lemma_div_multiples_vanish(30_000, den as int);
                crate::range::lemma_div_nonneg(self.gain_num as int, den as int);
            }
            q as i64
        }
    }

    /// The decay exponent's normalised value in `[0, NORM_ONE]`.
    pub fn pow_normalized(&self) -> (v: u32)
        requires
            self.wf(),
        ensures
            v <= NORM_ONE,
            v as int == spec_norm(pow_range(), self.pow_num as int),
    {
        let r = pow_range_exec();
        normalize(&r, self.pow_num)
    }

    /// The decay amount's normalised value in `[0, NORM_ONE]`.
    pub fn amount_normalized(&self) -> (v: u32)
        requires
            self.wf(),
        ensures
            v <= NORM_ONE,
            v as int == spec_norm(amount_range(), self.amount_num as int),
    {
        let r = amount_range_exec();
        normalize(&r, self.amount_num)
    }

    /// The decay exponent as a whole number in `[0, 20]`, truncated.
    pub fn pow_exponent(&self) -> (e: u32)
        requires
            self.wf(),
        ensures
            e as int == self.pow_num as int / 1_000_000_000,
            e <= 20,
    {
        proof {
            crate::range::lemma_pow_norm_one();
            vstd::arithmetic::div_mod::lemma_div_is_ordered(
                self.pow_num as int, 20_000_000_000, 1_000_000_000);
            crate::range::lemma_div_nonneg(self.pow_num as int, 1_000_000_000);
            vstd::arithmetic::div_mod::lemma_div_multiples_vanish(20, 1_000_000_000);
        }
        (self.pow_num / 1_000_000_000) as u32
    }

    /// The decay amount in micro-units `[0, NORM_ONE]`, truncated.
    pub fn amount_micro(&self) -> (a: u32)
        requires
            self.wf(),
        ensures
            a as int == self.amount_num as int / 1_000_000,
            a <= NORM_ONE,
    {
        proof {
            crate::range::lemma_pow_norm_one();
            vstd::arithmetic::div_mod::lemma_div_is_ordered(
                self.amount_num as int, 1_000_000_000_000, 1_000_000);
            vstd::arithmetic::div_mod::lemma_div_multiples_vanish(1_000_000, 1_000_000);
            crate::range::lemma_div_nonneg(self.amount_num as int, 1_000_000);
        }
        (self.amount_num / 1_000_000) as u32
    }

    /// Reads and clears the gain change flag in one step; the concurrent
    /// realisation is an atomic exchange with `false`.
    pub fn take_gain_changed(&mut self) -> (was: bool)
        ensures
            was == old(self).gain_changed,
            *final(self) == (ParameterModel { gain_changed: false, ..*old(self) }),
    {
        let was = self.gain_changed;
        self.gain_changed = false;
        was
    }
}

} // verus!
