//! The step clock: converts a tempo and a fixed step subdivision into a
//! sample-accurate advancing step position.
//!
//! The samples-per-step ratio is usually not an integer, so the clock keeps it
//! as an exact rational: an integer part `spp_whole` plus a remainder
//! `spp_frac / spp_den`.  The fractional remainder of every completed step is
//! accumulated in `carry` (a numerator over the same denominator `spp_den`);
//! whenever a whole extra sample has accumulated, the next step boundary is
//! delayed by one sample.  Rounding error is thereby spread across steps and
//! never builds up: see [`lemma_step_timing`].
//!
//! Tempo is measured in thousandths of a beat per minute ("milli-BPM"), so
//! that fractional tempo values stay exact integers.

use vstd::prelude::*;

verus! {

use vstd::arithmetic::div_mod::lemma_fundamental_div_mod;
use vstd::arithmetic::div_mod::lemma_div_nonincreasing;

broadcast use vstd::arithmetic::mul::lemma_mul_is_commutative;

/// Steps per beat: a 32-step pattern spans 4 beats at 32nd-note resolution.
pub const STEPS_PER_BEAT: u64 = 8;

/// Samples-per-step numerator per unit of sample rate: 60 seconds per minute
/// times 1000 milli-BPM units per BPM.  Samples per step, as an exact
/// rational, is `SPP_NUM_PER_HZ * samplerate / (STEPS_PER_BEAT * tempo_mbpm)`.
pub const SPP_NUM_PER_HZ: u64 = 60000;

/// Strict upper bound on the samples-per-step numerator
/// `SPP_NUM_PER_HZ * samplerate` (at most `60_000 * u32::MAX`),
/// and hence on every within-step sample count: 2^48.
pub const SAMPLE_LIMIT: u64 = 0x1_0000_0000_0000;

/// Strict upper bound on the samples-per-step denominator
/// `STEPS_PER_BEAT * tempo_mbpm` (at most `8 * u32::MAX`): 2^35.
pub const DEN_LIMIT: u64 = 0x8_0000_0000;

/// The step clock.  `pos` is the index of the step most recently entered;
/// `sample` counts samples since the last step boundary; `updated` is an edge
/// flag set exactly once per boundary crossing, to be consumed (cleared) by
/// the caller.
///
/// A fresh clock rests one step before step 0, so the first boundary it
/// reports enters step 0 after one full step period.
#[derive(Clone, Copy)]
pub struct Sequencer {
    pub pos: usize,
    pub steps: usize,
    pub updated: bool,
    pub sample: u64,
    pub samplerate: u32,
    pub spp_whole: u64,
    pub spp_frac: u64,
    pub spp_den: u64,
    pub carry: u64,
}

impl Sequencer {
    /// The exact samples-per-step numerator for this clock's sample rate:
    /// samples per step == spp_num() / spp_den
    ///                  == (60 / bpm / STEPS_PER_BEAT) * samplerate.
    pub open spec fn spp_num(self) -> int {
        SPP_NUM_PER_HZ * self.samplerate
    }

    /// Well-formedness: the step grid is non-empty and the position is on it;
    /// the rational samples-per-step value is in lowest-terms-free normal form
    /// (`spp_frac < spp_den`) and matches the sample rate; the carry never
    /// reaches two whole samples; and the within-step counter stays far below
    /// the overflow range.
    pub open spec fn wf(self) -> bool {
        &&& self.steps >= 1
        &&& self.pos < self.steps
        &&& self.samplerate >= 1
        &&& 1 <= self.spp_den < DEN_LIMIT
        &&& self.spp_frac < self.spp_den
        &&& self.spp_whole * self.spp_den + self.spp_frac == self.spp_num()
        &&& self.spp_whole < SAMPLE_LIMIT
        &&& self.carry < self.spp_den + self.spp_frac
        &&& self.sample < SAMPLE_LIMIT
        &&& (self.carry >= self.spp_den ==> self.sample + 1 < SAMPLE_LIMIT)
    }

    /// The state one tick (one audio sample) later.
    ///
    /// Inside a step, only the within-step sample count advances.  At the end
    /// of a step, if less than one whole sample of fractional remainder has
    /// accumulated, the boundary is crossed now: the position advances
    /// (wrapping), the remainder `spp_frac/spp_den` is added to the carry and
    /// `updated` is raised.  Otherwise the boundary is delayed by exactly one
    /// sample and one whole sample is paid off the carry.
    pub open spec fn ticked(self) -> Sequencer {
        if self.sample + 1 < self.spp_whole {
            Sequencer { sample: (self.sample + 1) as u64, ..self }
        } else if self.carry < self.spp_den {
            Sequencer {
                sample: 0,
                carry: (self.carry + self.spp_frac) as u64,
                pos: if self.pos + 1 < self.steps {
                    (self.pos + 1) as usize
                } else {
                    0
                },
                updated: true,
                ..self
            }
        } else {
            Sequencer {
                sample: (self.sample + 1) as u64,
                carry: (self.carry - self.spp_den) as u64,
                ..self
            }
        }
    }

    /// The clock retuned to a new tempo: the samples-per-step ratio is
    /// recomputed for the unchanged sample rate and the carry is reset (an
    /// accepted minor phase discontinuity; no retroactive drift correction).
    pub open spec fn retuned(self, tempo_mbpm: u32) -> Sequencer {
        let den = STEPS_PER_BEAT * tempo_mbpm;
        Sequencer {
            spp_whole: (self.spp_num() / den as int) as u64,
            spp_frac: (self.spp_num() % den as int) as u64,
            spp_den: den as u64,
            carry: 0,
            ..self
        }
    }

    /// Build a clock for the given tempo (milli-BPM), sample rate and step
    /// count.  The clock starts silent at the step before step 0 with no
    /// boundary pending: its first reported boundary enters step 0.
    pub fn new(tempo_mbpm: u32, samplerate: u32, steps: usize) -> (s: Sequencer)
        requires
            tempo_mbpm >= 1,
            samplerate >= 1,
            steps >= 1,
        ensures
            s.wf(),
            s.pos == steps - 1,
            s.steps == steps,
            !s.updated,
            s.sample == 0,
            s.samplerate == samplerate,
            s.carry == 0,
            s.spp_den == STEPS_PER_BEAT * tempo_mbpm,
            s.spp_whole == s.spp_num() / s.spp_den as int,
            s.spp_frac == s.spp_num() % s.spp_den as int,
    {
        let num: u64 = SPP_NUM_PER_HZ * samplerate as u64;
        let den: u64 = STEPS_PER_BEAT * tempo_mbpm as u64;
        let whole: u64 = num / den;
        let frac: u64 = num % den;
        proof {
            lemma_fundamental_div_mod(num as int, den as int);
            lemma_div_nonincreasing(num as int, den as int);
        }
        Sequencer {
            pos: steps - 1,
            steps,
            updated: false,
            sample: 0,
            samplerate,
            spp_whole: whole,
            spp_frac: frac,
            spp_den: den,
            carry: 0,
        }
    }

    /// Advance the clock by one audio sample.
    pub fn tick(&mut self)
        requires
            old(self).wf(),
        ensures
            *final(self) == old(self).ticked(),
            final(self).wf(),
    {
        if self.sample + 1 < self.spp_whole {
            self.sample = self.sample + 1;
        } else if self.carry < self.spp_den {
            self.sample = 0;
            self.carry = self.carry + self.spp_frac;
            if self.pos + 1 < self.steps {
                self.pos = self.pos + 1;
            } else {
                self.pos = 0;
            }
            self.updated = true;
        } else {
            self.sample = self.sample + 1;
            self.carry = self.carry - self.spp_den;
        }
    }

    /// Change the tempo (milli-BPM): recompute the samples-per-step ratio and
    /// reset the carry.  Position and within-step count are untouched.
    pub fn set_tempo(&mut self, tempo_mbpm: u32)
        requires
            old(self).wf(),
            tempo_mbpm >= 1,
        ensures
            *final(self) == old(self).retuned(tempo_mbpm),
            final(self).wf(),
    {
        let num: u64 = SPP_NUM_PER_HZ * self.samplerate as u64;
        let den: u64 = STEPS_PER_BEAT * tempo_mbpm as u64;
        proof {
            lemma_fundamental_div_mod(num as int, den as int);
            lemma_div_nonincreasing(num as int, den as int);
        }
        self.spp_whole = num / den;
        self.spp_frac = num % den;
        self.spp_den = den;
        self.carry = 0;
    }
}

/// The clock after `n` ticks.
pub open spec fn ticked_n(s: Sequencer, n: nat) -> Sequencer
    decreases n,
{
    if n == 0 {
        s
    } else {
        ticked_n(s, (n - 1) as nat).ticked()
    }
}

/// Whether the next tick from state `s` crosses a step boundary.
pub open spec fn crosses(s: Sequencer) -> bool {
    !(s.sample + 1 < s.spp_whole) && s.carry < s.spp_den
}

/// How many step boundaries the first `n` ticks from `s` cross.
pub open spec fn boundary_count(s: Sequencer, n: nat) -> nat
    decreases n,
{
    if n == 0 {
        0
    } else {
        boundary_count(s, (n - 1) as nat) + (if crosses(ticked_n(s, (n - 1) as nat)) {
            1nat
        } else {
            0nat
        })
    }
}

/// Whether the current step has already absorbed its one delayed sample, so
/// the next tick must cross the boundary.  (Meaningful on runs with
/// `spp_whole >= 1`, where the within-step count otherwise stays below
/// `spp_whole`.)
pub open spec fn in_delay(s: Sequencer) -> bool {
    s.sample >= s.spp_whole && s.sample >= 1
}

/// The exact bookkeeping that holds along any run of the clock at a fixed
/// tempo from a boundary-aligned state: counting `b` boundaries and the
/// progress into the current step, the elapsed ticks `n` satisfy
/// `spp_den * n == b * spp_num - carry + spp_den * (sample - delay)`,
/// the carry stays below one whole sample plus the step remainder, and the
/// within-step count never exceeds `spp_whole`.
spec fn timing_inv(s0: Sequencer, n: nat) -> bool {
    let st = ticked_n(s0, n);
    let b = boundary_count(s0, n) as int;
    let d: int = if in_delay(st) {
        1
    } else {
        0
    };
    &&& st.spp_whole == s0.spp_whole
    &&& st.spp_frac == s0.spp_frac
    &&& st.spp_den == s0.spp_den
    &&& st.samplerate == s0.samplerate
    &&& s0.spp_den * n == b * s0.spp_num() - st.carry + s0.spp_den * st.sample - s0.spp_den * d
    &&& st.carry < s0.spp_den + s0.spp_frac
    &&& (!in_delay(st) ==> st.sample + 1 <= s0.spp_whole)
    &&& (in_delay(st) ==> st.sample == s0.spp_whole && st.carry < s0.spp_frac)
}

proof fn lemma_timing_inv(s0: Sequencer, n: nat)
    requires
        s0.wf(),
        s0.sample == 0,
        s0.carry == 0,
        s0.spp_whole >= 1,
    ensures
        timing_inv(s0, n),
    decreases n,
{
    let ww = s0.spp_whole as int;
    let ff = s0.spp_frac as int;
    let dd = s0.spp_den as int;
    let nn = s0.spp_num();
    if n == 0 {
        assert(s0.spp_den * n == 0 * nn - s0.carry + s0.spp_den * s0.sample - s0.spp_den * 0)
            by (nonlinear_arith)
            requires
                n == 0,
                s0.carry == 0,
                s0.sample == 0,
        ;
    } else {
        let m = (n - 1) as nat;
        lemma_timing_inv(s0, m);
        let st = ticked_n(s0, m);
        let stn = ticked_n(s0, n);
        let b = boundary_count(s0, m) as int;
        let ss = st.sample as int;
        let cc = st.carry as int;
        let d: int = if in_delay(st) {
            1
        } else {
            0
        };
        assert(stn == st.ticked());
        assert(nn == ww * dd + ff);
        if st.sample + 1 < st.spp_whole {
            // inside the step: only the within-step count advances
            assert(!in_delay(st));
            assert(!in_delay(stn));
            assert(dd * (n as int) == b * nn - cc + dd * (ss + 1) - dd * 0) by (nonlinear_arith)
                requires
                    dd * (m as int) == b * nn - cc + dd * ss - dd * 0,
                    n as int == m as int + 1,
            ;
        } else if st.carry < st.spp_den {
            // boundary crossed now
            assert(boundary_count(s0, n) == b + 1);
            assert((d == 0 && ss + 1 == ww) || (d == 1 && ss == ww));
            assert(!in_delay(stn));
            assert(dd * (n as int) == (b + 1) * nn - (cc + ff) + dd * 0 - dd * 0)
                by (nonlinear_arith)
                requires
                    dd * (m as int) == b * nn - cc + dd * ss - dd * d,
                    n as int == m as int + 1,
                    nn == ww * dd + ff,
                    (d == 0 && ss + 1 == ww) || (d == 1 && ss == ww),
            ;
        } else {
            // the delayed extra sample: pay one whole sample off the carry
            assert(!in_delay(st));
            assert(ss + 1 == ww);
            assert(in_delay(stn));
            assert(dd * (n as int) == b * nn - (cc - dd) + dd * (ss + 1) - dd * 1)
                by (nonlinear_arith)
                requires
                    dd * (m as int) == b * nn - cc + dd * ss - dd * 0,
                    n as int == m as int + 1,
            ;
        }
    }
}

/// Step timing accuracy.  Run the clock for any `n` ticks at a fixed tempo
/// from a boundary-aligned state (fresh, or just retuned at a boundary), with
/// at least one whole sample per step.  Let `b` be the number of step
/// boundaries crossed and `t` the tick count at the most recent boundary
/// (`n` minus the progress into the current step).  Then
///
///     b * spp_num - (spp_den + spp_frac)  <  spp_den * t  <=  b * spp_num,
///
/// i.e. the cumulative sample count at every boundary deviates from the ideal
/// `b * samples_per_step = b * spp_num / spp_den` by less than two samples,
/// however long the run: the carry arithmetic never lets rounding error build
/// up, and the average samples-per-step over `b` steps converges to
/// `spp_num / spp_den` within `2/b` of a sample.
pub proof fn lemma_step_timing(s0: Sequencer, n: nat)
    requires
        s0.wf(),
        s0.sample == 0,
        s0.carry == 0,
        s0.spp_whole >= 1,
    ensures
        ({
            let st = ticked_n(s0, n);
            let b = boundary_count(s0, n) as int;
            let t = n - st.sample + (if in_delay(st) {
                1int
            } else {
                0int
            });
            b * s0.spp_num() - (s0.spp_den + s0.spp_frac) < s0.spp_den * t
                && s0.spp_den * t <= b * s0.spp_num()
        }),
{
    lemma_timing_inv(s0, n);
    let st = ticked_n(s0, n);
    let b = boundary_count(s0, n) as int;
    let d: int = if in_delay(st) {
        1
    } else {
        0
    };
    let t = (n as int) - st.sample + d;
    let dd = s0.spp_den as int;
    let nn = s0.spp_num();
    assert(dd * t == b * nn - st.carry) by (nonlinear_arith)
        requires
            dd * (n as int) == b * nn - st.carry + dd * (st.sample as int) - dd * d,
            t == (n as int) - st.sample + d,
    ;
}

} // verus!
