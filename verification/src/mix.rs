//! The voice mixer's arithmetic: unweighted summation of the playing voices'
//! current samples with saturating addition, clamped to the 16-bit signed
//! range rather than wrapping.
//!
//! Voices are accumulated left to right, one saturating addition per voice
//! ([`mix_prefix`]).  When every contribution has the same sign this equals
//! the clamp of the exact sum ([`lemma_mix_saturates_nonneg`],
//! [`lemma_mix_saturates_nonpos`]): an overflowing mix lands exactly on the
//! boundary value, it never wraps.

use vstd::prelude::*;

verus! {

use crate::voice::Sound;

/// `x` clamped to the signed 16-bit range.
pub open spec fn clamp_i16(x: int) -> i16 {
    if x > i16::MAX {
        i16::MAX
    } else if x < i16::MIN {
        i16::MIN
    } else {
        x as i16
    }
}

/// Saturating 16-bit addition: the exact sum, clamped.
pub open spec fn sat_add_spec(a: i16, b: i16) -> i16 {
    clamp_i16(a + b)
}

/// Add two output samples, saturating at the 16-bit range boundaries.
pub fn sat_add(a: i16, b: i16) -> (r: i16)
    ensures
        r == sat_add_spec(a, b),
{
    let wide: i32 = a as i32 + b as i32;
    if wide > i16::MAX as i32 {
        i16::MAX
    } else if wide < i16::MIN as i32 {
        i16::MIN
    } else {
        wide as i16
    }
}

/// What one voice contributes to the current output sample: the sample under
/// its cursor while playing, silence otherwise.
pub open spec fn contribution(sound: Sound, buf: Seq<i16>) -> i16 {
    if sound.playing {
        buf[sound.pos as int]
    } else {
        0
    }
}

/// The mix of the first `n` voices, accumulated left to right with
/// saturating addition starting from silence.
pub open spec fn mix_prefix(sounds: Seq<Sound>, samples: Seq<Seq<i16>>, n: int) -> i16
    decreases n,
{
    if n <= 0 {
        0
    } else {
        sat_add_spec(
            mix_prefix(sounds, samples, n - 1),
            contribution(sounds[n - 1], samples[n - 1]),
        )
    }
}

/// The exact (unclamped) sum of the first `n` voices' contributions.
pub open spec fn sum_prefix(sounds: Seq<Sound>, samples: Seq<Seq<i16>>, n: int) -> int
    decreases n,
{
    if n <= 0 {
        0
    } else {
        sum_prefix(sounds, samples, n - 1) + contribution(sounds[n - 1], samples[n - 1])
    }
}

/// Saturation, positive side: when every contribution is non-negative, the
/// accumulated mix is exactly the sum of the contributions clamped at
/// `i16::MAX` — a mix whose instantaneous samples sum beyond the range
/// produces the boundary value, never a wrapped one.
pub proof fn lemma_mix_saturates_nonneg(sounds: Seq<Sound>, samples: Seq<Seq<i16>>, n: int)
    requires
        forall|j: int| 0 <= j < n ==> contribution(sounds[j], samples[j]) >= 0,
    ensures
        mix_prefix(sounds, samples, n) as int == if sum_prefix(sounds, samples, n) > i16::MAX {
            i16::MAX as int
        } else {
            sum_prefix(sounds, samples, n)
        },
    decreases n,
{
    if n > 0 {
        lemma_mix_saturates_nonneg(sounds, samples, n - 1);
        assert(contribution(sounds[n - 1], samples[n - 1]) >= 0);
    }
}

/// Saturation, negative side: when every contribution is non-positive, the
/// accumulated mix is exactly the sum of the contributions clamped at
/// `i16::MIN`.
pub proof fn lemma_mix_saturates_nonpos(sounds: Seq<Sound>, samples: Seq<Seq<i16>>, n: int)
    requires
        forall|j: int| 0 <= j < n ==> contribution(sounds[j], samples[j]) <= 0,
    ensures
        mix_prefix(sounds, samples, n) as int == if sum_prefix(sounds, samples, n) < i16::MIN {
            i16::MIN as int
        } else {
            sum_prefix(sounds, samples, n)
        },
    decreases n,
{
    if n > 0 {
        lemma_mix_saturates_nonpos(sounds, samples, n - 1);
        assert(contribution(sounds[n - 1], samples[n - 1]) <= 0);
    }
}

} // verus!
