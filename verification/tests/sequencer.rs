//! The step clock: exact samples-per-step arithmetic and long-run timing.

use drum_machine::sequencer::Sequencer;

/// 120 BPM at 44100 Hz with 8 steps per beat: 60/120/8*44100 = 2756.25
/// samples per step, kept exactly as 2756 + 240000/960000.
#[test]
fn clock_samples_per_step_exact() {
    let s = Sequencer::new(120_000, 44100, 32);
    assert_eq!(s.spp_whole, 2756);
    assert_eq!(s.spp_frac, 240_000);
    assert_eq!(s.spp_den, 960_000);
    assert_eq!(s.pos, 31);
    assert_eq!(s.sample, 0);
    assert_eq!(s.carry, 0);
    assert!(!s.updated);
}

/// The first boundary enters step 0, after floor(2756.25) ticks.
#[test]
fn clock_first_boundary_enters_step_zero() {
    let mut s = Sequencer::new(120_000, 44100, 32);
    let mut ticks: u64 = 0;
    while !s.updated {
        s.tick();
        ticks += 1;
    }
    assert_eq!(ticks, 2756);
    assert_eq!(s.pos, 0);
    assert_eq!(s.sample, 0);
    assert_eq!(s.carry, 240_000);
}

/// Step lengths at 120 BPM: 0.25 of a sample accumulates per step; once a
/// whole sample has accumulated, the next boundary is delayed by one sample.
#[test]
fn clock_fractional_carry_distributes_samples() {
    let mut s = Sequencer::new(120_000, 44100, 32);
    let mut lengths = Vec::new();
    for _ in 0..8 {
        let mut ticks: u64 = 0;
        loop {
            s.tick();
            ticks += 1;
            if s.updated {
                s.updated = false;
                break;
            }
        }
        lengths.push(ticks);
    }
    assert_eq!(lengths, vec![2756, 2756, 2756, 2756, 2757, 2756, 2756, 2756]);
}

/// Step timing accuracy: over 10000 steps at 120 BPM the cumulative sample
/// count stays within one sample of the ideal 10000 * 2756.25 = 27562500 —
/// no drift, however long the run.  (It lands one short: the whole sample
/// accumulated by the 10000th boundary is paid out one step later.)
#[test]
fn clock_no_drift_over_ten_thousand_steps() {
    let mut s = Sequencer::new(120_000, 44100, 32);
    let mut ticks: u64 = 0;
    let mut boundaries: u64 = 0;
    while boundaries < 10_000 {
        s.tick();
        ticks += 1;
        if s.updated {
            boundaries += 1;
            s.updated = false;
        }
    }
    assert_eq!(ticks, 27_562_499);
    assert!(27_562_500 - ticks <= 1);
}

/// An awkward tempo whose step length is irrational in thousandths:
/// 137.419 BPM at 44100 Hz.  Over 10000 steps the cumulative count must
/// stay within 2 samples of the ideal `10000 * spp_num / spp_den`.
#[test]
fn clock_bounded_error_awkward_tempo() {
    let mut s = Sequencer::new(137_419, 44100, 32);
    let num: u64 = 60_000 * 44100;
    let den: u64 = 8 * 137_419;
    assert_eq!(s.spp_whole, num / den);
    assert_eq!(s.spp_frac, num % den);
    let mut ticks: u64 = 0;
    let mut boundaries: u64 = 0;
    while boundaries < 10_000 {
        s.tick();
        ticks += 1;
        if s.updated {
            boundaries += 1;
            s.updated = false;
        }
    }
    // den * ticks in (10000 * num - (den + frac), 10000 * num]
    let ideal = 10_000u64 * num;
    let measured = den * ticks;
    assert!(measured <= ideal);
    assert!(ideal - measured < den + (num % den));
}

/// The position wraps to 0 after the last step.
#[test]
fn clock_position_wraps() {
    let mut s = Sequencer::new(120_000, 44100, 4);
    let mut seen = Vec::new();
    for _ in 0..6 {
        loop {
            s.tick();
            if s.updated {
                s.updated = false;
                break;
            }
        }
        seen.push(s.pos);
    }
    assert_eq!(seen, vec![0, 1, 2, 3, 0, 1]);
}

/// A tempo change recomputes the ratio from the unchanged sample rate and
/// resets the carry; position and within-step count are untouched.
#[test]
fn clock_set_tempo_resets_carry_only() {
    let mut s = Sequencer::new(120_000, 44100, 32);
    for _ in 0..3000 {
        s.tick();
    }
    assert_eq!(s.carry, 240_000);
    let pos = s.pos;
    let sample = s.sample;
    s.set_tempo(60_000);
    assert_eq!(s.spp_whole, 5512);
    assert_eq!(s.spp_frac, 240_000);
    assert_eq!(s.spp_den, 480_000);
    assert_eq!(s.carry, 0);
    assert_eq!(s.pos, pos);
    assert_eq!(s.sample, sample);
}
