//! The pattern store: one row of on/off step gates per voice.
//!
//! The grid's dimensions are fixed when the engine is built; mutation only
//! ever replaces a single `(voice, step)` entry.  Out-of-range toggles are a
//! caller-side programming error and are dropped defensively — they never
//! panic and never disturb the grid.

use vstd::prelude::*;

verus! {

/// A fixed-size grid of step gates, indexed by voice, then by step position.
pub struct Pattern {
    pub rows: Vec<Vec<bool>>,
}

impl View for Pattern {
    type V = Seq<Seq<bool>>;

    open spec fn view(&self) -> Seq<Seq<bool>> {
        Seq::new(self.rows@.len(), |v: int| self.rows@[v]@)
    }
}

impl Pattern {
    /// Every voice's row has one gate per step of the pattern.
    pub open spec fn rectangular(self, steps: int) -> bool {
        forall|v: int| 0 <= v < self@.len() ==> #[trigger] self@[v].len() == steps
    }

    /// A `voices` x `steps` grid with every gate off.
    pub fn new(voices: usize, steps: usize) -> (p: Pattern)
        ensures
            p@.len() == voices,
            p.rectangular(steps as int),
            forall|v: int, s: int|
                0 <= v < voices && 0 <= s < steps ==> !(#[trigger] p@[v][s]),
    {
        let mut rows: Vec<Vec<bool>> = Vec::new();
        let mut v: usize = 0;
        while v < voices
            invariant
                v <= voices,
                rows@.len() == v,
                forall|i: int| 0 <= i < v ==> (#[trigger] rows@[i])@ =~= Seq::new(
                    steps as nat,
                    |s: int| false,
                ),
            decreases voices - v,
        {
            rows.push(vec![false; steps]);
            v = v + 1;
        }
        Pattern { rows }
    }

    /// Set one gate.  A `voice` or `step` off the grid is dropped without
    /// effect: such a message is malformed input, not a reason to panic on
    /// the audio path.
    pub fn set_gate(&mut self, voice: usize, step: usize, on: bool)
        ensures
            voice < old(self)@.len() && step < old(self)@[voice as int].len() ==> final(self)@
                =~~= old(self)@.update(
                voice as int,
                old(self)@[voice as int].update(step as int, on),
            ),
            !(voice < old(self)@.len() && step < old(self)@[voice as int].len()) ==> *final(self)
                == *old(self),
    {
        if voice < self.rows.len() {
            if step < self.rows[voice].len() {
                self.rows[voice][step] = on;
            }
        }
    }

    /// Read one gate.
    pub fn get_gate(&self, voice: usize, step: usize) -> (on: bool)
        requires
            voice < self@.len(),
            step < self@[voice as int].len(),
        ensures
            on == self@[voice as int][step as int],
    {
        self.rows[voice][step]
    }
}

} // verus!
