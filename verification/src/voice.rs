//! One drum voice: a playback cursor over an immutable sample buffer.
//!
//! The buffer itself is owned by the engine; a [`Sound`] carries only the
//! buffer length, the cursor and the playing flag, so that it stays a plain
//! copyable value.  Triggering a voice restarts it from the first sample —
//! only one instance of a given voice ever plays at a time
//! (see [`lemma_retrigger_restarts`]).

use vstd::prelude::*;

verus! {

/// Playback state of one voice.  `len` is the length of the voice's sample
/// buffer; `pos` is the cursor, the index of the next sample to play.
#[derive(Clone, Copy)]
pub struct Sound {
    pub len: usize,
    pub pos: usize,
    pub playing: bool,
}

impl Sound {
    /// A playing voice always has its cursor on the buffer.
    pub open spec fn wf(self) -> bool {
        self.playing ==> self.pos < self.len
    }

    /// The state after a trigger: the cursor restarts at 0 and the voice
    /// plays (unless its buffer is empty, in which case there is nothing to
    /// play).  Whether and where the voice was already playing is discarded:
    /// a retrigger restarts the one playback, it never layers a second one.
    pub open spec fn triggered(self) -> Sound {
        Sound { len: self.len, pos: 0, playing: self.len > 0 }
    }

    /// The state after rendering one sample: a playing voice advances its
    /// cursor and stops once the cursor reaches the end of the buffer; an
    /// idle voice is untouched.
    pub open spec fn advanced(self) -> Sound {
        if self.playing {
            Sound {
                len: self.len,
                pos: (self.pos + 1) as usize,
                playing: self.pos + 1 < self.len,
            }
        } else {
            self
        }
    }

    /// The buffer index this voice contributes during the current sample:
    /// its cursor while playing.  (An idle voice contributes silence and the
    /// index is unused; 0 is returned as a placeholder.)
    pub open spec fn out_index(self) -> usize {
        if self.playing {
            self.pos
        } else {
            0
        }
    }

    /// A fresh, silent voice for a buffer of `len` samples.
    pub fn new(len: usize) -> (s: Sound)
        ensures
            s == (Sound { len, pos: 0, playing: false }),
    {
        Sound { len, pos: 0, playing: false }
    }

    /// Trigger (or retrigger) the voice: restart playback from sample 0.
    pub fn play(&mut self)
        ensures
            *final(self) == old(self).triggered(),
            final(self).wf(),
    {
        self.pos = 0;
        self.playing = self.len > 0;
    }

    /// Advance the voice by one sample, returning the buffer index it plays
    /// during this sample (meaningful only if it was playing).
    pub fn tick(&mut self) -> (out: usize)
        requires
            old(self).wf(),
        ensures
            *final(self) == old(self).advanced(),
            out == old(self).out_index(),
            final(self).wf(),
    {
        let mut out: usize = 0;
        if self.playing {
            out = self.pos;
            self.pos = self.pos + 1;
            if self.pos == self.len {
                self.playing = false;
            }
        }
        out
    }
}

/// Retrigger semantics: what a trigger does to a voice does not depend on the
/// voice's prior cursor or playing flag.  Triggering a voice already
/// mid-playback therefore leaves exactly the state a trigger from silence
/// leaves — playback restarts from sample 0; no second overlapping playback
/// can arise, since a voice is one cursor.
pub proof fn lemma_retrigger_restarts(mid_playback: Sound, idle: Sound)
    requires
        mid_playback.len == idle.len,
    ensures
        mid_playback.triggered() == idle.triggered(),
{
}

} // verus!
