//! The engine: the audio callback's step function.
//!
//! An [`Engine`] owns the pattern grid, the step clock, one playback cursor
//! per voice and the decoded sample buffers, plus the transport state
//! (running flag and tempo).  The host audio callback drives it: it forwards
//! any pending control messages ([`Engine::set_running`],
//! [`Engine::set_gate`], [`Engine::set_tempo_text`]) and then asks for one
//! output sample per tick ([`Engine::render_sample`]).
//!
//! Every observable step is pinned to a mathematical model
//! ([`EngineModel`], [`tick_state`], [`tick_out`]), so rendering is a pure
//! function of the engine state: see [`lemma_render_deterministic`] and
//! [`lemma_stopped_silence`].

use vstd::prelude::*;

verus! {

use crate::mix::contribution;
use crate::mix::mix_prefix;
use crate::mix::sat_add;
use crate::mix::sat_add_spec;
use crate::pattern::Pattern;
use crate::sequencer::Sequencer;
use crate::sequencer::STEPS_PER_BEAT;
use crate::tempo::parse_tempo_mbpm;
use crate::tempo::parse_tempo_spec;
use crate::tempo::TEMPO_MAX_MBPM;
use crate::tempo::TEMPO_MIN_MBPM;
use crate::voice::Sound;

/// The mathematical state of an engine: the same data as [`Engine`], with
/// every collection a sequence.
pub ghost struct EngineModel {
    pub running: bool,
    pub tempo_mbpm: u32,
    pub seq: Sequencer,
    pub tracks: Seq<Seq<bool>>,
    pub sounds: Seq<Sound>,
    pub samples: Seq<Seq<i16>>,
}

impl EngineModel {
    /// Well-formedness: a valid clock at the engine's tempo, one gate row,
    /// one voice and one sample buffer per voice, every row as long as the
    /// pattern, and every voice cursor on its buffer.
    pub open spec fn wf(self) -> bool {
        &&& self.seq.wf()
        &&& TEMPO_MIN_MBPM <= self.tempo_mbpm <= TEMPO_MAX_MBPM
        &&& self.seq.spp_den == STEPS_PER_BEAT * self.tempo_mbpm
        &&& self.tracks.len() == self.sounds.len()
        &&& self.samples.len() == self.sounds.len()
        &&& forall|v: int|
            0 <= v < self.tracks.len() ==> (#[trigger] self.tracks[v]).len() == self.seq.steps
        &&& forall|v: int| 0 <= v < self.sounds.len() ==> (#[trigger] self.sounds[v]).wf()
        &&& forall|v: int|
            0 <= v < self.sounds.len() ==> (#[trigger] self.sounds[v]).len
                == self.samples[v].len()
    }
}

/// The voices after a step boundary is consumed: every voice whose gate is on
/// at the clock's position is (re)triggered, the others are untouched.
pub open spec fn triggered_sounds(m: EngineModel) -> Seq<Sound> {
    Seq::new(
        m.sounds.len(),
        |v: int|
            if m.tracks[v][m.seq.pos as int] {
                m.sounds[v].triggered()
            } else {
                m.sounds[v]
            },
    )
}

/// The voices as the mixer sees them this tick: after consuming a pending
/// step boundary, else as they are.
pub open spec fn pre_mix_sounds(m: EngineModel) -> Seq<Sound> {
    if m.seq.updated {
        triggered_sounds(m)
    } else {
        m.sounds
    }
}

/// Every voice advanced by one rendered sample.
pub open spec fn advanced_sounds(sounds: Seq<Sound>) -> Seq<Sound> {
    Seq::new(sounds.len(), |v: int| sounds[v].advanced())
}

/// The output sample of one engine tick: silence while stopped, otherwise
/// the saturating mix of the playing voices (after consuming a pending step
/// boundary).
pub open spec fn tick_out(m: EngineModel) -> i16 {
    if !m.running {
        0
    } else {
        mix_prefix(pre_mix_sounds(m), m.samples, m.sounds.len() as int)
    }
}

/// The engine state after one tick: while stopped nothing moves (the clock
/// is paused, in-flight voices keep their cursors); while running, a pending
/// boundary triggers its voices and is cleared, the mixed voices advance,
/// and the clock ticks.
pub open spec fn tick_state(m: EngineModel) -> EngineModel {
    if !m.running {
        m
    } else {
        EngineModel {
            sounds: advanced_sounds(pre_mix_sounds(m)),
            seq: (Sequencer { updated: false, ..m.seq }).ticked(),
            ..m
        }
    }
}

/// The engine state after `n` ticks.
pub open spec fn run_state(m: EngineModel, n: nat) -> EngineModel
    decreases n,
{
    if n == 0 {
        m
    } else {
        tick_state(run_state(m, (n - 1) as nat))
    }
}

/// The `n` output samples of `n` ticks.
pub open spec fn run_output(m: EngineModel, n: nat) -> Seq<i16> {
    Seq::new(n, |k: int| tick_out(run_state(m, k as nat)))
}

/// One tick preserves well-formedness.
pub proof fn lemma_tick_state_wf(m: EngineModel)
    requires
        m.wf(),
    ensures
        tick_state(m).wf(),
{
    if m.running {
        let s1 = pre_mix_sounds(m);
        assert forall|v: int| 0 <= v < s1.len() implies (#[trigger] s1[v]).wf() && s1[v].len
            == m.samples[v].len() by {
            assert(m.sounds[v].wf());
        }
        let s2 = advanced_sounds(s1);
        assert forall|v: int| 0 <= v < s2.len() implies (#[trigger] s2[v]).wf() && s2[v].len
            == m.samples[v].len() by {
            assert(s1[v].wf());
        }
    }
}

/// Any run preserves well-formedness.
pub proof fn lemma_run_state_wf(m: EngineModel, n: nat)
    requires
        m.wf(),
    ensures
        run_state(m, n).wf(),
    decreases n,
{
    if n > 0 {
        lemma_run_state_wf(m, (n - 1) as nat);
        lemma_tick_state_wf(run_state(m, (n - 1) as nat));
    }
}

/// Determinism: rendering is a function of the engine state alone.  Two
/// engines in equal states — same pattern, tempo, clock, voices and sample
/// buffers — produce byte-identical output sequences, for any length.
pub proof fn lemma_render_deterministic(a: EngineModel, b: EngineModel, n: nat)
    requires
        a == b,
    ensures
        run_output(a, n) == run_output(b, n),
{
}

proof fn lemma_stopped_state(m: EngineModel, n: nat)
    requires
        !m.running,
    ensures
        run_state(m, n) == m,
    decreases n,
{
    if n > 0 {
        lemma_stopped_state(m, (n - 1) as nat);
    }
}

/// Stopped silence: while the transport is stopped, every rendered sample is
/// 0 and the engine state never moves, regardless of the pattern's content.
pub proof fn lemma_stopped_silence(m: EngineModel, n: nat)
    requires
        !m.running,
    ensures
        run_state(m, n) == m,
        forall|k: int| 0 <= k < n ==> #[trigger] run_output(m, n)[k] == 0,
{
    lemma_stopped_state(m, n);
    assert forall|k: int| 0 <= k < n implies #[trigger] run_output(m, n)[k] == 0 by {
        lemma_stopped_state(m, k as nat);
    }
}

/// The model after one gate toggle: an in-range `(voice, step)` entry is
/// replaced, an out-of-range toggle is dropped.
pub open spec fn with_gate(m: EngineModel, voice: int, step: int, on: bool) -> EngineModel {
    if 0 <= voice < m.tracks.len() && 0 <= step < m.tracks[voice].len() {
        EngineModel { tracks: m.tracks.update(voice, m.tracks[voice].update(step, on)), ..m }
    } else {
        m
    }
}

/// The model after a tempo message: an in-range tempo retunes the clock, an
/// out-of-range one is ignored.
pub open spec fn with_tempo(m: EngineModel, tempo_mbpm: u32) -> EngineModel {
    if TEMPO_MIN_MBPM <= tempo_mbpm <= TEMPO_MAX_MBPM {
        EngineModel { tempo_mbpm, seq: m.seq.retuned(tempo_mbpm), ..m }
    } else {
        m
    }
}

/// The engine.  See the module documentation; all fields are plain data, and
/// [`EngineModel`] (via `@`) is their mathematical view.
pub struct Engine {
    pub running: bool,
    pub tempo_mbpm: u32,
    pub seq: Sequencer,
    pub pattern: Pattern,
    pub sounds: Vec<Sound>,
    pub samples: Vec<Vec<i16>>,
}

impl View for Engine {
    type V = EngineModel;

    open spec fn view(&self) -> EngineModel {
        EngineModel {
            running: self.running,
            tempo_mbpm: self.tempo_mbpm,
            seq: self.seq,
            tracks: self.pattern@,
            sounds: self.sounds@,
            samples: Seq::new(self.samples@.len(), |v: int| self.samples@[v]@),
        }
    }
}

impl Engine {
    /// Build an engine: one voice per decoded sample buffer, every gate off,
    /// transport stopped, the clock resting one step before step 0.  The
    /// first boundary after starting therefore enters step 0 one full step
    /// period later.
    pub fn new(samplerate: u32, tempo_mbpm: u32, steps: usize, buffers: Vec<Vec<i16>>) -> (e:
        Engine)
        requires
            samplerate >= 1,
            steps >= 1,
            TEMPO_MIN_MBPM <= tempo_mbpm <= TEMPO_MAX_MBPM,
        ensures
            e@.wf(),
            !e.running,
            e.tempo_mbpm == tempo_mbpm,
            e.seq.samplerate == samplerate,
            e.seq.steps == steps,
            e.seq.pos == steps - 1,
            !e.seq.updated,
            e.seq.sample == 0,
            e.seq.carry == 0,
            e@.tracks.len() == buffers@.len(),
            forall|v: int, s: int|
                0 <= v < buffers@.len() && 0 <= s < steps ==> !(#[trigger] e@.tracks[v][s]),
            e@.sounds.len() == buffers@.len(),
            forall|v: int|
                0 <= v < buffers@.len() ==> (#[trigger] e@.sounds[v]).len == buffers@[v]@.len()
                    && e@.sounds[v].pos == 0 && !e@.sounds[v].playing,
            e@.samples.len() == buffers@.len(),
            forall|v: int| 0 <= v < buffers@.len() ==> #[trigger] e@.samples[v] == buffers@[v]@,
    {
        let voices = buffers.len();
        let mut sounds: Vec<Sound> = Vec::new();
        let mut v: usize = 0;
        while v < voices
            invariant
                v <= voices,
                voices == buffers@.len(),
                sounds@.len() == v,
                forall|i: int|
                    0 <= i < v ==> (#[trigger] sounds@[i]).len == buffers@[i]@.len()
                        && sounds@[i].pos == 0 && !sounds@[i].playing,
            decreases voices - v,
        {
            let len = buffers[v].len();
            sounds.push(Sound::new(len));
            v = v + 1;
        }
        Engine {
            running: false,
            tempo_mbpm,
            seq: Sequencer::new(tempo_mbpm, samplerate, steps),
            pattern: Pattern::new(voices, steps),
            sounds,
            samples: buffers,
        }
    }

    /// Start or stop the transport.  Stopping pauses the clock; it does not
    /// reset the step position and does not silence in-flight voices — they
    /// resume if rendering resumes.
    pub fn set_running(&mut self, on: bool)
        requires
            old(self)@.wf(),
        ensures
            final(self)@ == (EngineModel { running: on, ..old(self)@ }),
            final(self)@.wf(),
    {
        self.running = on;
    }

    /// Apply one step-toggle message.  Out-of-range `voice` or `step` values
    /// are malformed input: they are dropped without panicking.
    pub fn set_gate(&mut self, voice: usize, step: usize, on: bool)
        requires
            old(self)@.wf(),
        ensures
            final(self)@ == with_gate(old(self)@, voice as int, step as int, on),
            final(self)@.wf(),
    {
        self.pattern.set_gate(voice, step, on);
        proof {
            let m0 = old(self)@;
            if voice < m0.tracks.len() && step < m0.tracks[voice as int].len() {
                assert(self@.tracks =~~= with_gate(m0, voice as int, step as int, on).tracks);
                assert forall|t: int|
                    0 <= t < self@.tracks.len() implies (#[trigger] self@.tracks[t]).len()
                    == self@.seq.steps by {
                    assert(m0.tracks[t].len() == m0.seq.steps);
                }
            } else {
                assert(self@.tracks =~~= m0.tracks);
            }
        }
    }

    /// Apply one tempo message, in milli-BPM.  A tempo outside the accepted
    /// 1 to 300 BPM range is ignored; an accepted one retunes the clock.
    pub fn set_tempo_mbpm(&mut self, tempo_mbpm: u32)
        requires
            old(self)@.wf(),
        ensures
            final(self)@ == with_tempo(old(self)@, tempo_mbpm),
            final(self)@.wf(),
    {
        if TEMPO_MIN_MBPM <= tempo_mbpm && tempo_mbpm <= TEMPO_MAX_MBPM {
            self.tempo_mbpm = tempo_mbpm;
            self.seq.set_tempo(tempo_mbpm);
        }
    }

    /// Apply one tempo message given as text.  Malformed text — and text
    /// denoting a tempo outside the accepted range — leaves the tempo and
    /// the samples-per-step ratio unchanged; well-formed text in range
    /// retunes the clock to its value.
    pub fn set_tempo_text(&mut self, text: &[u8])
        requires
            old(self)@.wf(),
        ensures
            parse_tempo_spec(text@) matches Some(t) ==> final(self)@ == with_tempo(
                old(self)@,
                t,
            ),
            parse_tempo_spec(text@) is None ==> final(self)@ == old(self)@,
            final(self)@.wf(),
    {
        let parsed = parse_tempo_mbpm(text);
        match parsed {
            Some(t) => self.set_tempo_mbpm(t),
            None => (),
        }
    }

    /// Render one output sample and advance the engine by one tick: the
    /// audio callback's per-sample body.  While stopped this returns silence
    /// and moves nothing; while running it consumes a pending step boundary
    /// (triggering the gated voices), mixes and advances the playing voices,
    /// and ticks the clock.
    pub fn render_sample(&mut self) -> (out: i16)
        requires
            old(self)@.wf(),
        ensures
            final(self)@ == tick_state(old(self)@),
            out == tick_out(old(self)@),
            final(self)@.wf(),
    {
        proof {
            lemma_tick_state_wf(old(self)@);
        }
        if !self.running {
            return 0;
        }
        let ghost m0 = old(self)@;
        let count = self.sounds.len();
        if self.seq.updated {
            let pos = self.seq.pos;
            let mut v: usize = 0;
            while v < count
                invariant
                    old(self)@.wf(),
                    v <= count,
                    count == self.sounds@.len(),
                    count == old(self).sounds@.len(),
                    self.running == old(self).running,
                    self.tempo_mbpm == old(self).tempo_mbpm,
                    self.seq == old(self).seq,
                    self.pattern == old(self).pattern,
                    self.samples == old(self).samples,
                    pos == old(self).seq.pos,
                    forall|t: int|
                        0 <= t < v ==> #[trigger] self.sounds@[t] == triggered_sounds(
                            old(self)@,
                        )[t],
                    forall|t: int| v <= t < count ==> self.sounds@[t] == old(self).sounds@[t],
                decreases count - v,
            {
                if self.pattern.get_gate(v, pos) {
                    let mut snd = self.sounds[v];
                    snd.play();
                    self.sounds[v] = snd;
                }
                v = v + 1;
            }
            self.seq.updated = false;
            proof {
                assert(self.sounds@ =~= pre_mix_sounds(m0));
            }
        }
        let ghost s1 = self.sounds@;
        proof {
            assert(s1 =~= pre_mix_sounds(m0));
            assert forall|t: int| 0 <= t < s1.len() implies (#[trigger] s1[t]).wf() && s1[t].len
                == m0.samples[t].len() by {
                assert(m0.sounds[t].wf());
            }
        }
        let mut mix: i16 = 0;
        let mut v: usize = 0;
        while v < count
            invariant
                m0.wf(),
                v <= count,
                count == self.sounds@.len(),
                count == s1.len(),
                count == m0.sounds.len(),
                self.running == old(self).running,
                self.tempo_mbpm == old(self).tempo_mbpm,
                self.seq == (Sequencer { updated: false, ..m0.seq }),
                self.pattern == old(self).pattern,
                self.samples == old(self).samples,
                self@.samples == m0.samples,
                forall|t: int|
                    0 <= t < s1.len() ==> (#[trigger] s1[t]).wf() && s1[t].len
                        == m0.samples[t].len(),
                mix == mix_prefix(s1, m0.samples, v as int),
                forall|t: int| 0 <= t < v ==> #[trigger] self.sounds@[t] == s1[t].advanced(),
                forall|t: int| v <= t < count ==> self.sounds@[t] == s1[t],
            decreases count - v,
        {
            let snd0 = self.sounds[v];
            proof {
                assert(snd0 == s1[v as int]);
            }
            if snd0.playing {
                let mut snd = snd0;
                let idx = snd.tick();
                self.sounds[v] = snd;
                let val = self.samples[v][idx];
                proof {
                    assert(val == contribution(s1[v as int], m0.samples[v as int]));
                }
                mix = sat_add(mix, val);
            } else {
                proof {
                    assert(contribution(s1[v as int], m0.samples[v as int]) == 0);
                    assert(sat_add_spec(mix, 0) == mix);
                }
            }
            v = v + 1;
        }
        self.seq.tick();
        proof {
            assert(self@.sounds =~= advanced_sounds(s1));
            assert(self@.samples =~= m0.samples);
            assert(self@.tracks =~~= m0.tracks);
        }
        mix
    }

    /// Render `n` consecutive output samples: the audio callback's buffer
    /// loop.
    pub fn render(&mut self, n: usize) -> (out: Vec<i16>)
        requires
            old(self)@.wf(),
        ensures
            final(self)@ == run_state(old(self)@, n as nat),
            out@ == run_output(old(self)@, n as nat),
            final(self)@.wf(),
    {
        let mut out: Vec<i16> = Vec::new();
        let mut k: usize = 0;
        while k < n
            invariant
                old(self)@.wf(),
                k <= n,
                self@ == run_state(old(self)@, k as nat),
                self@.wf(),
                out@.len() == k,
                forall|t: int|
                    0 <= t < k ==> #[trigger] out@[t] == tick_out(run_state(old(self)@, t as nat)),
            decreases n - k,
        {
            let s = self.render_sample();
            out.push(s);
            k = k + 1;
            proof {
                assert(run_state(old(self)@, k as nat) == tick_state(
                    run_state(old(self)@, (k - 1) as nat),
                ));
            }
        }
        proof {
            assert(out@ =~= run_output(old(self)@, n as nat));
        }
        out
    }
}

} // verus!
