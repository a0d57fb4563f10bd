//! One sounding note, and the bank that owns all of them.
//!
//! A [`Voice`] couples a note number with its own envelope, a held flag, a
//! stereo pan position and a retirement timer.  The [`VoiceBank`] allocates
//! a voice per note, re-strikes a note that is already sounding in place,
//! releases on note-off, and retires a voice only after its envelope has
//! rested in Silence for a whole hysteresis window of render cycles.
//!
//! Pan positions are exact rationals.  The bank walks a low-discrepancy
//! seed, a fraction over [`SEED_DEN`], adding [`SEED_INC`] numerator units
//! (about five and two thirds) modulo the denominator at each allocation;
//! the stored pan is the seed mapped into the middle of the stereo field,
//! a fraction over [`PAN_DEN`].  Successive allocations therefore never
//! land on the same pan position.

use vstd::prelude::*;
use vstd::pervasive::VecAdditionalExecFns;

use crate::adsr::Adsr;
use crate::adsr::AdsrState;
use crate::adsr::NANOS_PER_SEC;
use crate::adsr::env_run;
use crate::adsr::spec_adsr_new;
use crate::math::SCALE;
use crate::math::spec_isqrt;

verus! {

/// Denominator of the pan seed: seeds are fractions `seed / SEED_DEN`.
pub const SEED_DEN: u64 = 443;

/// Numerator units added to the seed per allocation, taken modulo
/// [`SEED_DEN`]: an irrational-like stride that spreads voices across the
/// stereo field without clustering.
pub const SEED_INC: u64 = 2503;

/// Denominator of a stored pan: pans are fractions `pan / PAN_DEN` in
/// `[0, 1]`, 0 hard left and 1 hard right.
pub const PAN_DEN: u64 = 2215;

/// How many render cycles a silent voice is retained before retirement:
/// the voice leaves the bank once its silence timer exceeds this.
pub const RETIRE_DELAY: u8 = 40;

/// Attack time of every voice, in microseconds.
pub const ATTACK_MICROS: u64 = 30_000;

/// Decay time of every voice, in microseconds.
pub const DECAY_MICROS: u64 = 200_000;

/// Sustain level of every voice, in millionths of full scale.
pub const SUSTAIN_LEVEL: u64 = 500_000;

/// Release time of every voice, in microseconds.
pub const RELEASE_MICROS: u64 = 4_000_000;

/// The gain a strike velocity maps to: the squared velocity fraction, in
/// millionths (127 maps to full scale).
pub open spec fn spec_velocity_gain(velocity: u8) -> int {
    let v = if velocity > 127 {
        127 as int
    } else {
        velocity as int
    };
    (v * v * SCALE) / ((127 * 127) as int)
}

/// The gain a note is actually struck with: the velocity gain scaled by a
/// fixed mix headroom of seven tenths.
pub open spec fn spec_note_gain(velocity: u8) -> int {
    (spec_velocity_gain(velocity) * 7) / 10
}

/// The pan a given seed allocates: the seed mapped affinely into the
/// middle three fifths of the stereo field, as a fraction over
/// [`PAN_DEN`].
pub open spec fn pan_of_seed(seed: u64) -> int {
    3 * seed + SEED_DEN
}

/// The seed after one allocation.
pub open spec fn next_seed(seed: u64) -> int {
    (seed + SEED_INC) % (SEED_DEN as int)
}

/// The squared velocity curve, exactly.
pub fn midi_velocity_to_gain(velocity: u8) -> (g: u64)
    ensures
        g == spec_velocity_gain(velocity),
        g <= SCALE,
{
    let v: u64 = if velocity > 127 {
        127
    } else {
        velocity as u64
    };
    proof {
        assert(v * v <= 127 * 127) by (nonlinear_arith)
            requires
                0 <= v <= 127,
        {
        }
        assert(v * v * SCALE <= 16129 * SCALE) by (nonlinear_arith)
            requires
                0 <= v * v <= 16129,
        {
        }
        assert((v * v * SCALE) / (16129 as int) <= SCALE) by (nonlinear_arith)
            requires
                0 <= v * v * SCALE <= 16129 * SCALE,
        {
        }
    }
    (v * v * SCALE) / 16129
}

/// The pan the current seed allocates, clamped into `[0, PAN_DEN]` (the
/// mapping keeps well inside, so the clamp is a guard, not a correction).
pub fn pan_from_seed(seed: u64) -> (p: u64)
    requires
        seed < SEED_DEN,
    ensures
        p == pan_of_seed(seed),
        0 < p < PAN_DEN,
{
    let raw = 3 * seed + SEED_DEN;
    if raw > PAN_DEN {
        PAN_DEN
    } else {
        raw
    }
}

/// Two notes allocated back to back never receive the same pan, and every
/// pan lies strictly inside the stereo field.
pub proof fn lemma_pan_spread(seed: u64)
    requires
        seed < SEED_DEN,
    ensures
        0 < pan_of_seed(seed) < PAN_DEN,
        0 <= next_seed(seed) < SEED_DEN,
        pan_of_seed(seed) != 3 * next_seed(seed) + SEED_DEN,
{
    if seed < 155 {
        vstd::arithmetic::div_mod::lemma_fundamental_div_mod_converse(
            seed + SEED_INC,
            SEED_DEN as int,
            5,
            seed + 288,
        );
    } else {
        vstd::arithmetic::div_mod::lemma_fundamental_div_mod_converse(
            seed + SEED_INC,
            SEED_DEN as int,
            6,
            seed - 155,
        );
    }
}

/// One sounding note: its envelope, held flag, pan, and the timer that
/// counts silent render cycles toward retirement.
#[derive(Copy, Clone, Debug)]
pub struct Voice {
    pub note: u8,
    pub adsr: Adsr,
    pub active: bool,
    pub silence_timer: u8,
    pub pan: u64,
}

/// The voice a fresh allocation produces.
pub open spec fn spec_new_voice(note: u8, gain: u64, pan: u64) -> Voice {
    Voice {
        note,
        adsr: spec_adsr_new(ATTACK_MICROS, DECAY_MICROS, SUSTAIN_LEVEL, RELEASE_MICROS, gain),
        active: true,
        silence_timer: 0,
        pan,
    }
}

/// The voice a re-strike leaves: peak gain re-aimed, held again, the
/// retirement timer cleared, and the envelope otherwise undisturbed.
pub open spec fn spec_restarted(v: Voice, gain: u64) -> Voice {
    Voice {
        adsr: Adsr { gain_lvl: spec_isqrt(gain * SCALE) as u64, ..v.adsr },
        active: true,
        silence_timer: 0,
        ..v
    }
}

/// A saturating increment of the retirement timer.
pub open spec fn spec_bump_timer(t: u8) -> u8 {
    if t == 255 {
        255
    } else {
        (t + 1) as u8
    }
}

/// The voice a render cycle of `frames` samples leaves: the envelope run
/// forward with the held flag as gate input, and the retirement timer
/// bumped exactly when the cycle ends in Silence.
pub open spec fn spec_rendered(v: Voice, dt_nanos: u64, frames: nat) -> Voice {
    let e = env_run(v.adsr, dt_nanos, v.active, frames);
    Voice {
        adsr: e,
        silence_timer: if e.state == AdsrState::Silence {
            spec_bump_timer(v.silence_timer)
        } else {
            v.silence_timer
        },
        ..v
    }
}

impl Voice {
    /// The voice's bounds: a sound envelope and a pan within the field.
    pub open spec fn wf(self) -> bool {
        &&& self.adsr.wf()
        &&& self.pan <= PAN_DEN
    }

    /// A fresh voice for `note`, held, with the engine's stage times.
    pub fn new(note: u8, gain: u64, pan: u64) -> (v: Voice)
        requires
            gain <= SCALE,
            pan <= PAN_DEN,
        ensures
            v == spec_new_voice(note, gain, pan),
            v.wf(),
    {
        Voice {
            note,
            adsr: Adsr::new(ATTACK_MICROS, DECAY_MICROS, SUSTAIN_LEVEL, RELEASE_MICROS, gain),
            active: true,
            silence_timer: 0,
            pan,
        }
    }

    /// Re-strike in place: aim the envelope at the new peak, hold the note
    /// again, and clear the retirement timer.  The envelope position and
    /// stage are deliberately left alone.
    pub fn restart(&mut self, gain: u64)
        requires
            gain <= SCALE,
        ensures
            *final(self) == spec_restarted(*old(self), gain),
            old(self).wf() ==> final(self).wf(),
    {
        self.adsr.set_gain(gain);
        self.active = true;
        self.silence_timer = 0;
    }

    /// Stop holding the note; the envelope will release on its next
    /// sample's falling edge.
    pub fn release(&mut self)
        ensures
            *final(self) == (Voice { active: false, ..*old(self) }),
    {
        self.active = false;
    }

    /// True once the voice has sat silent through the whole hysteresis
    /// window and may be retired.
    pub fn is_silent(&self) -> (r: bool)
        ensures
            r == (self.silence_timer > RETIRE_DELAY),
    {
        self.silence_timer > RETIRE_DELAY
    }

    /// One render cycle: advance the envelope `frames` samples with the
    /// held flag as gate input, collect each sample's squared amplitude
    /// into `out` (clearing it first), and bump the retirement timer if
    /// the cycle ends in Silence.
    pub fn render_frames(&mut self, dt_nanos: u64, frames: usize, out: &mut Vec<u64>)
        requires
            old(self).wf(),
            dt_nanos <= NANOS_PER_SEC,
        ensures
            *final(self) == spec_rendered(*old(self), dt_nanos, frames as nat),
            final(self).wf(),
            final(out)@.len() == frames,
            forall|k: int| 0 <= k < frames ==> final(out)@[k] == env_run(
                old(self).adsr,
                dt_nanos,
                old(self).active,
                k as nat,
            ).out_sample(),
    {
        out.clear();
        let held = self.active;
        let mut i: usize = 0;
        while i < frames
            invariant
                i <= frames,
                dt_nanos <= NANOS_PER_SEC,
                held == old(self).active,
                self.note == old(self).note,
                self.active == old(self).active,
                self.silence_timer == old(self).silence_timer,
                self.pan == old(self).pan,
                self.adsr == env_run(old(self).adsr, dt_nanos, held, i as nat),
                self.adsr.wf(),
                out@.len() == i,
                forall|k: int| 0 <= k < i ==> out@[k] == env_run(
                    old(self).adsr,
                    dt_nanos,
                    held,
                    k as nat,
                ).out_sample(),
            decreases frames - i,
        {
            let env = self.adsr.advance(dt_nanos, held);
            out.push(env);
            i += 1;
        }
        if self.adsr.is_silent() {
            self.silence_timer = if self.silence_timer == 255 {
                255
            } else {
                self.silence_timer + 1
            };
        }
    }
}

/// What one render cycle does to the retirement timer: it crosses the
/// retirement threshold only on a cycle that ends with the envelope in
/// Silence, and only from the very edge of the window.  A voice the next
/// sweep retires was therefore silent when its last cycle ended.
pub proof fn lemma_retirement_needs_silence(v: Voice, dt_nanos: u64, frames: nat)
    requires
        v.silence_timer <= RETIRE_DELAY,
    ensures
        spec_rendered(v, dt_nanos, frames).silence_timer > RETIRE_DELAY ==> {
            &&& spec_rendered(v, dt_nanos, frames).adsr.state == AdsrState::Silence
            &&& v.silence_timer == RETIRE_DELAY
        },
{
}

/// A silent voice that is no longer held renders nothing: every envelope
/// sample of its cycle is zero and the cycle ends still in Silence.  With
/// no voice sounding, a render pass therefore has nothing to add to the
/// output, which stays all zero.
pub proof fn lemma_silent_voice_renders_zero(v: Voice, dt_nanos: u64, frames: nat)
    requires
        v.wf(),
        !v.active,
        v.adsr.state == AdsrState::Silence,
    ensures
        forall|k: nat|
            k <= frames ==> #[trigger] env_run(v.adsr, dt_nanos, false, k).out_sample() == 0,
        spec_rendered(v, dt_nanos, frames).adsr.state == AdsrState::Silence,
{
    assert forall|k: nat| k <= frames implies #[trigger] env_run(
        v.adsr,
        dt_nanos,
        false,
        k,
    ).out_sample() == 0 by {
        crate::envelope_laws::lemma_silence_without_input(v.adsr, dt_nanos, k);
    }
    crate::envelope_laws::lemma_silence_without_input(v.adsr, dt_nanos, frames);
}

/// Whether some voice in `s` sounds `note`.
pub open spec fn has_note(s: Seq<Voice>, note: u8) -> bool {
    exists|i: int| 0 <= i < s.len() && s[i].note == note
}

/// The voices a retirement sweep keeps: those whose silence timer has not
/// yet outlived the hysteresis window, keeping their order.
pub open spec fn spec_retained(s: Seq<Voice>) -> Seq<Voice>
    decreases s.len(),
{
    if s.len() == 0 {
        Seq::empty()
    } else {
        let rest = spec_retained(s.drop_first());
        if s[0].silence_timer <= RETIRE_DELAY {
            seq![s[0]] + rest
        } else {
            rest
        }
    }
}

/// Every voice a sweep keeps comes from the swept sequence and is within
/// its window.
pub proof fn lemma_retained_elements(s: Seq<Voice>)
    ensures
        forall|a: int| 0 <= a < spec_retained(s).len() ==> (#[trigger] spec_retained(s)[a])
            .silence_timer <= RETIRE_DELAY,
        forall|a: int| 0 <= a < spec_retained(s).len() ==> exists|j: int|
            0 <= j < s.len() && #[trigger] spec_retained(s)[a] == s[j],
    decreases s.len(),
{
    if s.len() > 0 {
        lemma_retained_elements(s.drop_first());
        let rest = spec_retained(s.drop_first());
        assert forall|a: int| 0 <= a < spec_retained(s).len() implies (#[trigger] spec_retained(
            s,
        )[a]).silence_timer <= RETIRE_DELAY && exists|j: int|
            0 <= j < s.len() && spec_retained(s)[a] == s[j] by {
            if s[0].silence_timer <= RETIRE_DELAY {
                if a == 0 {
                    assert(spec_retained(s)[0] == s[0]);
                } else {
                    assert(spec_retained(s)[a] == rest[a - 1]);
                    let j = choose|j: int|
                        0 <= j < s.drop_first().len() && rest[a - 1] == s.drop_first()[j];
                    assert(spec_retained(s)[a] == s[j + 1]);
                }
            } else {
                assert(spec_retained(s)[a] == rest[a]);
                let j = choose|j: int|
                    0 <= j < s.drop_first().len() && rest[a] == s.drop_first()[j];
                assert(spec_retained(s)[a] == s[j + 1]);
            }
        }
    }
}

/// A voice still within its window survives the sweep.
pub proof fn lemma_retained_contains(s: Seq<Voice>, j: int)
    requires
        0 <= j < s.len(),
        s[j].silence_timer <= RETIRE_DELAY,
    ensures
        spec_retained(s).contains(s[j]),
    decreases s.len(),
{
    let rest = spec_retained(s.drop_first());
    if j == 0 {
        assert(spec_retained(s)[0] == s[0]);
    } else {
        lemma_retained_contains(s.drop_first(), j - 1);
        let a = choose|a: int| 0 <= a < rest.len() && rest[a] == s.drop_first()[j - 1];
        if s[0].silence_timer <= RETIRE_DELAY {
            assert(spec_retained(s)[a + 1] == rest[a]);
        } else {
            assert(spec_retained(s)[a] == rest[a]);
        }
    }
}

/// The bank of live voices, with the pan seed the next allocation will
/// use.  Voices keep their allocation order; a note sounds in at most one
/// voice at a time.
pub struct VoiceBank {
    pub voices: Vec<Voice>,
    pub pan_seed: u64,
}

impl VoiceBank {
    /// The bank's invariant: a valid seed, every voice sound, and no two
    /// voices sounding the same note.
    pub open spec fn wf(self) -> bool {
        &&& self.pan_seed < SEED_DEN
        &&& forall|i: int| 0 <= i < self.voices@.len() ==> (#[trigger] self.voices@[i]).wf()
        &&& forall|i: int, j: int|
            0 <= i < j < self.voices@.len() ==> self.voices@[i].note != self.voices@[j].note
    }

    /// An empty bank.
    pub fn new() -> (b: VoiceBank)
        ensures
            b.voices@.len() == 0,
            b.pan_seed == 0,
            b.wf(),
    {
        VoiceBank { voices: Vec::new(), pan_seed: 0 }
    }

    /// How many voices are live (sounding or fading).
    pub fn voice_count(&self) -> (n: usize)
        ensures
            n == self.voices@.len(),
    {
        self.voices.len()
    }

    /// The index of the voice sounding `note`, if any.
    pub(crate) fn index_of(&self, note: u8) -> (r: Option<usize>)
        ensures
            match r {
                Some(i) => i < self.voices@.len() && self.voices@[i as int].note == note,
                None => forall|i: int| 0 <= i < self.voices@.len() ==> (#[trigger] self
                    .voices@[i]).note != note,
            },
    {
        let mut i: usize = 0;
        while i < self.voices.len()
            invariant
                i <= self.voices@.len(),
                forall|k: int| 0 <= k < i ==> (#[trigger] self.voices@[k]).note != note,
            decreases self.voices@.len() - i,
        {
            if self.voices[i].note == note {
                return Some(i);
            }
            i += 1;
        }
        None
    }

    /// Strike `note` with `velocity`.  A note already sounding is
    /// re-struck in place — the voice count does not grow, and no other
    /// voice or the pan seed is touched.  A new note gets a fresh voice at
    /// the seed's pan, appended, and the seed steps on.
    pub fn note_on(&mut self, note: u8, velocity: u8)
        requires
            old(self).wf(),
        ensures
            final(self).wf(),
            has_note(old(self).voices@, note) ==> {
                &&& final(self).voices@.len() == old(self).voices@.len()
                &&& final(self).pan_seed == old(self).pan_seed
                &&& forall|i: int|
                    0 <= i < old(self).voices@.len()
                        ==> #[trigger] final(self).voices@[i] == (if old(self).voices@[i].note
                        == note {
                    spec_restarted(old(self).voices@[i], spec_note_gain(velocity) as u64)
                } else {
                    old(self).voices@[i]
                })
            },
            !has_note(old(self).voices@, note) ==> {
                &&& final(self).voices@ == old(self).voices@.push(
                    spec_new_voice(
                        note,
                        spec_note_gain(velocity) as u64,
                        pan_of_seed(old(self).pan_seed) as u64,
                    ),
                )
                &&& final(self).pan_seed == next_seed(old(self).pan_seed)
            },
    {
        let g = midi_velocity_to_gain(velocity);
        let gain = (g * 7) / 10;
        match self.index_of(note) {
            Some(i) => {
                let mut v = self.voices[i];
                v.restart(gain);
                self.voices.set(i, v);
            },
            None => {
                let pan = pan_from_seed(self.pan_seed);
                proof {
                    lemma_pan_spread(self.pan_seed);
                }
                self.pan_seed = (self.pan_seed + SEED_INC) % SEED_DEN;
                self.voices.push(Voice::new(note, gain, pan));
            },
        }
    }

    /// Stop holding `note`: the voice sounding it, if any, is released
    /// and fades on its own.  An unknown note is a no-op: the bank is
    /// left exactly as it was.
    pub fn note_off(&mut self, note: u8)
        requires
            old(self).wf(),
        ensures
            final(self).wf(),
            final(self).pan_seed == old(self).pan_seed,
            final(self).voices@.len() == old(self).voices@.len(),
            forall|i: int| 0 <= i < old(self).voices@.len() ==> #[trigger] final(self).voices@[i]
                == (if old(self).voices@[i].note == note {
                Voice { active: false, ..old(self).voices@[i] }
            } else {
                old(self).voices@[i]
            }),
            !has_note(old(self).voices@, note) ==> *final(self) == *old(self),
    {
        match self.index_of(note) {
            Some(i) => {
                let mut v = self.voices[i];
                v.release();
                self.voices.set(i, v);
            },
            None => {},
        }
    }

    /// Retire every voice whose silence timer has outlived the hysteresis
    /// window; all others stay, in order.  A voice is removed only after
    /// sitting in Silence through the whole window of render cycles.
    pub fn clean_up(&mut self)
        requires
            old(self).wf(),
        ensures
            final(self).wf(),
            final(self).pan_seed == old(self).pan_seed,
            final(self).voices@ == spec_retained(old(self).voices@),
            forall|a: int|
                0 <= a < final(self).voices@.len()
                    ==> (#[trigger] final(self).voices@[a]).silence_timer <= RETIRE_DELAY,
            forall|j: int|
                0 <= j < old(self).voices@.len() && old(self).voices@[j].silence_timer
                    <= RETIRE_DELAY ==> final(self).voices@.contains(
                    #[trigger] old(self).voices@[j],
                ),
    {
        let ghost whole = self.voices@;
        let mut kept: Vec<Voice> = Vec::new();
        let mut i: usize = 0;
        proof {
            assert(whole.skip(0) =~= whole);
            assert(kept@ + spec_retained(whole) =~= spec_retained(whole));
        }
        while i < self.voices.len()
            invariant
                i <= self.voices@.len(),
                self.voices@ == whole,
                kept@ + spec_retained(whole.skip(i as int)) == spec_retained(whole),
                forall|a: int| 0 <= a < kept@.len() ==> (#[trigger] kept@[a]).silence_timer
                    <= RETIRE_DELAY,
            decreases self.voices@.len() - i,
        {
            let v = self.voices[i];
            proof {
                let tail = whole.skip(i as int);
                assert(tail[0] == whole[i as int]);
                assert(tail.drop_first() =~= whole.skip(i as int + 1));
                if v.silence_timer <= RETIRE_DELAY {
                    assert(kept@ + (seq![v] + spec_retained(whole.skip(i as int + 1)))
                        =~= (kept@.push(v)) + spec_retained(whole.skip(i as int + 1)));
                }
            }
            if !v.is_silent() {
                kept.push(v);
            }
            i += 1;
        }
        proof {
            assert(whole.skip(whole.len() as int).len() == 0);
            assert(kept@ + spec_retained(whole.skip(whole.len() as int)) =~= kept@);
            assert(kept@ == spec_retained(whole));
            lemma_retained_elements(whole);
            assert forall|j: int|
                0 <= j < whole.len() && whole[j].silence_timer <= RETIRE_DELAY implies kept@
                .contains(whole[j]) by {
                lemma_retained_contains(whole, j);
            }
            assert forall|a: int, b: int| 0 <= a < b < kept@.len() implies kept@[a].note
                != kept@[b].note by {
                let ja = choose|j: int| 0 <= j < whole.len() && spec_retained(whole)[a] == whole[j];
                let jb = choose|j: int| 0 <= j < whole.len() && spec_retained(whole)[b] == whole[j];
                if ja == jb {
                    assert(kept@[a] == kept@[b]);
                    assert(false) by {
                        lemma_retained_distinct(whole, a, b);
                    }
                }
            }
        }
        self.voices = kept;
    }
}

/// Entries of a sweep's result at different indices come from different
/// voices: the sweep never duplicates.
pub proof fn lemma_retained_distinct(s: Seq<Voice>, a: int, b: int)
    requires
        0 <= a < b < spec_retained(s).len(),
        forall|i: int, j: int| 0 <= i < j < s.len() ==> s[i].note != s[j].note,
    ensures
        spec_retained(s)[a].note != spec_retained(s)[b].note,
    decreases s.len(),
{
    let rest = spec_retained(s.drop_first());
    lemma_retained_elements(s.drop_first());
    if s[0].silence_timer <= RETIRE_DELAY {
        if a == 0 {
            assert(spec_retained(s)[0] == s[0]);
            assert(spec_retained(s)[b] == rest[b - 1]);
            let j = choose|j: int|
                0 <= j < s.drop_first().len() && rest[b - 1] == s.drop_first()[j];
            assert(s.drop_first()[j] == s[j + 1]);
        } else {
            assert(spec_retained(s)[a] == rest[a - 1]);
            assert(spec_retained(s)[b] == rest[b - 1]);
            lemma_retained_distinct(s.drop_first(), a - 1, b - 1);
        }
    } else {
        assert(spec_retained(s)[a] == rest[a]);
        assert(spec_retained(s)[b] == rest[b]);
        lemma_retained_distinct(s.drop_first(), a, b);
    }
}

} // verus!
