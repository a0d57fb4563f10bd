//! The engine behind the render entry point: command queue, voice bank,
//! and the feedback snapshot.
//!
//! Commands arrive through a bounded queue and are drained, in send order,
//! at the start of every render cycle.  A full queue drops the command and
//! says so — the sender is never blocked.  After the voices have rendered,
//! the cycle ends by retiring voices whose hysteresis window has elapsed
//! and, when enabled, by rebuilding the feedback snapshot: one entry per
//! live voice, sorted ascending by note.  The host publishes that snapshot
//! however it likes; building it touches nothing shared.

use vstd::prelude::*;

use crate::adsr::NANOS_PER_SEC;
use crate::adsr::env_run;
use crate::voice::PAN_DEN;
use crate::voice::Voice;
use crate::voice::VoiceBank;
use crate::voice::has_note;
use crate::voice::next_seed;
use crate::voice::pan_of_seed;
use crate::voice::spec_new_voice;
use crate::voice::spec_note_gain;
use crate::voice::spec_rendered;
use crate::voice::spec_restarted;
use crate::voice::spec_retained;

verus! {

/// How many commands the queue holds before it starts dropping.
pub const QUEUE_CAPACITY: usize = 128;

/// The sample rate assumed until the host configures one.
pub const DEFAULT_SAMPLE_RATE: u32 = 44100;

/// A command from the control side to the engine.
#[derive(Copy, Clone, Debug, PartialEq, Eq, Structural)]
pub enum SynthMessage {
    NoteOn { note: u8, velocity: u8 },
    NoteOff(u8),
    SetUiFeedback(bool),
}

/// The bounded command queue: first in, first out, never more than
/// [`QUEUE_CAPACITY`] pending.
pub struct CommandQueue {
    pub items: Vec<SynthMessage>,
}

impl CommandQueue {
    /// The queue never exceeds its capacity.
    pub open spec fn wf(self) -> bool {
        self.items@.len() <= QUEUE_CAPACITY
    }

    /// An empty queue.
    pub fn new() -> (q: CommandQueue)
        ensures
            q.items@.len() == 0,
            q.wf(),
    {
        CommandQueue { items: Vec::new() }
    }

    /// Append a command if there is room; a full queue drops it and
    /// returns false, signalling backpressure rather than blocking.
    pub fn push(&mut self, msg: SynthMessage) -> (accepted: bool)
        requires
            old(self).wf(),
        ensures
            final(self).wf(),
            accepted == (old(self).items@.len() < QUEUE_CAPACITY),
            accepted ==> final(self).items@ == old(self).items@.push(msg),
            !accepted ==> *final(self) == *old(self),
    {
        if self.items.len() < QUEUE_CAPACITY {
            self.items.push(msg);
            true
        } else {
            false
        }
    }

    /// Take the oldest pending command, if any.
    fn pop_front(&mut self) -> (r: Option<SynthMessage>)
        requires
            old(self).wf(),
        ensures
            final(self).wf(),
            match r {
                Some(m) => old(self).items@.len() > 0 && m == old(self).items@[0] && final(self)
                    .items@ == old(self).items@.drop_first(),
                None => old(self).items@.len() == 0 && *final(self) == *old(self),
            },
    {
        if self.items.len() == 0 {
            None
        } else {
            let m = self.items.remove(0);
            proof {
                assert(self.items@ =~= old(self).items@.drop_first());
            }
            Some(m)
        }
    }
}

/// One voice's worth of feedback: a plain copy, safe to hand to a display.
/// `envelope` is the raw envelope position in millionths of full scale;
/// `pan` is the stereo position as a signed numerator over
/// [`crate::voice::PAN_DEN`], negative left of centre, positive right.
#[derive(Copy, Clone, Debug, PartialEq, Eq, Structural)]
pub struct UiVoice {
    pub envelope: u64,
    pub pan: i64,
    pub note: u8,
    pub active: bool,
}

/// The feedback a display reads: one entry per live voice, sorted
/// ascending by note.
pub struct UiFeedback {
    pub voices: Vec<UiVoice>,
}

/// The feedback entry a voice maps to.
pub open spec fn spec_ui_voice(v: Voice) -> UiVoice {
    UiVoice {
        envelope: v.adsr.position,
        pan: (2 * v.pan - PAN_DEN) as i64,
        note: v.note,
        active: v.active,
    }
}

/// The whole engine state the commands and cycles act on, as mathematics:
/// the live voices, the pan seed, and whether feedback is collected.
pub struct SynthModel {
    pub voices: Seq<Voice>,
    pub pan_seed: u64,
    pub feedback_enabled: bool,
}

/// What a note-on leaves of the voices: a re-strike in place when the note
/// already sounds, a fresh voice appended otherwise.
pub open spec fn spec_note_on_voices(
    voices: Seq<Voice>,
    note: u8,
    velocity: u8,
    seed: u64,
) -> Seq<Voice> {
    if has_note(voices, note) {
        Seq::new(
            voices.len(),
            |i: int|
                if voices[i].note == note {
                    spec_restarted(voices[i], spec_note_gain(velocity) as u64)
                } else {
                    voices[i]
                },
        )
    } else {
        voices.push(spec_new_voice(note, spec_note_gain(velocity) as u64, pan_of_seed(seed) as u64))
    }
}

/// What a note-off leaves: the voice sounding the note released, all else
/// untouched (an unknown note changes nothing).
pub open spec fn spec_note_off_voices(voices: Seq<Voice>, note: u8) -> Seq<Voice> {
    Seq::new(
        voices.len(),
        |i: int|
            if voices[i].note == note {
                Voice { active: false, ..voices[i] }
            } else {
                voices[i]
            },
    )
}

/// What one command does to the engine state.
pub open spec fn apply_message(m: SynthModel, msg: SynthMessage) -> SynthModel {
    match msg {
        SynthMessage::NoteOn { note, velocity } => SynthModel {
            voices: spec_note_on_voices(m.voices, note, velocity, m.pan_seed),
            pan_seed: if has_note(m.voices, note) {
                m.pan_seed
            } else {
                next_seed(m.pan_seed) as u64
            },
            ..m
        },
        SynthMessage::NoteOff(note) => SynthModel {
            voices: spec_note_off_voices(m.voices, note),
            ..m
        },
        SynthMessage::SetUiFeedback(enabled) => SynthModel { feedback_enabled: enabled, ..m },
    }
}

/// What a whole sequence of commands does, applied in order.
pub open spec fn apply_messages(m: SynthModel, msgs: Seq<SynthMessage>) -> SynthModel
    decreases msgs.len(),
{
    if msgs.len() == 0 {
        m
    } else {
        apply_messages(apply_message(m, msgs[0]), msgs.drop_first())
    }
}

/// The engine: pending commands, live voices, the render configuration,
/// and the feedback snapshot of the last finished cycle.
pub struct SynthProvider {
    pub queue: CommandQueue,
    pub voice_bank: VoiceBank,
    pub feedback_enabled: bool,
    pub snapshot: UiFeedback,
    pub sample_rate: u32,
    pub channels: usize,
    pub dt_nanos: u64,
}

/// The sample period a sample rate gives, in nanoseconds.
pub open spec fn spec_dt_nanos(sample_rate: u32) -> int {
    (NANOS_PER_SEC as int) / (if sample_rate == 0 {
        1 as int
    } else {
        sample_rate as int
    })
}

impl SynthProvider {
    /// The engine state as mathematics.
    pub open spec fn model(self) -> SynthModel {
        SynthModel {
            voices: self.voice_bank.voices@,
            pan_seed: self.voice_bank.pan_seed,
            feedback_enabled: self.feedback_enabled,
        }
    }

    /// The engine's invariant: bank and queue sound, and the sample
    /// period derived from the configured rate.
    pub open spec fn wf(self) -> bool {
        &&& self.voice_bank.wf()
        &&& self.queue.wf()
        &&& self.dt_nanos == spec_dt_nanos(self.sample_rate)
        &&& self.dt_nanos <= NANOS_PER_SEC
    }

    /// A fresh engine: nothing pending, no voices, feedback off, and the
    /// default configuration of two channels at the default rate.
    pub fn new() -> (s: SynthProvider)
        ensures
            s.wf(),
            s.queue.items@.len() == 0,
            s.voice_bank.voices@.len() == 0,
            s.voice_bank.pan_seed == 0,
            s.feedback_enabled == false,
            s.snapshot.voices@.len() == 0,
            s.sample_rate == DEFAULT_SAMPLE_RATE,
            s.channels == 2,
    {
        SynthProvider {
            queue: CommandQueue::new(),
            voice_bank: VoiceBank::new(),
            feedback_enabled: false,
            snapshot: UiFeedback { voices: Vec::new() },
            sample_rate: DEFAULT_SAMPLE_RATE,
            channels: 2,
            dt_nanos: NANOS_PER_SEC / (DEFAULT_SAMPLE_RATE as u64),
        }
    }

    /// Adopt the host's audio configuration.
    pub fn on_configuration_changed(&mut self, sample_rate: u32, channels: usize)
        requires
            old(self).wf(),
        ensures
            final(self).wf(),
            final(self).sample_rate == sample_rate,
            final(self).channels == channels,
            final(self).dt_nanos == spec_dt_nanos(sample_rate),
            final(self).queue == old(self).queue,
            final(self).voice_bank == old(self).voice_bank,
            final(self).feedback_enabled == old(self).feedback_enabled,
            final(self).snapshot == old(self).snapshot,
    {
        self.sample_rate = sample_rate;
        self.channels = channels;
        let rate: u64 = if sample_rate == 0 {
            1
        } else {
            sample_rate as u64
        };
        self.dt_nanos = NANOS_PER_SEC / rate;
    }

    /// Accept a command from the control side: queued if there is room,
    /// dropped with a false return if not.  Nothing else moves until the
    /// next render cycle drains the queue.
    pub fn send(&mut self, msg: SynthMessage) -> (accepted: bool)
        requires
            old(self).wf(),
        ensures
            final(self).wf(),
            accepted == (old(self).queue.items@.len() < QUEUE_CAPACITY),
            accepted ==> final(self).queue.items@ == old(self).queue.items@.push(msg),
            !accepted ==> final(self).queue == old(self).queue,
            final(self).voice_bank == old(self).voice_bank,
            final(self).feedback_enabled == old(self).feedback_enabled,
            final(self).snapshot == old(self).snapshot,
            final(self).sample_rate == old(self).sample_rate,
            final(self).channels == old(self).channels,
            final(self).dt_nanos == old(self).dt_nanos,
    {
        self.queue.push(msg)
    }

    /// Drain every pending command, oldest first, into the voice bank:
    /// the state afterwards is exactly the pending commands applied in
    /// send order to the state before.
    pub fn process_messages(&mut self)
        requires
            old(self).wf(),
        ensures
            final(self).wf(),
            final(self).queue.items@.len() == 0,
            final(self).model() == apply_messages(old(self).model(), old(self).queue.items@),
            final(self).snapshot == old(self).snapshot,
            final(self).sample_rate == old(self).sample_rate,
            final(self).channels == old(self).channels,
            final(self).dt_nanos == old(self).dt_nanos,
    {
        loop
            invariant
                self.wf(),
                apply_messages(self.model(), self.queue.items@) == apply_messages(
                    old(self).model(),
                    old(self).queue.items@,
                ),
                self.snapshot == old(self).snapshot,
                self.sample_rate == old(self).sample_rate,
                self.channels == old(self).channels,
                self.dt_nanos == old(self).dt_nanos,
            ensures
                self.queue.items@.len() == 0,
            decreases self.queue.items@.len(),
        {
            let ghost pre = *self;
            let m = self.queue.pop_front();
            match m {
                None => {
                    break ;
                },
                Some(msg) => {
                    proof {
                        assert(apply_messages(pre.model(), pre.queue.items@) == apply_messages(
                            apply_message(pre.model(), msg),
                            pre.queue.items@.drop_first(),
                        ));
                    }
                    match msg {
                        SynthMessage::NoteOn { note, velocity } => {
                            let ghost mid = *self;
                            self.voice_bank.note_on(note, velocity);
                            proof {
                                if has_note(mid.voice_bank.voices@, note) {
                                    assert(self.voice_bank.voices@ =~= spec_note_on_voices(
                                        mid.voice_bank.voices@,
                                        note,
                                        velocity,
                                        mid.voice_bank.pan_seed,
                                    ));
                                }
                                assert(self.model() == apply_message(pre.model(), msg));
                            }
                        },
                        SynthMessage::NoteOff(note) => {
                            let ghost mid = *self;
                            self.voice_bank.note_off(note);
                            proof {
                                assert(self.voice_bank.voices@ =~= spec_note_off_voices(
                                    mid.voice_bank.voices@,
                                    note,
                                ));
                                assert(self.model() == apply_message(pre.model(), msg));
                            }
                        },
                        SynthMessage::SetUiFeedback(enabled) => {
                            self.feedback_enabled = enabled;
                            proof {
                                assert(self.model() == apply_message(pre.model(), msg));
                            }
                        },
                    }
                },
            }
        }
    }

    /// Render one voice's envelope for a cycle of `frames` samples into
    /// `out` (see [`Voice::render_frames`]); the rest of the bank is
    /// untouched.
    pub fn render_voice(&mut self, i: usize, frames: usize, out: &mut Vec<u64>)
        requires
            old(self).wf(),
            i < old(self).voice_bank.voices@.len(),
        ensures
            final(self).wf(),
            final(self).voice_bank.voices@ == old(self).voice_bank.voices@.update(
                i as int,
                spec_rendered(
                    old(self).voice_bank.voices@[i as int],
                    old(self).dt_nanos,
                    frames as nat,
                ),
            ),
            final(self).voice_bank.pan_seed == old(self).voice_bank.pan_seed,
            final(self).queue == old(self).queue,
            final(self).feedback_enabled == old(self).feedback_enabled,
            final(self).snapshot == old(self).snapshot,
            final(self).sample_rate == old(self).sample_rate,
            final(self).channels == old(self).channels,
            final(self).dt_nanos == old(self).dt_nanos,
            final(out)@.len() == frames,
            forall|k: int| 0 <= k < frames ==> final(out)@[k] == env_run(
                old(self).voice_bank.voices@[i as int].adsr,
                old(self).dt_nanos,
                old(self).voice_bank.voices@[i as int].active,
                k as nat,
            ).out_sample(),
    {
        let mut v = self.voice_bank.voices[i];
        v.render_frames(self.dt_nanos, frames, out);
        vstd::pervasive::VecAdditionalExecFns::set(&mut self.voice_bank.voices, i, v);
        proof {
            let vs = self.voice_bank.voices@;
            let os = old(self).voice_bank.voices@;
            assert forall|a: int, b: int| 0 <= a < b < vs.len() implies vs[a].note
                != vs[b].note by {
                assert(vs[a].note == os[a].note && vs[b].note == os[b].note);
            }
        }
    }

    /// How many voices are live.
    pub fn voice_count(&self) -> (n: usize)
        ensures
            n == self.voice_bank.voices@.len(),
    {
        self.voice_bank.voice_count()
    }

    /// Retire the voices whose hysteresis window has elapsed (see
    /// [`VoiceBank::clean_up`]).
    pub fn clean_up(&mut self)
        requires
            old(self).wf(),
        ensures
            final(self).wf(),
            final(self).voice_bank.voices@ == spec_retained(old(self).voice_bank.voices@),
            final(self).voice_bank.pan_seed == old(self).voice_bank.pan_seed,
            final(self).queue == old(self).queue,
            final(self).feedback_enabled == old(self).feedback_enabled,
            final(self).snapshot == old(self).snapshot,
            final(self).sample_rate == old(self).sample_rate,
            final(self).channels == old(self).channels,
            final(self).dt_nanos == old(self).dt_nanos,
    {
        self.voice_bank.clean_up();
    }

    /// When feedback is enabled, rebuild the snapshot from the live
    /// voices: one entry per voice, sorted strictly ascending by note.
    /// When disabled, the snapshot is left alone.
    pub fn collect_feedback(&mut self)
        requires
            old(self).wf(),
        ensures
            final(self).wf(),
            final(self).queue == old(self).queue,
            final(self).voice_bank == old(self).voice_bank,
            final(self).feedback_enabled == old(self).feedback_enabled,
            final(self).sample_rate == old(self).sample_rate,
            final(self).channels == old(self).channels,
            final(self).dt_nanos == old(self).dt_nanos,
            !old(self).feedback_enabled ==> final(self).snapshot == old(self).snapshot,
            old(self).feedback_enabled ==> {
                let snap = final(self).snapshot.voices@;
                let live = old(self).voice_bank.voices@;
                &&& forall|a: int, b: int| 0 <= a < b < snap.len() ==> snap[a].note < snap[b].note
                &&& forall|a: int| 0 <= a < snap.len() ==> entry_from(live, #[trigger] snap[a])
                &&& forall|j: int| 0 <= j < live.len() ==> voice_listed(snap, #[trigger] live[j])
            },
    {
        if self.feedback_enabled {
            self.snapshot = build_snapshot(&self.voice_bank);
        }
    }

    /// The feedback of the last finished cycle, if collection is enabled.
    pub fn ui_feedback(&self) -> (r: Option<&UiFeedback>)
        ensures
            match r {
                Some(f) => self.feedback_enabled && *f == self.snapshot,
                None => !self.feedback_enabled,
            },
    {
        if self.feedback_enabled {
            Some(&self.snapshot)
        } else {
            None
        }
    }
}

/// Whether a feedback entry is the copy of one of the given voices.
pub open spec fn entry_from(voices: Seq<Voice>, e: UiVoice) -> bool {
    exists|j: int| 0 <= j < voices.len() && e == spec_ui_voice(#[trigger] voices[j])
}

/// Whether a voice has its copy among the given feedback entries.
pub open spec fn voice_listed(entries: Seq<UiVoice>, v: Voice) -> bool {
    exists|a: int| 0 <= a < entries.len() && #[trigger] entries[a] == spec_ui_voice(v)
}

/// A voice stays listed when another entry is appended.
proof fn lemma_listed_push(entries: Seq<UiVoice>, x: UiVoice, v: Voice)
    requires
        voice_listed(entries, v),
    ensures
        voice_listed(entries.push(x), v),
{
    let a = choose|a: int| 0 <= a < entries.len() && #[trigger] entries[a] == spec_ui_voice(v);
    assert(entries.push(x)[a] == spec_ui_voice(v));
}

/// Build the feedback snapshot: walk the note range upward and copy the
/// voice sounding each note, so the result is sorted by construction.
fn build_snapshot(bank: &VoiceBank) -> (s: UiFeedback)
    requires
        bank.wf(),
    ensures
        forall|a: int, b: int| 0 <= a < b < s.voices@.len() ==> s.voices@[a].note
            < s.voices@[b].note,
        forall|a: int| 0 <= a < s.voices@.len() ==> entry_from(
            bank.voices@,
            #[trigger] s.voices@[a],
        ),
        forall|j: int| 0 <= j < bank.voices@.len() ==> voice_listed(
            s.voices@,
            #[trigger] bank.voices@[j],
        ),
{
    let mut entries: Vec<UiVoice> = Vec::new();
    let mut n: u32 = 0;
    while n <= 255
        invariant
            bank.wf(),
            n <= 256,
            forall|a: int| 0 <= a < entries@.len() ==> (#[trigger] entries@[a]).note < n,
            forall|a: int, b: int| 0 <= a < b < entries@.len() ==> entries@[a].note
                < entries@[b].note,
            forall|a: int| 0 <= a < entries@.len() ==> entry_from(
                bank.voices@,
                #[trigger] entries@[a],
            ),
            forall|j: int|
                0 <= j < bank.voices@.len() && bank.voices@[j].note < n ==> voice_listed(
                    entries@,
                    #[trigger] bank.voices@[j],
                ),
        decreases 256 - n,
    {
        let ghost m = n;
        let ghost pre = entries@;
        let note = n as u8;
        match bank.index_of(note) {
            Some(j) => {
                let v = bank.voices[j];
                let e = UiVoice {
                    envelope: v.adsr.value(),
                    pan: 2 * (v.pan as i64) - (PAN_DEN as i64),
                    note: v.note,
                    active: v.active,
                };
                entries.push(e);
                proof {
                    let k = pre.len() as int;
                    assert(entries@ =~= pre.push(e));
                    assert(e == spec_ui_voice(bank.voices@[j as int]));
                    assert(entry_from(bank.voices@, e));
                    assert forall|a: int| 0 <= a < entries@.len() implies entry_from(
                        bank.voices@,
                        #[trigger] entries@[a],
                    ) by {
                        if a < k {
                            assert(entries@[a] == pre[a]);
                        } else {
                            assert(entries@[a] == e);
                        }
                    }
                    assert forall|jj: int|
                        0 <= jj < bank.voices@.len() && bank.voices@[jj].note < m
                            + 1 implies voice_listed(entries@, #[trigger] bank.voices@[jj]) by {
                        if bank.voices@[jj].note < m {
                            lemma_listed_push(pre, e, bank.voices@[jj]);
                        } else {
                            assert(bank.voices@[jj].note == note);
                            assert(jj == j as int);
                            assert(entries@[k] == spec_ui_voice(bank.voices@[jj]));
                        }
                    }
                }
            },
            None => {
                proof {
                    assert forall|jj: int|
                        0 <= jj < bank.voices@.len() && bank.voices@[jj].note < m
                            + 1 implies voice_listed(entries@, #[trigger] bank.voices@[jj]) by {
                        assert(bank.voices@[jj].note != note);
                    }
                }
            },
        }
        n += 1;
    }
    proof {
        assert forall|j: int| 0 <= j < bank.voices@.len() implies voice_listed(
            entries@,
            #[trigger] bank.voices@[j],
        ) by {
            assert(bank.voices@[j].note < 256);
        }
    }
    UiFeedback { voices: entries }
}

} // verus!
