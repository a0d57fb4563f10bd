use tunebox::provider::SynthMessage;
use tunebox::provider::SynthProvider;
use tunebox::provider::QUEUE_CAPACITY;

#[test]
fn fresh_engine_defaults() {
    let s = SynthProvider::new();
    assert_eq!(s.voice_count(), 0);
    assert_eq!(s.sample_rate, 44100);
    assert_eq!(s.channels, 2);
    assert_eq!(s.dt_nanos, 22_675); // floor(1e9 / 44100)
    assert!(s.ui_feedback().is_none());
}

#[test]
fn configuration_sets_the_sample_period() {
    let mut s = SynthProvider::new();
    s.on_configuration_changed(48_000, 2);
    assert_eq!(s.sample_rate, 48_000);
    assert_eq!(s.dt_nanos, 20_833); // floor(1e9 / 48000)
    s.on_configuration_changed(0, 2);
    assert_eq!(s.dt_nanos, 1_000_000_000); // a degenerate rate is kept finite
}

#[test]
fn commands_apply_in_send_order() {
    let mut s = SynthProvider::new();
    assert!(s.send(SynthMessage::NoteOn { note: 60, velocity: 100 }));
    assert!(s.send(SynthMessage::NoteOn { note: 64, velocity: 100 }));
    assert!(s.send(SynthMessage::NoteOff(60)));
    s.process_messages();
    assert_eq!(s.voice_count(), 2);
    assert_eq!(s.voice_bank.voices[0].note, 60);
    assert!(!s.voice_bank.voices[0].active, "the later note-off won");
    assert!(s.voice_bank.voices[1].active);
}

#[test]
fn full_queue_drops_and_signals_backpressure() {
    let mut s = SynthProvider::new();
    for _ in 0..QUEUE_CAPACITY {
        assert!(s.send(SynthMessage::NoteOn { note: 60, velocity: 100 }));
    }
    assert!(!s.send(SynthMessage::NoteOff(60)), "the 129th command is dropped");
    s.process_messages();
    assert!(s.voice_bank.voices[0].active, "the dropped note-off never applied");
    assert!(s.send(SynthMessage::NoteOff(60)), "room again after draining");
}

#[test]
fn feedback_disabled_by_default_and_enabled_by_command() {
    let mut s = SynthProvider::new();
    assert!(s.ui_feedback().is_none());
    s.send(SynthMessage::SetUiFeedback(true));
    s.process_messages();
    s.collect_feedback();
    let f = s.ui_feedback().expect("enabled now");
    assert_eq!(f.voices.len(), 0);
}

#[test]
fn snapshot_lists_every_voice_sorted_by_note() {
    let mut s = SynthProvider::new();
    s.send(SynthMessage::SetUiFeedback(true));
    s.send(SynthMessage::NoteOn { note: 70, velocity: 127 });
    s.send(SynthMessage::NoteOn { note: 60, velocity: 127 });
    s.send(SynthMessage::NoteOn { note: 65, velocity: 127 });
    s.process_messages();
    s.clean_up();
    s.collect_feedback();

    let f = s.ui_feedback().expect("feedback on");
    let notes: Vec<u8> = f.voices.iter().map(|v| v.note).collect();
    assert_eq!(notes, vec![60, 65, 70]);

    // Pan follows allocation order (70 was struck first), remapped to a
    // signed numerator over 2215: seed 0 -> 443, then 1307, then 842.
    let by_note = |n: u8| f.voices.iter().find(|v| v.note == n).unwrap();
    assert_eq!(by_note(70).pan, 2 * 443 - 2215);
    assert_eq!(by_note(60).pan, 2 * 1307 - 2215);
    assert_eq!(by_note(65).pan, 2 * 842 - 2215);
    for v in f.voices.iter() {
        assert!(-2215 < v.pan && v.pan < 2215);
        assert!(v.active);
        assert_eq!(v.envelope, 0, "no samples rendered yet");
    }
}

#[test]
fn zero_voices_render_contributes_nothing() {
    let mut s = SynthProvider::new();
    s.send(SynthMessage::SetUiFeedback(true));
    s.process_messages();
    assert_eq!(s.voice_count(), 0, "nothing to accumulate into a buffer");
    s.clean_up();
    s.collect_feedback();
    assert_eq!(s.ui_feedback().unwrap().voices.len(), 0);
}

#[test]
fn struck_note_rises_from_zero_and_settles_at_the_sustain_level() {
    let mut s = SynthProvider::new();
    s.send(SynthMessage::NoteOn { note: 60, velocity: 127 });
    s.process_messages();
    assert_eq!(s.voice_count(), 1);

    let mut out: Vec<u64> = Vec::new();
    s.render_voice(0, 44_100, &mut out);
    assert_eq!(out.len(), 44_100);
    assert_eq!(out[0], 0, "amplitude starts at zero");
    assert!(out[500] > 0, "attack under way");
    assert!(out[500] < out[1000], "still climbing");

    // Attack (~1108 samples to the 0.7-gain peak) plus decay (~7470) are
    // over well before sample 20000; from there the squared envelope sits
    // at exactly (sustain * peak)^2: floor(418330^2 / 1e6).
    for k in [20_000, 30_000, 44_099] {
        assert_eq!(out[k], 174_999, "settled at the sustain level");
    }
    // The attack's last step may overshoot the peak level by less than
    // one step before the decay turns around, so the squared envelope can
    // sit a whisker above the 0.7 gain for a moment.
    let peak = *out.iter().max().unwrap();
    assert!(peak >= 174_999);
    assert!(peak <= 705_000, "no more than a step's overshoot past the gain");
}

#[test]
fn released_note_fades_out_and_is_eventually_retired() {
    let mut s = SynthProvider::new();
    s.send(SynthMessage::NoteOn { note: 60, velocity: 64 });
    s.process_messages();

    let mut out: Vec<u64> = Vec::new();
    s.render_voice(0, 4410, &mut out); // a tenth of a second: well into decay
    let sounding = *out.last().unwrap();
    assert!(sounding > 0);

    s.send(SynthMessage::NoteOff(60));
    s.process_messages();

    // Render release-time worth of frames (4 s at 44100 Hz), one cycle of
    // 4410 frames at a time, cleaning up after each cycle as a render
    // callback would.
    let mut cycles: u32 = 0;
    while s.voice_count() > 0 {
        s.render_voice(0, 4410, &mut out);
        s.clean_up();
        cycles += 1;
        assert!(cycles < 100, "voice never retired");
    }
    // 4 s of release is 40 cycles; the envelope reaches zero near the end
    // of that, and the hysteresis window (41 silent cycle-ends) follows.
    assert!(cycles >= 41, "retired before the window could elapse");
    assert_eq!(*out.last().unwrap(), 0, "output approached zero");
}
