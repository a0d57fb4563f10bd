use tunebox::adsr::AdsrState;
use tunebox::voice::midi_velocity_to_gain;
use tunebox::voice::Voice;
use tunebox::voice::VoiceBank;

const DT: u64 = 22_675;

#[test]
fn velocity_curve_exact_values() {
    assert_eq!(midi_velocity_to_gain(0), 0);
    assert_eq!(midi_velocity_to_gain(1), 62); // floor(1e6 / 16129)
    assert_eq!(midi_velocity_to_gain(64), 253_952); // floor(4096e6 / 16129)
    assert_eq!(midi_velocity_to_gain(127), 1_000_000);
    assert_eq!(midi_velocity_to_gain(255), 1_000_000); // clamped
}

#[test]
fn note_on_allocates_then_retriggers_in_place() {
    let mut bank = VoiceBank::new();
    assert_eq!(bank.voice_count(), 0);

    bank.note_on(60, 127);
    assert_eq!(bank.voice_count(), 1);
    assert_eq!(bank.voices[0].note, 60);
    assert!(bank.voices[0].active);
    let seed_after_alloc = bank.pan_seed;
    assert_eq!(seed_after_alloc, 288); // (0 + 2503) mod 443

    // Striking the same note again does not grow the bank, and does not
    // advance the pan seed.
    bank.note_on(60, 64);
    assert_eq!(bank.voice_count(), 1);
    assert_eq!(bank.pan_seed, seed_after_alloc);
    assert!(bank.voices[0].active);
}

#[test]
fn retrigger_updates_gain_but_not_envelope_position() {
    let mut bank = VoiceBank::new();
    bank.note_on(60, 127);

    // Render a while so the envelope has climbed somewhere.
    let mut out: Vec<u64> = Vec::new();
    let mut v = bank.voices[0];
    v.render_frames(DT, 2000, &mut out);
    bank.voices[0] = v;
    let pos = bank.voices[0].adsr.value();
    assert!(pos > 0);

    bank.note_on(60, 32);
    assert_eq!(bank.voices[0].adsr.value(), pos, "re-strike keeps the ramp");
    assert_ne!(bank.voices[0].adsr.gain_lvl, 836_660, "peak was re-aimed");
}

#[test]
fn note_off_on_unknown_note_is_a_no_op() {
    let mut bank = VoiceBank::new();
    bank.note_off(60); // empty bank: nothing happens, no panic
    assert_eq!(bank.voice_count(), 0);

    bank.note_on(60, 100);
    let before_note = bank.voices[0].note;
    let before_active = bank.voices[0].active;
    let before_seed = bank.pan_seed;

    bank.note_off(61);
    assert_eq!(bank.voice_count(), 1);
    assert_eq!(bank.voices[0].note, before_note);
    assert_eq!(bank.voices[0].active, before_active);
    assert_eq!(bank.pan_seed, before_seed);

    bank.note_off(60);
    assert!(!bank.voices[0].active);
    assert_eq!(bank.voice_count(), 1, "released voices keep fading");
}

#[test]
fn back_to_back_allocations_get_distinct_pans_in_range() {
    let mut bank = VoiceBank::new();
    bank.note_on(60, 100);
    bank.note_on(61, 100);
    bank.note_on(62, 100);

    let p0 = bank.voices[0].pan;
    let p1 = bank.voices[1].pan;
    let p2 = bank.voices[2].pan;
    assert_eq!(p0, 443); // seed 0 maps to 443/2215 (a fifth of the field)
    assert_eq!(p1, 3 * 288 + 443);
    assert_ne!(p0, p1);
    assert_ne!(p1, p2);
    for p in [p0, p1, p2] {
        assert!(0 < p && p < 2215, "pan stays inside the field");
    }
}

#[test]
fn many_allocations_keep_pan_inside_the_field() {
    let mut bank = VoiceBank::new();
    for n in 0..=127u8 {
        bank.note_on(n, 100);
    }
    assert_eq!(bank.voice_count(), 128);
    for i in 0..128 {
        let p = bank.voices[i].pan;
        assert!(0 < p && p < 2215);
        // Externally the pan maps into (-1, 1): numerator over 2215.
        let external = 2 * (p as i64) - 2215;
        assert!(-2215 < external && external < 2215);
    }
    // Neighbouring allocations never repeat a pan.
    for i in 0..127 {
        assert_ne!(bank.voices[i].pan, bank.voices[i + 1].pan);
    }
}

#[test]
fn silent_voice_survives_the_hysteresis_window_then_retires() {
    let mut bank = VoiceBank::new();
    bank.note_on(60, 64);
    bank.note_off(60); // released before any sample: envelope never leaves Silence

    let mut out: Vec<u64> = Vec::new();
    for cycle in 1..=41u32 {
        let mut v = bank.voices[0];
        v.render_frames(DT, 64, &mut out);
        assert!(out.iter().all(|&e| e == 0));
        assert_eq!(v.adsr.state, AdsrState::Silence);
        assert_eq!(v.silence_timer as u32, cycle);
        bank.voices[0] = v;

        bank.clean_up();
        if cycle <= 40 {
            assert_eq!(bank.voice_count(), 1, "still within the window at cycle {cycle}");
        } else {
            assert_eq!(bank.voice_count(), 0, "retired once the window elapsed");
        }
    }
}

#[test]
fn sounding_voice_is_never_cleaned_up() {
    let mut bank = VoiceBank::new();
    bank.note_on(60, 127);
    let mut out: Vec<u64> = Vec::new();
    for _ in 0..100 {
        let mut v = bank.voices[0];
        v.render_frames(DT, 64, &mut out);
        bank.voices[0] = v;
        bank.clean_up();
        assert_eq!(bank.voice_count(), 1);
    }
    assert_eq!(bank.voices[0].silence_timer, 0);
}

#[test]
fn restart_resets_the_silence_timer() {
    let mut v = Voice::new(60, 700_000, 443);
    v.release();
    let mut out: Vec<u64> = Vec::new();
    for _ in 0..10 {
        v.render_frames(DT, 16, &mut out);
    }
    assert_eq!(v.silence_timer, 10);
    v.restart(500_000);
    assert_eq!(v.silence_timer, 0);
    assert!(v.active);
}

#[test]
fn zero_length_render_cycle_is_tolerated() {
    let mut v = Voice::new(60, 700_000, 443);
    let mut out: Vec<u64> = vec![7, 7, 7];
    v.render_frames(DT, 0, &mut out);
    assert!(out.is_empty(), "the cycle clears and fills the output");
    assert!(v.active);
    assert_eq!(v.silence_timer, 1, "an empty cycle still counts toward the window");
}
