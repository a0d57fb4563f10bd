use tunebox::adsr::Adsr;
use tunebox::adsr::AdsrState;
use tunebox::math::isqrt;

// The engine's default voice parameters, and the sample period at 44100 Hz.
const ATK: u64 = 30_000;
const DEC: u64 = 200_000;
const SUS: u64 = 500_000;
const REL: u64 = 4_000_000;
const GAIN: u64 = 700_000;
const DT: u64 = 22_675;

// For GAIN = 0.7 full scale: the attack peak is isqrt(0.7e6 * 1e6) =
// 836660 millionths, and the sustain target half of that.
const PEAK: u64 = 836_660;
const SUSTAIN_POS: u64 = 418_330;
const SUSTAIN_ENV: u64 = 174_999;  // floor(418330^2 / 1e6)

#[test]
fn isqrt_exact_values() {
    assert_eq!(isqrt(0), 0);
    assert_eq!(isqrt(1), 1);
    assert_eq!(isqrt(3), 1);
    assert_eq!(isqrt(4), 2);
    assert_eq!(isqrt(999_999), 999);
    assert_eq!(isqrt(700_000_000_000), 836_660);
    assert_eq!(isqrt(1_000_000_000_000), 1_000_000);
}

#[test]
fn silence_without_input_stays_at_zero() {
    let mut a = Adsr::new(ATK, DEC, SUS, REL, GAIN);
    assert!(a.is_silent());
    for _ in 0..1000 {
        let env = a.advance(DT, false);
        assert_eq!(env, 0);
        assert!(a.is_silent());
        assert_eq!(a.value(), 0);
    }
}

#[test]
fn held_note_walks_attack_decay_sustain() {
    let mut a = Adsr::new(ATK, DEC, SUS, REL, GAIN);
    assert_eq!(a.gain_lvl, PEAK);

    // First sample: the rising edge starts the attack; the returned sample
    // is still the silence the call began in.
    let env0 = a.advance(DT, true);
    assert_eq!(env0, 0);
    assert_eq!(a.state, AdsrState::Attack);

    let mut seen_decay = false;
    let mut prev = a.value();
    let mut steps: u32 = 1;
    while a.state != AdsrState::Sustain {
        a.advance(DT, true);
        steps += 1;
        assert!(steps < 20_000, "sustain never reached");
        match a.state {
            AdsrState::Attack => {
                assert!(a.value() > prev, "attack must climb");
                assert!(!seen_decay, "attack after decay without an edge");
            }
            AdsrState::Decay => {
                seen_decay = true;
            }
            AdsrState::Sustain => {}
            s => panic!("unexpected stage {:?}", s),
        }
        prev = a.value();
    }
    assert!(seen_decay);
    assert_eq!(a.value(), SUSTAIN_POS);

    // Holding keeps the position pinned at the sustain target.
    for _ in 0..1000 {
        let env = a.advance(DT, true);
        assert_eq!(env, SUSTAIN_ENV);
        assert_eq!(a.value(), SUSTAIN_POS);
        assert_eq!(a.state, AdsrState::Sustain);
    }
}

fn drive_to_sustain(a: &mut Adsr) {
    let mut steps: u32 = 0;
    while a.state != AdsrState::Sustain {
        a.advance(DT, true);
        steps += 1;
        assert!(steps < 20_000, "sustain never reached");
    }
}

#[test]
fn release_falls_monotonically_and_ends_in_silence_at_zero() {
    let mut a = Adsr::new(ATK, DEC, SUS, REL, GAIN);
    drive_to_sustain(&mut a);

    let mut prev = a.value();
    let mut steps: u32 = 0;
    while a.state != AdsrState::Silence {
        a.advance(DT, false);
        steps += 1;
        assert!(steps < 500_000, "silence never reached");
        assert!(a.value() <= prev, "release must fall");
        if a.state == AdsrState::Release {
            // Silence is entered exactly when the position first hits 0.
            if steps > 1 {
                assert!(a.value() > 0);
            }
        }
        prev = a.value();
    }
    assert_eq!(a.value(), 0);

    // Roughly releaseTime * sampleRate samples: 4 s at 44100 Hz is 176400.
    // The per-sample release step rounds down to whole millionths (2.83
    // becomes 2 here), so the actual fall runs proportionally longer.
    assert!(steps >= 176_400, "release ended too soon: {steps}");
    assert!(steps <= 210_000, "release took too long: {steps}");
}

#[test]
fn restrike_during_decay_moves_to_attack_without_reset() {
    let mut a = Adsr::new(ATK, DEC, SUS, REL, GAIN);
    a.advance(DT, true);
    while a.state != AdsrState::Decay {
        a.advance(DT, true);
    }
    a.advance(DT, true); // one decay sample; gate sits at High
    assert_eq!(a.state, AdsrState::Decay);
    let before = a.value();
    assert!(before > 0);

    // Let go for one sample (Decay ignores the falling edge), then strike
    // again: the rising edge diverts to Attack mid-ramp.
    a.advance(DT, false);
    assert_eq!(a.state, AdsrState::Decay);
    a.advance(DT, true);
    assert_eq!(a.state, AdsrState::Attack);
    assert!(a.value() > 0, "position must not reset on a re-strike");
    assert!(a.value() + 200 >= before, "position continues from its level");
}

#[test]
fn restrike_during_sustain_and_release_moves_to_attack() {
    let mut a = Adsr::new(ATK, DEC, SUS, REL, GAIN);
    drive_to_sustain(&mut a);
    let at_sustain = a.value();
    a.advance(DT, false); // falling edge: Sustain -> Release
    assert_eq!(a.state, AdsrState::Release);
    for _ in 0..100 {
        a.advance(DT, false);
    }
    assert_eq!(a.state, AdsrState::Release);
    let in_release = a.value();
    assert!(0 < in_release && in_release < at_sustain);

    a.advance(DT, true); // rising edge mid-release
    assert_eq!(a.state, AdsrState::Attack);
    assert!(a.value() > 0);

    // And from Sustain directly: gate must first go low to offer an edge.
    let mut b = Adsr::new(ATK, DEC, SUS, REL, GAIN);
    drive_to_sustain(&mut b);
    b.advance(DT, false);
    b.advance(DT, true);
    assert_eq!(b.state, AdsrState::Attack);
    assert!(b.value() > 0);
}

#[test]
fn set_gain_reaims_peak_without_touching_stage() {
    let mut a = Adsr::new(ATK, DEC, SUS, REL, GAIN);
    drive_to_sustain(&mut a);
    let pos = a.value();
    a.set_gain(250_000);
    assert_eq!(a.state, AdsrState::Sustain);
    assert_eq!(a.value(), pos);
    assert_eq!(a.gain_lvl, isqrt(250_000 * 1_000_000));
    assert_eq!(a.gain_lvl, 500_000);
}

#[test]
fn sustain_level_is_clamped_to_full_scale() {
    let a = Adsr::new(ATK, DEC, 2_000_000, REL, GAIN);
    assert_eq!(a.sus_lvl, 1_000_000);
}
