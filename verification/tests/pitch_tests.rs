use tunebox::pitch::PitchClass;

#[test]
fn pitch_classes_of_common_notes() {
    assert_eq!(PitchClass::from_midi(60), PitchClass::C);
    assert_eq!(PitchClass::from_midi(61), PitchClass::Cs);
    assert_eq!(PitchClass::from_midi(69), PitchClass::A);
    assert_eq!(PitchClass::from_midi(71), PitchClass::B);
    assert_eq!(PitchClass::from_midi(72), PitchClass::C);
    assert_eq!(PitchClass::from_midi(0), PitchClass::C);
    assert_eq!(PitchClass::from_midi(127), PitchClass::G);
}

#[test]
fn negative_notes_wrap_downward() {
    assert_eq!(PitchClass::from_midi(-1), PitchClass::B);
    assert_eq!(PitchClass::from_midi(-12), PitchClass::C);
    assert_eq!(PitchClass::from_midi(-13), PitchClass::B);
    assert_eq!(PitchClass::from_midi(i32::MIN), PitchClass::from_midi(i32::MIN % 12 + 12));
}

#[test]
fn octaves_share_a_pitch_class() {
    for n in 0..12 {
        assert_eq!(PitchClass::from_midi(n), PitchClass::from_midi(n + 12));
        assert_eq!(PitchClass::from_midi(n), PitchClass::from_midi(n + 120));
    }
}
