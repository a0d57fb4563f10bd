//! Note names: the twelve pitch classes and the map from note numbers.

use vstd::prelude::*;

verus! {

/// One of the twelve pitch classes of the equal-tempered octave.
#[derive(Copy, Clone, Debug, PartialEq, Eq, Structural)]
pub enum PitchClass {
    C,
    Cs,
    D,
    Ds,
    E,
    F,
    Fs,
    G,
    Gs,
    A,
    As,
    B,
}

/// The pitch class at a semitone index within the octave (0 is C).
pub open spec fn spec_pitch_class(index: int) -> PitchClass {
    if index == 0 {
        PitchClass::C
    } else if index == 1 {
        PitchClass::Cs
    } else if index == 2 {
        PitchClass::D
    } else if index == 3 {
        PitchClass::Ds
    } else if index == 4 {
        PitchClass::E
    } else if index == 5 {
        PitchClass::F
    } else if index == 6 {
        PitchClass::Fs
    } else if index == 7 {
        PitchClass::G
    } else if index == 8 {
        PitchClass::Gs
    } else if index == 9 {
        PitchClass::A
    } else if index == 10 {
        PitchClass::As
    } else {
        PitchClass::B
    }
}

impl PitchClass {
    /// The pitch class of a note number: its semitone within the octave,
    /// counted so that note 0 (and 12, 24, ...) is C.  Negative numbers
    /// wrap the same way (note -1 is B).
    pub fn from_midi(midi_note: i32) -> (p: PitchClass)
        ensures
            p == spec_pitch_class((midi_note as int) % 12),
    {
        let m: u32 = if midi_note >= 0 {
            (midi_note as u32) % 12
        } else {
            let neg = (-(midi_note as i64)) as u64;
            let r = neg % 12;
            proof {
                vstd::arithmetic::div_mod::lemma_fundamental_div_mod(neg as int, 12);
                if r == 0 {
                    vstd::arithmetic::div_mod::lemma_fundamental_div_mod_converse(
                        midi_note as int,
                        12,
                        -((neg / 12) as int),
                        0,
                    );
                } else {
                    vstd::arithmetic::div_mod::lemma_fundamental_div_mod_converse(
                        midi_note as int,
                        12,
                        -((neg / 12) as int) - 1,
                        12 - r,
                    );
                }
            }
            if r == 0 {
                0
            } else {
                (12 - r) as u32
            }
        };
        match m {
            0 => PitchClass::C,
            1 => PitchClass::Cs,
            2 => PitchClass::D,
            3 => PitchClass::Ds,
            4 => PitchClass::E,
            5 => PitchClass::F,
            6 => PitchClass::Fs,
            7 => PitchClass::G,
            8 => PitchClass::Gs,
            9 => PitchClass::A,
            10 => PitchClass::As,
            _ => {
                proof {
                    assert(m == 11);
                }
                PitchClass::B
            },
        }
    }
}

} // verus!
