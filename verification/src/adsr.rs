//! The ADSR amplitude envelope: a five-state per-sample integrator.
//!
//! All amplitudes are fixed-point millionths (see [`crate::math::SCALE`]).
//! Stage times are given in microseconds and the per-sample step is derived
//! from the sample period in nanoseconds, so the whole machine is exact
//! integer arithmetic.  One call to [`Adsr::advance`] feeds its edge
//! detector one boolean input, moves the machine one sample forward, and
//! returns the
//! square of the amplitude it had when the call began (the squared value is
//! the audible envelope; squaring shapes loudness perceptually).
//!
//! The transition rules, in millionths of full scale:
//! - Silence holds the position at 0 until a rising edge starts an attack.
//! - Attack climbs by the attack step until the position reaches the peak
//!   level, then decays.  A softer strike has a lower peak and so ends its
//!   attack sooner.
//! - Decay falls by the decay step until the position reaches the sustain
//!   target; a rising edge (a re-strike) diverts it back to Attack without
//!   resetting the position.
//! - Sustain holds the position; a low gate releases, a rising edge
//!   re-attacks.
//! - Release falls by the release step to 0, entering Silence exactly when
//!   0 is first reached; a rising edge re-attacks from the current level.
//!
//! A falling edge never interrupts Decay or Release mid-ramp: only a rising
//! edge can divert them.  That asymmetry is deliberate and is kept.

use vstd::prelude::*;

use crate::gate::Gate;
use crate::gate::GateState;
use crate::gate::gate_step;
use crate::math::SCALE;
use crate::math::isqrt;
use crate::math::spec_isqrt;

verus! {

/// Nanoseconds in a second; sample periods are counted in nanoseconds.
pub const NANOS_PER_SEC: u64 = 1_000_000_000;

/// The shortest stage time accounted, in microseconds: shorter times are
/// treated as this long, so every rate is finite.
pub const MIN_TIME_MICROS: u64 = 10;

/// The largest rate any stage can have, in millionths of full scale per
/// second: full scale crossed in the shortest accounted time.
pub const MAX_RATE: u64 = 100_000_000_000;

/// The stage the envelope is in.
#[derive(Copy, Clone, Debug, PartialEq, Eq, Structural)]
pub enum AdsrState {
    Silence,
    Attack,
    Decay,
    Sustain,
    Release,
}

/// The envelope machine: stage, current position, its own gate, and the
/// rate constants derived from the stage times.
///
/// `position` is the current amplitude in millionths; `gain_lvl` is the
/// peak the attack aims for (the square root of the triggering gain, so
/// that the squared output peaks at the gain itself); `sus_lvl` is the
/// sustain fraction in millionths; the `*_inc` fields are stage rates in
/// millionths per second.
#[derive(Copy, Clone, Debug)]
pub struct Adsr {
    pub state: AdsrState,
    pub position: u64,
    pub gate: Gate,
    pub gain_lvl: u64,
    pub atk_inc: u64,
    pub dec_inc: u64,
    pub sus_lvl: u64,
    pub rel_inc: u64,
}

/// The amount a stage with rate `inc` moves in one sample of `dt_nanos`.
pub open spec fn step_amt(inc: u64, dt_nanos: u64) -> int {
    (inc * dt_nanos) / (NANOS_PER_SEC as int)
}

/// A stage rate: `amount` millionths crossed in `time_micros` (at least
/// [`MIN_TIME_MICROS`]), in millionths per second.
pub open spec fn spec_rate(amount: u64, time_micros: u64) -> int {
    (amount * SCALE) / (if time_micros < MIN_TIME_MICROS {
        MIN_TIME_MICROS as int
    } else {
        time_micros as int
    })
}

/// The envelope a fresh [`Adsr::new`] returns.
pub open spec fn spec_adsr_new(
    atk_micros: u64,
    dec_micros: u64,
    sus_lvl: u64,
    rel_micros: u64,
    gain: u64,
) -> Adsr {
    let sus = if sus_lvl < SCALE {
        sus_lvl
    } else {
        SCALE
    };
    Adsr {
        state: AdsrState::Silence,
        position: 0,
        gate: Gate(GateState::Low),
        gain_lvl: spec_isqrt(gain * SCALE) as u64,
        atk_inc: spec_rate(SCALE, atk_micros) as u64,
        dec_inc: spec_rate((SCALE - sus) as u64, dec_micros) as u64,
        sus_lvl: sus,
        rel_inc: spec_rate(sus, rel_micros) as u64,
    }
}

impl Adsr {
    /// The envelope's internal bounds: every amplitude within full scale,
    /// every rate within [`MAX_RATE`], and the position pinned to 0 while
    /// silent.
    pub open spec fn wf(self) -> bool {
        &&& self.position <= SCALE
        &&& self.gain_lvl <= SCALE
        &&& self.sus_lvl <= SCALE
        &&& self.atk_inc <= MAX_RATE
        &&& self.dec_inc <= MAX_RATE
        &&& self.rel_inc <= MAX_RATE
        &&& (self.state == AdsrState::Silence ==> self.position == 0)
    }

    /// The level Decay settles at: the sustain fraction of the peak.
    pub open spec fn sustain_target(self) -> int {
        (self.sus_lvl * self.gain_lvl) / (SCALE as int)
    }

    /// The squared position: the audible envelope sample, in millionths.
    pub open spec fn out_sample(self) -> int {
        (self.position * self.position) / (SCALE as int)
    }
}

/// One transition of the stage machine, after the edge detector has
/// already moved: `g` is the edge state seen this sample.
pub open spec fn env_update(a: Adsr, g: GateState, dt_nanos: u64) -> Adsr {
    match a.state {
        AdsrState::Silence => if g == GateState::RisingEdge {
            Adsr { state: AdsrState::Attack, position: 0, ..a }
        } else {
            a
        },
        AdsrState::Attack => {
            let p = a.position + step_amt(a.atk_inc, dt_nanos);
            if p >= a.gain_lvl {
                Adsr {
                    state: AdsrState::Decay,
                    position: if p >= SCALE {
                        SCALE
                    } else {
                        p as u64
                    },
                    ..a
                }
            } else {
                Adsr { state: AdsrState::Attack, position: p as u64, ..a }
            }
        },
        AdsrState::Decay => {
            let p = a.position - step_amt(a.dec_inc, dt_nanos);
            let p = if p < 0 {
                0
            } else {
                p
            };
            if g == GateState::RisingEdge {
                Adsr { state: AdsrState::Attack, position: p as u64, ..a }
            } else if p <= a.sustain_target() {
                Adsr { state: AdsrState::Sustain, position: a.sustain_target() as u64, ..a }
            } else {
                Adsr { state: AdsrState::Decay, position: p as u64, ..a }
            }
        },
        AdsrState::Sustain => if g == GateState::FallingEdge || g == GateState::Low {
            Adsr { state: AdsrState::Release, ..a }
        } else if g == GateState::RisingEdge {
            Adsr { state: AdsrState::Attack, ..a }
        } else {
            a
        },
        AdsrState::Release => {
            let p = a.position - step_amt(a.rel_inc, dt_nanos);
            let p = if p < 0 {
                0
            } else {
                p
            };
            if g == GateState::RisingEdge {
                Adsr { state: AdsrState::Attack, position: p as u64, ..a }
            } else if p == 0 {
                Adsr { state: AdsrState::Silence, position: 0, ..a }
            } else {
                Adsr { state: AdsrState::Release, position: p as u64, ..a }
            }
        },
    }
}

/// One whole sample: the edge detector moves on input `held`, then the
/// stage machine moves on the state it now reports.
pub open spec fn env_step(a: Adsr, dt_nanos: u64, held: bool) -> Adsr {
    let g = gate_step(a.gate.0, held);
    env_update(Adsr { gate: Gate(g), ..a }, g, dt_nanos)
}

/// `n` samples of [`env_step`], all with the same input and period.
pub open spec fn env_run(a: Adsr, dt_nanos: u64, held: bool, n: nat) -> Adsr
    decreases n,
{
    if n == 0 {
        a
    } else {
        env_step(env_run(a, dt_nanos, held, (n - 1) as nat), dt_nanos, held)
    }
}

/// A step never drives the machine out of its bounds.
pub proof fn lemma_env_step_wf(a: Adsr, dt_nanos: u64, held: bool)
    requires
        a.wf(),
    ensures
        env_step(a, dt_nanos, held).wf(),
        env_step(a, dt_nanos, held).gain_lvl == a.gain_lvl,
        env_step(a, dt_nanos, held).atk_inc == a.atk_inc,
        env_step(a, dt_nanos, held).dec_inc == a.dec_inc,
        env_step(a, dt_nanos, held).sus_lvl == a.sus_lvl,
        env_step(a, dt_nanos, held).rel_inc == a.rel_inc,
        env_step(a, dt_nanos, held).gate.0 == gate_step(a.gate.0, held),
{
    assert(a.sustain_target() <= a.gain_lvl) by (nonlinear_arith)
        requires
            a.sus_lvl <= SCALE,
            a.gain_lvl >= 0,
    {
    }
    assert(a.sustain_target() >= 0) by (nonlinear_arith)
        requires
            a.sus_lvl >= 0,
            a.gain_lvl >= 0,
    {
    }
}

/// A whole run keeps the bounds and never touches the rate constants.
pub proof fn lemma_env_run_wf(a: Adsr, dt_nanos: u64, held: bool, n: nat)
    requires
        a.wf(),
    ensures
        env_run(a, dt_nanos, held, n).wf(),
        env_run(a, dt_nanos, held, n).gain_lvl == a.gain_lvl,
        env_run(a, dt_nanos, held, n).atk_inc == a.atk_inc,
        env_run(a, dt_nanos, held, n).dec_inc == a.dec_inc,
        env_run(a, dt_nanos, held, n).sus_lvl == a.sus_lvl,
        env_run(a, dt_nanos, held, n).rel_inc == a.rel_inc,
    decreases n,
{
    if n > 0 {
        lemma_env_run_wf(a, dt_nanos, held, (n - 1) as nat);
        lemma_env_step_wf(env_run(a, dt_nanos, held, (n - 1) as nat), dt_nanos, held);
    }
}

/// A run unfolds from the front as well: one step, then the rest.
pub proof fn lemma_env_run_head(a: Adsr, dt_nanos: u64, held: bool, n: nat)
    requires
        n >= 1,
    ensures
        env_run(a, dt_nanos, held, n) == env_run(
            env_step(a, dt_nanos, held),
            dt_nanos,
            held,
            (n - 1) as nat,
        ),
    decreases n,
{
    let b = env_step(a, dt_nanos, held);
    if n == 1 {
        assert(env_run(a, dt_nanos, held, 1) == env_step(env_run(a, dt_nanos, held, 0), dt_nanos, held));
        assert(env_run(b, dt_nanos, held, 0) == b);
    } else {
        lemma_env_run_head(a, dt_nanos, held, (n - 1) as nat);
        assert(env_run(a, dt_nanos, held, n) == env_step(
            env_run(a, dt_nanos, held, (n - 1) as nat),
            dt_nanos,
            held,
        ));
        assert(env_run(b, dt_nanos, held, (n - 1) as nat) == env_step(
            env_run(b, dt_nanos, held, (n - 2) as nat),
            dt_nanos,
            held,
        ));
    }
}

/// Runs compose: `m` samples then `k` samples is `m + k` samples.
pub proof fn lemma_env_run_add(a: Adsr, dt_nanos: u64, held: bool, m: nat, k: nat)
    ensures
        env_run(a, dt_nanos, held, m + k) == env_run(
            env_run(a, dt_nanos, held, m),
            dt_nanos,
            held,
            k,
        ),
    decreases k,
{
    if k > 0 {
        lemma_env_run_add(a, dt_nanos, held, m, (k - 1) as nat);
    }
}

/// The per-sample amount of a rate, with its bound.
fn step_of(inc: u64, dt_nanos: u64) -> (s: u64)
    requires
        inc <= MAX_RATE,
        dt_nanos <= NANOS_PER_SEC,
    ensures
        s == step_amt(inc, dt_nanos),
        s <= MAX_RATE,
{
    proof {
        assert(inc * dt_nanos <= MAX_RATE * NANOS_PER_SEC) by (nonlinear_arith)
            requires
                0 <= inc <= MAX_RATE,
                0 <= dt_nanos <= NANOS_PER_SEC,
        {
        }
        assert((inc * dt_nanos) / (NANOS_PER_SEC as int) <= MAX_RATE) by (nonlinear_arith)
            requires
                0 <= inc * dt_nanos <= MAX_RATE * NANOS_PER_SEC,
        {
        }
    }
    (((inc as u128) * (dt_nanos as u128)) / (NANOS_PER_SEC as u128)) as u64
}

/// A rate from an amount and a stage time, with its bound.
fn rate_of(amount: u64, time_micros: u64) -> (r: u64)
    requires
        amount <= SCALE,
    ensures
        r == spec_rate(amount, time_micros),
        r <= MAX_RATE,
{
    let t = if time_micros < MIN_TIME_MICROS {
        MIN_TIME_MICROS
    } else {
        time_micros
    };
    proof {
        assert(amount * SCALE <= SCALE * SCALE) by (nonlinear_arith)
            requires
                0 <= amount <= SCALE,
        {
        }
        assert((amount * SCALE) / (t as int) <= (amount * SCALE) / (MIN_TIME_MICROS as int))
            by (nonlinear_arith)
            requires
                t >= MIN_TIME_MICROS,
                MIN_TIME_MICROS > 0,
                amount * SCALE >= 0,
        {
        }
        assert((SCALE * SCALE) / (MIN_TIME_MICROS as int) == MAX_RATE);
        assert((amount * SCALE) / (MIN_TIME_MICROS as int) <= (SCALE * SCALE) / (
        MIN_TIME_MICROS as int)) by (nonlinear_arith)
            requires
                0 <= amount * SCALE <= SCALE * SCALE,
                MIN_TIME_MICROS > 0,
        {
        }
    }
    (((amount as u128) * (SCALE as u128)) / (t as u128)) as u64
}

impl Adsr {
    /// A fresh envelope in Silence.  Stage times are microseconds, the
    /// sustain level a fraction of full scale in millionths (clamped to
    /// full scale), and `gain` the peak of the squared output in
    /// millionths of full scale.
    pub fn new(atk_micros: u64, dec_micros: u64, sus_lvl: u64, rel_micros: u64, gain: u64) -> (
        a: Adsr)
        requires
            gain <= SCALE,
        ensures
            a == spec_adsr_new(atk_micros, dec_micros, sus_lvl, rel_micros, gain),
            a.wf(),
    {
        let sus = if sus_lvl < SCALE {
            sus_lvl
        } else {
            SCALE
        };
        proof {
            assert(gain * SCALE <= SCALE * SCALE) by (nonlinear_arith)
                requires
                    0 <= gain <= SCALE,
            {
            }
            crate::math::lemma_isqrt_bounds(gain * SCALE);
            assert(spec_isqrt(gain * SCALE) <= SCALE) by {
                if spec_isqrt(gain * SCALE) > SCALE {
                    assert(spec_isqrt(gain * SCALE) * spec_isqrt(gain * SCALE) > SCALE * SCALE)
                        by (nonlinear_arith)
                        requires
                            spec_isqrt(gain * SCALE) > SCALE,
                            SCALE > 0,
                    {
                    }
                }
            }
        }
        Adsr {
            state: AdsrState::Silence,
            position: 0,
            gate: Gate::new(),
            gain_lvl: isqrt(gain * SCALE),
            atk_inc: rate_of(SCALE, atk_micros),
            dec_inc: rate_of(SCALE - sus, dec_micros),
            sus_lvl: sus,
            rel_inc: rate_of(sus, rel_micros),
        }
    }

    /// True while the envelope rests in Silence.
    pub fn is_silent(&self) -> (r: bool)
        ensures
            r == (self.state == AdsrState::Silence),
    {
        matches!(self.state, AdsrState::Silence)
    }

    /// Aim the attack at a new peak without disturbing the stage or the
    /// position: this is how a re-strike of a sounding note lands.
    pub fn set_gain(&mut self, gain: u64)
        requires
            gain <= SCALE,
        ensures
            *final(self) == (Adsr { gain_lvl: spec_isqrt(gain * SCALE) as u64, ..*old(self) }),
            old(self).wf() ==> final(self).wf(),
    {
        proof {
            assert(gain * SCALE <= SCALE * SCALE) by (nonlinear_arith)
                requires
                    0 <= gain <= SCALE,
            {
            }
        }
        self.gain_lvl = isqrt(gain * SCALE);
    }

    /// The current raw (unsquared) position, in millionths.
    pub fn value(&self) -> (v: u64)
        ensures
            v == self.position,
    {
        self.position
    }

    /// The stage machine's move for one sample, after the edge detector
    /// been fed.
    fn update(&mut self, g: GateState, dt_nanos: u64)
        requires
            old(self).wf(),
            dt_nanos <= NANOS_PER_SEC,
        ensures
            *final(self) == env_update(*old(self), g, dt_nanos),
            final(self).wf(),
    {
        proof {
            let sl = self.sus_lvl;
            let gl = self.gain_lvl;
            assert((sl * gl) / (SCALE as int) <= gl && (sl * gl) / (SCALE as int) >= 0)
                by (nonlinear_arith)
                requires
                    0 <= sl <= SCALE,
                    gl >= 0,
            {
            }
        }
        match self.state {
            AdsrState::Silence => {
                if g.is_rising_edge() {
                    self.position = 0;
                    self.state = AdsrState::Attack;
                }
            },
            AdsrState::Attack => {
                let step = step_of(self.atk_inc, dt_nanos);
                let p = self.position + step;
                if p >= self.gain_lvl {
                    self.position = if p >= SCALE {
                        SCALE
                    } else {
                        p
                    };
                    self.state = AdsrState::Decay;
                } else {
                    self.position = p;
                }
            },
            AdsrState::Decay => {
                let step = step_of(self.dec_inc, dt_nanos);
                let p = if self.position >= step {
                    self.position - step
                } else {
                    0
                };
                let target = self.target_of();
                if g.is_rising_edge() {
                    self.position = p;
                    self.state = AdsrState::Attack;
                } else if p <= target {
                    self.position = target;
                    self.state = AdsrState::Sustain;
                } else {
                    self.position = p;
                }
            },
            AdsrState::Sustain => {
                if g.is_lowish() {
                    self.state = AdsrState::Release;
                } else if g.is_rising_edge() {
                    self.state = AdsrState::Attack;
                }
            },
            AdsrState::Release => {
                let step = step_of(self.rel_inc, dt_nanos);
                let p = if self.position >= step {
                    self.position - step
                } else {
                    0
                };
                if g.is_rising_edge() {
                    self.position = p;
                    self.state = AdsrState::Attack;
                } else if p == 0 {
                    self.position = 0;
                    self.state = AdsrState::Silence;
                } else {
                    self.position = p;
                }
            },
        }
    }

    /// The sustain target as a value, within full scale.
    fn target_of(&self) -> (t: u64)
        requires
            self.wf(),
        ensures
            t == self.sustain_target(),
            t <= SCALE,
    {
        proof {
            assert(self.sus_lvl * self.gain_lvl <= SCALE * SCALE) by (nonlinear_arith)
                requires
                    0 <= self.sus_lvl <= SCALE,
                    0 <= self.gain_lvl <= SCALE,
            {
            }
            assert((self.sus_lvl * self.gain_lvl) / (SCALE as int) <= SCALE) by (nonlinear_arith)
                requires
                    0 <= self.sus_lvl * self.gain_lvl <= SCALE * SCALE,
                    SCALE > 0,
            {
            }
        }
        (((self.sus_lvl as u128) * (self.gain_lvl as u128)) / (SCALE as u128)) as u64
    }

    /// One sample: feed the edge detector `value`, move one step, and
    /// squared amplitude the envelope had when the call began.
    pub fn advance(&mut self, dt_nanos: u64, value: bool) -> (env: u64)
        requires
            old(self).wf(),
            dt_nanos <= NANOS_PER_SEC,
        ensures
            *final(self) == env_step(*old(self), dt_nanos, value),
            final(self).wf(),
            env == old(self).out_sample(),
            env <= SCALE,
    {
        let sample = self.position;
        proof {
            assert(sample * sample <= SCALE * SCALE) by (nonlinear_arith)
                requires
                    0 <= sample <= SCALE,
            {
            }
            assert((sample * sample) / (SCALE as int) <= SCALE) by (nonlinear_arith)
                requires
                    0 <= sample * sample <= SCALE * SCALE,
                    SCALE > 0,
            {
            }
        }
        let g = self.gate.update(value);
        self.update(g, dt_nanos);
        (sample * sample) / SCALE
    }
}

} // verus!
