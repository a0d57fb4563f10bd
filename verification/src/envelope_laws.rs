//! Proved laws of the envelope machine.
//!
//! Each law quantifies over runs of [`crate::adsr::env_step`], the exact
//! one-sample transition that [`crate::adsr::Adsr::advance`] is proved to
//! implement, so what is shown here holds of the executable envelope.

use vstd::prelude::*;

use crate::adsr::Adsr;
use crate::adsr::AdsrState;
use crate::adsr::env_run;
use crate::adsr::env_step;
use crate::adsr::lemma_env_run_head;
use crate::adsr::lemma_env_run_add;
use crate::adsr::lemma_env_run_wf;
use crate::adsr::lemma_env_step_wf;
use crate::adsr::step_amt;
use crate::gate::GateState;
use crate::math::SCALE;
use crate::gate::gate_step;

verus! {

/// With no held input ever applied, the envelope stays in Silence with its
/// position at 0, for any number of samples.
pub proof fn lemma_silence_without_input(a: Adsr, dt_nanos: u64, n: nat)
    requires
        a.wf(),
        a.state == AdsrState::Silence,
    ensures
        env_run(a, dt_nanos, false, n).state == AdsrState::Silence,
        env_run(a, dt_nanos, false, n).position == 0,
    decreases n,
{
    if n > 0 {
        lemma_silence_without_input(a, dt_nanos, (n - 1) as nat);
    }
}

/// From Attack with a positive step, the envelope reaches Decay after some
/// `n >= 1` samples, staying in Attack until then; on arrival the position
/// has reached the peak level; held throughout, the edge state sits at High.
pub proof fn lemma_attack_reaches_decay(a: Adsr, dt_nanos: u64) -> (n: nat)
    requires
        a.wf(),
        a.state == AdsrState::Attack,
        step_amt(a.atk_inc, dt_nanos) >= 1,
        a.gate.0 == GateState::RisingEdge || a.gate.0 == GateState::High,
    ensures
        n >= 1,
        forall|k: nat| k < n ==> #[trigger] env_run(a, dt_nanos, true, k).state
            == AdsrState::Attack,
        env_run(a, dt_nanos, true, n).state == AdsrState::Decay,
        env_run(a, dt_nanos, true, n).position >= a.gain_lvl,
        env_run(a, dt_nanos, true, n).gate.0 == GateState::High,
    decreases a.gain_lvl - a.position,
{
    let s = step_amt(a.atk_inc, dt_nanos);
    let b = env_step(a, dt_nanos, true);
    lemma_env_step_wf(a, dt_nanos, true);
    if a.position + s >= a.gain_lvl {
        assert(env_run(a, dt_nanos, true, 0) == a);
        assert(env_run(a, dt_nanos, true, 1) == b);
        1
    } else {
        let m = lemma_attack_reaches_decay(b, dt_nanos);
        lemma_env_run_head(a, dt_nanos, true, (m + 1) as nat);
        assert forall|k: nat| k < m + 1 implies #[trigger] env_run(a, dt_nanos, true, k).state
            == AdsrState::Attack by {
            if k >= 1 {
                lemma_env_run_head(a, dt_nanos, true, k);
            }
        }
        m + 1
    }
}

/// From Decay with a positive step and a steadily held gate, the envelope
/// reaches Sustain after some `n >= 1` samples, staying in Decay until
/// then; on arrival the position is exactly the sustain target.
pub proof fn lemma_decay_reaches_sustain(a: Adsr, dt_nanos: u64) -> (n: nat)
    requires
        a.wf(),
        a.state == AdsrState::Decay,
        step_amt(a.dec_inc, dt_nanos) >= 1,
        a.gate.0 == GateState::High,
    ensures
        n >= 1,
        forall|k: nat| k < n ==> #[trigger] env_run(a, dt_nanos, true, k).state == AdsrState::Decay,
        env_run(a, dt_nanos, true, n).state == AdsrState::Sustain,
        env_run(a, dt_nanos, true, n).position == a.sustain_target(),
        env_run(a, dt_nanos, true, n).gate.0 == GateState::High,
    decreases a.position - a.sustain_target(),
{
    let s = step_amt(a.dec_inc, dt_nanos);
    let b = env_step(a, dt_nanos, true);
    lemma_env_step_wf(a, dt_nanos, true);
    let sl = a.sus_lvl;
    let gl = a.gain_lvl;
    assert(0 <= (sl * gl) / (SCALE as int) <= SCALE) by (nonlinear_arith)
        requires
            0 <= sl <= SCALE,
            0 <= gl <= SCALE,
    {
    }
    if a.position - s <= a.sustain_target() {
        assert(env_run(a, dt_nanos, true, 0) == a);
        assert(env_run(a, dt_nanos, true, 1) == b);
        1
    } else {
        let m = lemma_decay_reaches_sustain(b, dt_nanos);
        lemma_env_run_head(a, dt_nanos, true, (m + 1) as nat);
        assert forall|k: nat| k < m + 1 implies #[trigger] env_run(a, dt_nanos, true, k).state
            == AdsrState::Decay by {
            if k >= 1 {
                lemma_env_run_head(a, dt_nanos, true, k);
            }
        }
        m + 1
    }
}

/// Sustain is a fixed point while the input stays held: every further
/// sample leaves the whole envelope unchanged.
pub proof fn lemma_sustain_holds(a: Adsr, dt_nanos: u64, n: nat)
    requires
        a.wf(),
        a.state == AdsrState::Sustain,
        a.gate.0 == GateState::High,
    ensures
        env_run(a, dt_nanos, true, n) == a,
    decreases n,
{
    if n > 0 {
        lemma_sustain_holds(a, dt_nanos, (n - 1) as nat);
    }
}

/// A single rising edge, held long enough, drives the envelope through
/// Silence, Attack and Decay into Sustain, where it then holds its position
/// at the sustain target for as long as the input stays held.
///
/// The returned pair `(nd, ns)` marks when Decay and Sustain are entered:
/// sample 1 starts the attack from position 0, samples `1..nd` are Attack,
/// samples `nd..ns` are Decay, and from sample `ns` on the envelope stands
/// still in Sustain at the sustain target.
pub proof fn lemma_held_note_reaches_sustain(a: Adsr, dt_nanos: u64) -> (r: (nat, nat))
    requires
        a.wf(),
        a.state == AdsrState::Silence,
        a.gate.0 == GateState::Low,
        step_amt(a.atk_inc, dt_nanos) >= 1,
        step_amt(a.dec_inc, dt_nanos) >= 1,
    ensures
        1 <= r.0 < r.1,
        env_run(a, dt_nanos, true, 1).state == AdsrState::Attack,
        env_run(a, dt_nanos, true, 1).position == 0,
        forall|k: nat| 1 <= k < r.0 ==> #[trigger] env_run(a, dt_nanos, true, k).state
            == AdsrState::Attack,
        env_run(a, dt_nanos, true, r.0).state == AdsrState::Decay,
        forall|k: nat| r.0 <= k < r.1 ==> #[trigger] env_run(a, dt_nanos, true, k).state
            == AdsrState::Decay,
        env_run(a, dt_nanos, true, r.1).state == AdsrState::Sustain,
        env_run(a, dt_nanos, true, r.1).position == a.sustain_target(),
        forall|m: nat| m >= r.1 ==> #[trigger] env_run(a, dt_nanos, true, m) == env_run(
            a,
            dt_nanos,
            true,
            r.1,
        ),
{
    let b1 = env_step(a, dt_nanos, true);
    lemma_env_step_wf(a, dt_nanos, true);
    assert(b1.state == AdsrState::Attack && b1.position == 0 && b1.gate.0
        == GateState::RisingEdge);
    assert(env_run(a, dt_nanos, true, 0) == a);
    assert(env_run(a, dt_nanos, true, 1) == b1);

    let na = lemma_attack_reaches_decay(b1, dt_nanos);
    let b2 = env_run(b1, dt_nanos, true, na);
    lemma_env_run_wf(b1, dt_nanos, true, na);
    let nd = (1 + na) as nat;

    let ns_rel = lemma_decay_reaches_sustain(b2, dt_nanos);
    let b3 = env_run(b2, dt_nanos, true, ns_rel);
    lemma_env_run_wf(b2, dt_nanos, true, ns_rel);
    let ns = (nd + ns_rel) as nat;

    // Every prefix of the run seen from `a` is the same run seen from `b1`
    // one sample later, and from `b2` another `na` samples later.
    assert forall|k: nat| 1 <= k implies #[trigger] env_run(a, dt_nanos, true, k) == env_run(
        b1,
        dt_nanos,
        true,
        (k - 1) as nat,
    ) by {
        lemma_env_run_head(a, dt_nanos, true, k);
    }
    assert forall|k: nat| nd <= k implies env_run(a, dt_nanos, true, k) == env_run(
        b2,
        dt_nanos,
        true,
        (k - nd) as nat,
    ) by {
        lemma_env_run_add(b1, dt_nanos, true, na, (k - nd) as nat);
        assert(env_run(b1, dt_nanos, true, (k - 1) as nat) == env_run(
            b2,
            dt_nanos,
            true,
            (k - nd) as nat,
        ));
    }
    assert forall|m: nat| m >= ns implies #[trigger] env_run(a, dt_nanos, true, m) == env_run(
        a,
        dt_nanos,
        true,
        ns,
    ) by {
        lemma_env_run_add(b2, dt_nanos, true, ns_rel, (m - ns) as nat);
        lemma_sustain_holds(b3, dt_nanos, (m - ns) as nat);
        assert(env_run(b2, dt_nanos, true, (m - nd) as nat) == b3);
        assert(env_run(a, dt_nanos, true, m) == env_run(b2, dt_nanos, true, (m - nd) as nat));
        assert(env_run(a, dt_nanos, true, ns) == b3);
    }
    // The sustain target never moved: no sample touches the rate fields.
    assert(b2.sustain_target() == a.sustain_target());
    (nd, ns)
}

/// From Release with the input no longer held and a positive step, the
/// position falls monotonically and the envelope enters Silence exactly on
/// the sample where the position first reaches 0: until then every sample
/// is still Release with a positive position.
pub proof fn lemma_release_reaches_silence(a: Adsr, dt_nanos: u64) -> (n: nat)
    requires
        a.wf(),
        a.state == AdsrState::Release,
        step_amt(a.rel_inc, dt_nanos) >= 1,
    ensures
        n >= 1,
        forall|k: nat| k < n ==> #[trigger] env_run(a, dt_nanos, false, k).state
            == AdsrState::Release,
        forall|k: nat| 1 <= k < n ==> #[trigger] env_run(a, dt_nanos, false, k).position > 0,
        forall|k: nat| k < n ==> #[trigger] env_run(a, dt_nanos, false, (k + 1) as nat).position
            <= env_run(a, dt_nanos, false, k).position,
        env_run(a, dt_nanos, false, n).state == AdsrState::Silence,
        env_run(a, dt_nanos, false, n).position == 0,
    decreases a.position,
{
    let s = step_amt(a.rel_inc, dt_nanos);
    let b = env_step(a, dt_nanos, false);
    lemma_env_step_wf(a, dt_nanos, false);
    if a.position - s <= 0 {
        assert(env_run(a, dt_nanos, false, 0) == a);
        assert(env_run(a, dt_nanos, false, 1) == b);
        1
    } else {
        let m = lemma_release_reaches_silence(b, dt_nanos);
        assert forall|k: nat| 1 <= k implies #[trigger] env_run(a, dt_nanos, false, k) == env_run(
            b,
            dt_nanos,
            false,
            (k - 1) as nat,
        ) by {
            lemma_env_run_head(a, dt_nanos, false, k);
        }
        assert forall|k: nat| k < m + 1 implies #[trigger] env_run(a, dt_nanos, false, k).state
            == AdsrState::Release by {
            if k >= 1 {
                assert(env_run(a, dt_nanos, false, k) == env_run(
                    b,
                    dt_nanos,
                    false,
                    (k - 1) as nat,
                ));
            }
        }
        assert forall|k: nat| k < m + 1 implies #[trigger] env_run(
            a,
            dt_nanos,
            false,
            (k + 1) as nat,
        ).position <= env_run(a, dt_nanos, false, k).position by {
            if k == 0 {
                assert(env_run(a, dt_nanos, false, 1) == b);
            } else {
                assert(env_run(a, dt_nanos, false, (k + 1) as nat) == env_run(
                    b,
                    dt_nanos,
                    false,
                    k as nat,
                ));
            }
        }
        m + 1
    }
}

/// Releasing from Sustain: one falling edge puts the envelope in Release
/// with its position untouched, and from there the position falls
/// monotonically to 0, Silence being entered exactly when 0 is first
/// reached.
pub proof fn lemma_release_from_sustain(a: Adsr, dt_nanos: u64) -> (n: nat)
    requires
        a.wf(),
        a.state == AdsrState::Sustain,
        a.gate.0 == GateState::High,
        step_amt(a.rel_inc, dt_nanos) >= 1,
    ensures
        n >= 2,
        env_run(a, dt_nanos, false, 1).state == AdsrState::Release,
        env_run(a, dt_nanos, false, 1).position == a.position,
        forall|k: nat| 1 <= k < n ==> #[trigger] env_run(a, dt_nanos, false, k).state
            == AdsrState::Release,
        forall|k: nat| 1 <= k < n ==> #[trigger] env_run(a, dt_nanos, false, (k + 1) as nat)
            .position <= env_run(a, dt_nanos, false, k).position,
        env_run(a, dt_nanos, false, n).state == AdsrState::Silence,
        env_run(a, dt_nanos, false, n).position == 0,
{
    let b = env_step(a, dt_nanos, false);
    lemma_env_step_wf(a, dt_nanos, false);
    assert(b.state == AdsrState::Release && b.position == a.position);
    assert(env_run(a, dt_nanos, false, 0) == a);
    assert(env_run(a, dt_nanos, false, 1) == b);
    let m = lemma_release_reaches_silence(b, dt_nanos);
    assert forall|k: nat| 1 <= k implies #[trigger] env_run(a, dt_nanos, false, k) == env_run(
        b,
        dt_nanos,
        false,
        (k - 1) as nat,
    ) by {
        lemma_env_run_head(a, dt_nanos, false, k);
    }
    assert forall|k: nat| 1 <= k < m + 1 implies #[trigger] env_run(
        a,
        dt_nanos,
        false,
        (k + 1) as nat,
    ).position <= env_run(a, dt_nanos, false, k).position by {
        assert(env_run(a, dt_nanos, false, (k + 1) as nat) == env_run(b, dt_nanos, false, k));
        assert(env_run(b, dt_nanos, false, k) == env_run(
            b,
            dt_nanos,
            false,
            ((k - 1) + 1) as nat,
        ));
    }
    m + 1
}

/// A rising edge injected during Decay, Sustain or Release moves the
/// envelope to Attack on that very sample, without resetting the position:
/// the position is exactly what the interrupted stage's own arithmetic
/// leaves, never 0ed as a fresh attack from Silence would be.
pub proof fn lemma_restrike_diverts_to_attack(a: Adsr, dt_nanos: u64)
    requires
        a.wf(),
        a.state == AdsrState::Decay || a.state == AdsrState::Sustain || a.state
            == AdsrState::Release,
        a.gate.0 == GateState::Low || a.gate.0 == GateState::FallingEdge,
    ensures
        env_step(a, dt_nanos, true).state == AdsrState::Attack,
        a.state == AdsrState::Sustain ==> env_step(a, dt_nanos, true).position == a.position,
        a.state == AdsrState::Decay ==> env_step(a, dt_nanos, true).position == (if a.position
            - step_amt(a.dec_inc, dt_nanos) < 0 {
            0
        } else {
            a.position - step_amt(a.dec_inc, dt_nanos)
        }),
        a.state == AdsrState::Release ==> env_step(a, dt_nanos, true).position == (if a.position
            - step_amt(a.rel_inc, dt_nanos) < 0 {
            0
        } else {
            a.position - step_amt(a.rel_inc, dt_nanos)
        }),
{
    assert(gate_step(a.gate.0, true) == GateState::RisingEdge);
}

} // verus!
