//! The decisions of the control service: when a failed command is retried
//! after reconnecting, how the animation speed maps to the bulb's fade time,
//! and the edge-triggered driver of the on-device rainbow effect. The service
//! itself (shared session, background tasks, timers) runs in the application.

use vstd::prelude::*;

use crate::device::clamp;
use crate::error::TapoError;

verus! {

/// A command that failed on its first attempt with a transient error is
/// retried once after reconnecting; any other failure is returned.
pub fn should_retry(attempt: u32, err: &TapoError) -> (r: bool)
    ensures
        r == (attempt == 0 && (err is Http || err is RequestStatus || err is ResponseSignatureMismatch
            || err is NotConnected || err is InvalidPayload)),
{
    attempt == 0 && err.is_transient()
}

/// The on-device fade time (ms) for an animation speed: speed is clamped to
/// 1..=100 and maps linearly from 4000 ms (slowest) down to 400 ms (fastest).
pub open spec fn transition_ms_spec(speed: u8) -> int {
    let sp = clamp(speed as int, 1, 100);
    4000 - (sp - 1) * 3600 / 99
}

/// The fade time for an animation speed (see `transition_ms_spec`).
pub fn transition_ms(speed: u8) -> (r: u64)
    ensures
        r == transition_ms_spec(speed),
        400 <= r <= 4000,
{
    let sp: u64 = if speed < 1 {
        1
    } else if speed > 100 {
        100
    } else {
        speed as u64
    };
    assert((sp - 1) * 3600 / 99 <= 3600) by (nonlinear_arith)
        requires
            1 <= sp <= 100,
    ;
    assert((sp - 1) * 3600 / 99 >= 0) by (nonlinear_arith)
        requires
            1 <= sp <= 100,
    ;
    4000 - (sp - 1) * (4000 - 400) / 99
}

/// A faster animation never fades more slowly: the fade time does not
/// increase with the speed, from 4000 ms at speed 1 (and below) to 400 ms at
/// speed 100 (and above).
pub proof fn law_fade_time_nonincreasing(a: u8, b: u8)
    requires
        a <= b,
    ensures
        transition_ms_spec(b) <= transition_ms_spec(a),
        transition_ms_spec(1) == 4000,
        transition_ms_spec(100) == 400,
{
    let sa = clamp(a as int, 1, 100);
    let sb = clamp(b as int, 1, 100);
    assert(sa <= sb);
    assert((sa - 1) * 3600 <= (sb - 1) * 3600) by (nonlinear_arith)
        requires
            1 <= sa <= sb,
    ;
    assert((sa - 1) * 3600 / 99 <= (sb - 1) * 3600 / 99) by (nonlinear_arith)
        requires
            0 <= (sa - 1) * 3600 <= (sb - 1) * 3600,
    ;
}

/// What the animation driver asks for in one round.
#[derive(Debug, Clone, Copy, PartialEq, Eq)]
pub enum EffectCommand {
    /// Start (or re-time) the on-device rainbow with this fade time.
    Apply(u32),
    /// Stop the running effect.
    Clear,
    /// Nothing to send.
    Idle,
}

/// The command of one round: with the fade time clamped to 200..=6000 ms,
/// apply the effect when it is wanted and not yet applied with that fade time
/// (unless the bulb rejected it before), clear it when it is not wanted but
/// applied, and otherwise do nothing.
pub open spec fn effect_command_spec(applied: bool, applied_trans: u64, fallback: bool, want: bool, step_ms: u64) -> EffectCommand {
    let trans = clamp(step_ms as int, 200, 6000);
    if want && (!applied || trans != applied_trans) && !fallback {
        EffectCommand::Apply(trans as u32)
    } else if !want && applied {
        EffectCommand::Clear
    } else {
        EffectCommand::Idle
    }
}

/// Drives the bulb's on-device rainbow edge-triggered: the effect is sent
/// once when enabled (again only when the fade time changes) and cleared
/// once when disabled. If the bulb rejects the effect, the driver falls back
/// for good to a client-side hue sweep.
pub struct AnimationDriver {
    applied: bool,
    applied_trans: u64,
    fallback: bool,
}

impl AnimationDriver {
    pub closed spec fn applied_view(&self) -> bool {
        self.applied
    }

    pub closed spec fn applied_trans_view(&self) -> u64 {
        self.applied_trans
    }

    pub closed spec fn fallback_view(&self) -> bool {
        self.fallback
    }

    /// Nothing applied yet, no fallback.
    pub fn new() -> (r: AnimationDriver)
        ensures
            !r.applied_view(),
            r.applied_trans_view() == 0,
            !r.fallback_view(),
    {
        AnimationDriver { applied: false, applied_trans: 0, fallback: false }
    }

    /// The command for one round, given whether the animation is wanted and
    /// the configured fade time.
    pub fn command(&self, want: bool, step_ms: u64) -> (r: EffectCommand)
        ensures
            r == effect_command_spec(
                self.applied_view(),
                self.applied_trans_view(),
                self.fallback_view(),
                want,
                step_ms,
            ),
    {
        let trans: u64 = if step_ms < 200 {
            200
        } else if step_ms > 6000 {
            6000
        } else {
            step_ms
        };
        if want && (!self.applied || trans != self.applied_trans) && !self.fallback {
            EffectCommand::Apply(trans as u32)
        } else if !want && self.applied {
            EffectCommand::Clear
        } else {
            EffectCommand::Idle
        }
    }

    /// The bulb accepted the effect with fade time `trans`.
    pub fn effect_applied(&mut self, trans: u32)
        ensures
            final(self).applied_view(),
            final(self).applied_trans_view() == trans,
            final(self).fallback_view() == old(self).fallback_view(),
    {
        self.applied = true;
        self.applied_trans = trans as u64;
    }

    /// The bulb rejected the effect: fall back to the client-side sweep.
    pub fn effect_rejected(&mut self)
        ensures
            final(self).fallback_view(),
            final(self).applied_view() == old(self).applied_view(),
            final(self).applied_trans_view() == old(self).applied_trans_view(),
    {
        self.fallback = true;
    }

    /// A clear was attempted: the effect counts as no longer applied.
    pub fn effect_cleared(&mut self)
        ensures
            !final(self).applied_view(),
            final(self).applied_trans_view() == old(self).applied_trans_view(),
            final(self).fallback_view() == old(self).fallback_view(),
    {
        self.applied = false;
    }

    /// Whether this round runs a client-side sweep step.
    pub fn sweeping(&self, want: bool) -> (r: bool)
        ensures
            r == (want && self.fallback_view()),
    {
        want && self.fallback
    }

    /// How long to wait before the next round: 60 ms while sweeping, else 250 ms.
    pub fn pause_ms(&self, want: bool) -> (r: u64)
        ensures
            r == (if want && self.fallback_view() {
                60u64
            } else {
                250u64
            }),
    {
        if want && self.fallback {
            60
        } else {
            250
        }
    }
}

/// The hue of the next sweep step: 3 degrees on, modulo 360.
pub fn next_sweep_hue(hue: u32) -> (r: u32)
    requires
        hue <= u32::MAX - 3,
    ensures
        r == (hue + 3) % 360,
        r < 360,
{
    (hue + 3) % 360
}

/// Once the effect is running with the fade time that is asked for, the
/// driver sends nothing more.
pub proof fn law_effect_sent_once(fallback: bool, step_ms: u64)
    ensures
        effect_command_spec(true, clamp(step_ms as int, 200, 6000) as u64, fallback, true, step_ms)
            == EffectCommand::Idle,
{
}

/// After the bulb has rejected the effect, the driver never sends it again.
pub proof fn law_rejected_effect_not_resent(applied: bool, applied_trans: u64, want: bool, step_ms: u64)
    ensures
        !(effect_command_spec(applied, applied_trans, true, want, step_ms) is Apply),
{
}

/// Once cleared, a disabled animation sends nothing more.
pub proof fn law_effect_cleared_once(applied_trans: u64, fallback: bool, step_ms: u64)
    ensures
        effect_command_spec(false, applied_trans, fallback, false, step_ms) == EffectCommand::Idle,
{
}

} // verus!
