//! Things that last for a set time: projectiles in flight and damage
//! pop-ups. Time is counted in nanoseconds.

use crate::structures_combat::despawn_entity;
use bevy::time::{Timer, TimerMode};
use bevy::utils::Duration;
use vstd::prelude::*;

verus! {

/// How long a projectile flies before it is removed: one second.
pub const PROJECTILE_LIFETIME_NANOS: u64 = 1_000_000_000;

/// How long a damage pop-up is shown: one second.
pub const DAMAGE_POPUP_LIFETIME_NANOS: u64 = 1_000_000_000;

/// A one-shot countdown: the time run so far, the time to run, and whether
/// the end was reached. It stops counting at the end.
#[derive(Clone, Copy, Debug, PartialEq, Eq, Structural)]
pub struct Lifetime {
    pub elapsed_nanos: u64,
    pub duration_nanos: u64,
    pub finished: bool,
}

/// The time a countdown shows after `delta_nanos` more have run: the sum,
/// stopped at the duration.
pub open spec fn spec_elapsed_after(elapsed_nanos: u64, duration_nanos: u64, delta_nanos: u64) -> u64 {
    if elapsed_nanos + delta_nanos >= duration_nanos {
        duration_nanos
    } else {
        (elapsed_nanos + delta_nanos) as u64
    }
}

/// Runs a one-shot timer of `bevy` for one tick and reads it back.
///
/// Calls `Timer::new` with the duration and `TimerMode::Once`,
/// `Timer::set_elapsed`, `Timer::tick` with the delta, and then
/// `Timer::elapsed` and `Timer::just_finished`. Not proved, and taken from
/// the source of `bevy_time`: a timer that is fresh from `new` is neither
/// paused nor finished, so `tick` adds the delta to the elapsed time, and the
/// timer has just finished exactly if the sum has reached the duration, in
/// which case the elapsed time is set to the duration. Three `u64` counts of
/// nanoseconds cannot overflow a `Duration`.
#[verifier::external_body]
fn tick_once(elapsed_nanos: u64, duration_nanos: u64, delta_nanos: u64) -> (after: (u64, bool))
    ensures
        after.0 == spec_elapsed_after(elapsed_nanos, duration_nanos, delta_nanos),
        after.1 == (elapsed_nanos + delta_nanos >= duration_nanos),
{
    let mut timer = Timer::new(Duration::from_nanos(duration_nanos), TimerMode::Once);
    timer.set_elapsed(Duration::from_nanos(elapsed_nanos));
    timer.tick(Duration::from_nanos(delta_nanos));
    (timer.elapsed().as_nanos() as u64, timer.just_finished())
}

impl Lifetime {
    /// The countdown after a tick of `delta_nanos`: a finished one stays as it
    /// is; a running one counts on, and is finished once the time run has
    /// reached the duration.
    pub open spec fn after_tick(self, delta_nanos: u64) -> Lifetime {
        if self.finished {
            self
        } else {
            Lifetime {
                elapsed_nanos: spec_elapsed_after(self.elapsed_nanos, self.duration_nanos, delta_nanos),
                duration_nanos: self.duration_nanos,
                finished: self.elapsed_nanos + delta_nanos >= self.duration_nanos,
            }
        }
    }

    /// Whether a tick of `delta_nanos` brings the countdown to its end: it was
    /// running, and the time run reaches the duration with this tick.
    pub open spec fn ends_with_tick(self, delta_nanos: u64) -> bool {
        !self.finished && self.elapsed_nanos + delta_nanos >= self.duration_nanos
    }

    /// A countdown of `duration_nanos` that has not run yet.
    pub fn new(duration_nanos: u64) -> (lifetime: Lifetime)
        ensures
            lifetime == (Lifetime { elapsed_nanos: 0, duration_nanos, finished: false }),
    {
        Lifetime { elapsed_nanos: 0, duration_nanos, finished: false }
    }

    /// Lets `delta_nanos` pass. Returns whether the countdown came to its end
    /// with this very tick.
    pub fn tick(&mut self, delta_nanos: u64) -> (just_finished: bool)
        ensures
            *final(self) == old(self).after_tick(delta_nanos),
            just_finished == old(self).ends_with_tick(delta_nanos),
    {
        if self.finished {
            false
        } else {
            let (elapsed_nanos, just_finished) = tick_once(self.elapsed_nanos, self.duration_nanos, delta_nanos);
            self.elapsed_nanos = elapsed_nanos;
            self.finished = just_finished;
            just_finished
        }
    }

    /// A countdown ends once: after the tick that ends it, no tick ends it
    /// again.
    pub proof fn lemma_ends_once(self, delta_nanos: u64, later_nanos: u64)
        requires
            self.ends_with_tick(delta_nanos),
        ensures
            self.after_tick(delta_nanos).finished,
            !self.after_tick(delta_nanos).ends_with_tick(later_nanos),
            self.after_tick(delta_nanos).after_tick(later_nanos) == self.after_tick(delta_nanos),
    {
    }

    /// Two ticks of a running countdown end it exactly if their sum reaches
    /// what is left to run: how the time is cut into ticks does not matter.
    pub proof fn lemma_ticks_add_up(self, first_nanos: u64, second_nanos: u64)
        requires
            !self.finished,
            self.elapsed_nanos <= self.duration_nanos,
            first_nanos + second_nanos <= u64::MAX,
        ensures
            self.after_tick(first_nanos).after_tick(second_nanos).finished == self.after_tick(
                (first_nanos + second_nanos) as u64,
            ).finished,
    {
    }
}

/// Lets time pass for a projectile in flight. The projectile is to be removed
/// when its time ends with this tick and it is still `alive`.
pub fn projectile_lifetime(projectile_entity: u64, lifetime: &mut Lifetime, delta_nanos: u64, alive: bool) -> (removed:
    Option<u64>)
    ensures
        *final(lifetime) == old(lifetime).after_tick(delta_nanos),
        removed == if old(lifetime).ends_with_tick(delta_nanos) && alive {
            Some(projectile_entity)
        } else {
            None
        },
{
    if lifetime.tick(delta_nanos) {
        despawn_entity(projectile_entity, alive)
    } else {
        None
    }
}

/// Lets time pass for a damage pop-up. The pop-up is to be removed when its
/// time ends with this tick and it is still `alive`.
pub fn damage_popup_lifetime(popup_entity: u64, lifetime: &mut Lifetime, delta_nanos: u64, alive: bool) -> (removed:
    Option<u64>)
    ensures
        *final(lifetime) == old(lifetime).after_tick(delta_nanos),
        removed == if old(lifetime).ends_with_tick(delta_nanos) && alive {
            Some(popup_entity)
        } else {
            None
        },
{
    if lifetime.tick(delta_nanos) {
        despawn_entity(popup_entity, alive)
    } else {
        None
    }
}

} // verus!
