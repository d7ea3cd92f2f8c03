//! The pace of the simulation: at most one generation per frame interval.
use crate::conway::conway_map::ConwayMap;
use instant::{Duration, Instant};
use vstd::prelude::*;

verus! {

/// `instant::Instant`, a moment on the monotonic clock. Nothing inside it is
/// visible to the verifier.
#[verifier::external_type_specification]
#[verifier::external_body]
pub struct ExInstant(instant::Instant);

/// `Instant::now`: the present moment. Nothing is claimed of it.
pub assume_specification[ instant::Instant::now ]() -> (now: Instant)
;

/// `Instant::duration_since`: the time from `earlier` to `later`, zero when
/// `earlier` is the later one. Nothing is claimed of it.
pub assume_specification[ instant::Instant::duration_since ](
    later: &Instant,
    earlier: Instant,
) -> (elapsed: Duration)
;

/// `Duration::as_millis`: the whole milliseconds in a duration. Nothing is
/// claimed of it.
pub assume_specification[ instant::Duration::as_millis ](duration: &Duration) -> (millis: u128)
;

/// Keeps the time of the last generation step and the least time, in
/// milliseconds, that must pass before the next.
pub struct FrameClock {
    speed: u128,
    last_frame_time: Instant,
}

impl FrameClock {
    /// The least number of milliseconds between two steps.
    pub closed spec fn interval(&self) -> int {
        self.speed as int
    }

    /// A clock with the given interval, whose last step is now.
    pub fn new(speed: u128) -> (clock: Self)
        ensures
            clock.interval() == speed,
    {
        FrameClock { speed, last_frame_time: Instant::now() }
    }

    /// The least number of milliseconds between two steps.
    pub fn speed(&self) -> (speed: u128)
        ensures
            speed == self.interval(),
    {
        self.speed
    }

    /// Sets the interval; the time of the last step stays.
    pub fn set_speed(&mut self, speed: u128)
        ensures
            final(self).interval() == speed,
    {
        self.speed = speed;
    }

    /// A step is due once the interval has passed in full.
    pub open spec fn is_due(&self, elapsed: u128) -> bool {
        elapsed >= self.interval()
    }

    /// Steps `map` if `elapsed` milliseconds suffice, and then takes the
    /// present moment as the time of the last step. Otherwise nothing
    /// changes.
    pub fn tick_after(&mut self, map: &mut ConwayMap, elapsed: u128) -> (stepped: bool)
        requires
            old(map).wf(),
        ensures
            stepped == old(self).is_due(elapsed),
            stepped ==> final(map).is_updated(old(map)),
            !stepped ==> *final(map) == *old(map),
            final(self).interval() == old(self).interval(),
    {
        if elapsed < self.speed {
            return false;
        }
        map.update();
        self.last_frame_time = Instant::now();
        true
    }

    /// Steps `map` if the interval has passed since the last step: it decides
    /// as [`FrameClock::tick_after`] does on the time that the clock gives.
    /// With an interval of zero every time suffices, so it always steps.
    pub fn tick(&mut self, map: &mut ConwayMap) -> (stepped: bool)
        requires
            old(map).wf(),
        ensures
            exists|elapsed: u128| stepped == #[trigger] old(self).is_due(elapsed),
            old(self).interval() == 0 ==> stepped,
            stepped ==> final(map).is_updated(old(map)),
            !stepped ==> *final(map) == *old(map),
            final(self).interval() == old(self).interval(),
    {
        let elapsed = Instant::now().duration_since(self.last_frame_time).as_millis();
        self.tick_after(map, elapsed)
    }
}

} // verus!
