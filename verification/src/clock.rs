//! The clock that time-based combinators read.

use vstd::prelude::*;
use web_time::Instant;

verus! {

/// An instant of `web_time`. Nothing is claimed of a value of it.
#[verifier::external_type_specification]
#[verifier::external_body]
pub struct ExInstant(Instant);

/// A clock that counts the nanoseconds since it was made. The view is its latest reading.
pub struct Clock {
    origin: Instant,
    latest: Ghost<nat>,
}

impl View for Clock {
    type V = nat;

    closed spec fn view(&self) -> nat {
        self.latest@
    }
}

impl Clock {
    /// `reading` is what [`Self::nanos`] returned when it read this clock. Nothing but that call makes
    /// this known, so that an old reading does not pass for a new one.
    pub closed spec fn showed(self, reading: u128) -> bool {
        exists|clock: &mut Clock|
            #![trigger call_ensures(Clock::nanos, (clock,), reading)]
            *clock == self && call_ensures(Clock::nanos, (clock,), reading)
    }

    /// Reads the clock.
    pub fn read(&mut self) -> (res: u128)
        ensures
            old(self).showed(res),
            old(self)@ <= res,
            final(self)@ == res,
    {
        self.nanos()
    }

    /// Makes a clock that has not been read.
    pub fn new() -> (res: Self)
        ensures
            res@ == 0,
    {
        Clock { origin: instant_now(), latest: Ghost(0) }
    }

    /// Reads the clock by `Instant::elapsed`, which returns the time since the instant, and counts
    /// it in nanoseconds. Claimed: instants never run backwards, so that no reading is below the
    /// one before it. Which number comes out is left to the machine's clock.
    #[verifier::external_body]
    pub(crate) fn nanos(&mut self) -> (res: u128)
        ensures
            old(self)@ <= res,
            final(self)@ == res,
    {
        self.origin.elapsed().as_nanos()
    }
}

/// Calls `Instant::now`, which returns the current instant. Nothing is claimed of it.
#[verifier::external_body]
fn instant_now() -> Instant {
    Instant::now()
}

/// What a clock showed is what a call read of it, and no less than what it had shown before.
pub(crate) proof fn law_reading_is_new(before: Clock, reading: u128)
    requires
        before.showed(reading),
    ensures
        before@ <= reading,
        exists|clock: &mut Clock|
            #![trigger call_ensures(Clock::nanos, (clock,), reading)]
            *clock == before && call_ensures(Clock::nanos, (clock,), reading),
{
}

} // verus!
