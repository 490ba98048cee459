//! Static clinic operating parameters.

use vstd::prelude::*;
use crate::time::SECS_PER_DAY;

verus! {

/// Length of the daily break, in seconds (one hour).
pub const BREAK_SECS: u32 = 3600;

/// Operating parameters of the clinic: opening hours, the daily break, and
/// the ranges of valid doctor and room numbers. Times are seconds since
/// midnight.
#[derive(Clone, Copy, Debug, PartialEq, Eq, Structural)]
pub struct AppConfig {
    pub port: u16,
    /// Doctors are numbered `0 .. doctor_amount`.
    pub doctor_amount: u32,
    /// Rooms are numbered `0 .. room_amount`.
    pub room_amount: u32,
    pub opening_time: u32,
    pub closing_time: u32,
    /// Start of the one-hour break.
    pub break_time: u32,
}

impl AppConfig {
    /// All times are daytimes and the break ends at or before midnight.
    pub open spec fn valid(self) -> bool {
        &&& self.opening_time < SECS_PER_DAY
        &&& self.closing_time < SECS_PER_DAY
        &&& self.break_time + BREAK_SECS <= SECS_PER_DAY
    }

    pub fn is_well_formed(&self) -> (r: bool)
        ensures
            r == self.valid(),
    {
        self.opening_time < SECS_PER_DAY && self.closing_time < SECS_PER_DAY && self.break_time
            <= SECS_PER_DAY - BREAK_SECS
    }

    /// Whether a doctor number is inside the configured range.
    pub fn is_valid_doctor(&self, doctor: u32) -> (r: bool)
        ensures
            r == (doctor < self.doctor_amount),
    {
        doctor < self.doctor_amount
    }

    /// Whether a room number is inside the configured range.
    pub fn is_valid_room(&self, room: u32) -> (r: bool)
        ensures
            r == (room < self.room_amount),
    {
        room < self.room_amount
    }
}

} // verus!
