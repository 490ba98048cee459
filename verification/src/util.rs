//! The timeframe validator: decides whether a candidate appointment
//! timeframe is admissible against operating hours, the daily break, and a
//! set of existing appointments.

use vstd::prelude::*;
use crate::config::{AppConfig, BREAK_SECS};
use crate::time::DateTime;
use crate::types::{AppointmentRecordWithPatient, ValidationError};

verus! {

/// The candidate starts before opening or ends after closing.
pub open spec fn outside_opening_hours(
    start_time: DateTime,
    end_time: DateTime,
    config: AppConfig,
) -> bool {
    start_time.time_of_day() < config.opening_time || end_time.time_of_day() > config.closing_time
}

/// The candidate's start lies inside the break window, or its end does.
pub open spec fn during_break(start_time: DateTime, end_time: DateTime, config: AppConfig) -> bool {
    let break_end = config.break_time + BREAK_SECS;
    (start_time.time_of_day() >= config.break_time && start_time.time_of_day() < break_end) || (
    end_time.time_of_day() > config.break_time && end_time.time_of_day() <= break_end)
}

/// The candidate begins before the break and ends after the break begins.
pub open spec fn spans_break(start_time: DateTime, end_time: DateTime, config: AppConfig) -> bool {
    start_time.time_of_day() < config.break_time && end_time.time_of_day() > config.break_time
}

/// The candidate shares a doctor or a room with `other` and the two
/// half-open intervals overlap.
pub open spec fn conflicts_with(
    start_time: DateTime,
    end_time: DateTime,
    doctor: u32,
    room_nr: u32,
    other: AppointmentRecordWithPatient,
) -> bool {
    (other.doctor == doctor || other.room_nr == room_nr) && start_time.spec_lt(other.end_time)
        && other.start_time.spec_lt(end_time)
}

/// Some existing appointment conflicts with the candidate.
pub open spec fn has_conflict(
    start_time: DateTime,
    end_time: DateTime,
    doctor: u32,
    room_nr: u32,
    appointments: Seq<AppointmentRecordWithPatient>,
) -> bool {
    exists|i: int|
        0 <= i < appointments.len() && conflicts_with(
            start_time,
            end_time,
            doctor,
            room_nr,
            #[trigger] appointments[i],
        )
}

/// The validator's verdict, checks applied in order: opening hours, break
/// overlap, break straddle, double booking.
pub open spec fn spec_valid_timeframe(
    start_time: DateTime,
    end_time: DateTime,
    doctor: u32,
    room_nr: u32,
    appointments: Seq<AppointmentRecordWithPatient>,
    config: AppConfig,
) -> Result<(), ValidationError> {
    if outside_opening_hours(start_time, end_time, config) {
        Err(ValidationError::OutsideHours)
    } else if during_break(start_time, end_time, config) {
        Err(ValidationError::DuringBreak)
    } else if spans_break(start_time, end_time, config) {
        Err(ValidationError::SpansBreak)
    } else if has_conflict(start_time, end_time, doctor, room_nr, appointments) {
        Err(ValidationError::Overlap)
    } else {
        Ok(())
    }
}

/// Decides whether the candidate `[start_time, end_time)` for `doctor` in
/// `room_nr` is admissible against `appointments`. The first failing check
/// names the rejection reason.
#[verifier::loop_isolation(false)]
pub fn is_valid_timeframe(
    start_time: DateTime,
    end_time: DateTime,
    doctor: u32,
    room_nr: u32,
    appointments: &Vec<AppointmentRecordWithPatient>,
    config: &AppConfig,
) -> (r: Result<(), ValidationError>)
    requires
        config.valid(),
    ensures
        r == spec_valid_timeframe(start_time, end_time, doctor, room_nr, appointments@, *config),
{
    let break_end_time = config.break_time + BREAK_SECS;

    if start_time.sec < config.opening_time || end_time.sec > config.closing_time {
        return Err(ValidationError::OutsideHours);
    }

    if (start_time.sec >= config.break_time && start_time.sec < break_end_time) || (end_time.sec
        > config.break_time && end_time.sec <= break_end_time) {
        return Err(ValidationError::DuringBreak);
    }

    if start_time.sec < config.break_time && end_time.sec > config.break_time {
        return Err(ValidationError::SpansBreak);
    }

    let mut i: usize = 0;
    while i < appointments.len()
        invariant
            0 <= i <= appointments@.len(),
            forall|j: int|
                0 <= j < i ==> !conflicts_with(
                    start_time,
                    end_time,
                    doctor,
                    room_nr,
                    #[trigger] appointments@[j],
                ),
        decreases appointments@.len() - i,
    {
        let appointment = &appointments[i];
        if (appointment.doctor == doctor || appointment.room_nr == room_nr) && (start_time.lt(
            appointment.end_time,
        ) && appointment.start_time.lt(end_time)) {
            return Err(ValidationError::Overlap);
        }
        i = i + 1;
    }

    Ok(())
}

/// Law: a candidate that starts before opening or ends after closing is
/// rejected as `OutsideHours`.
pub proof fn lemma_outside_hours_rejected(
    start_time: DateTime,
    end_time: DateTime,
    doctor: u32,
    room_nr: u32,
    appointments: Seq<AppointmentRecordWithPatient>,
    config: AppConfig,
)
    requires
        start_time.sec < config.opening_time || end_time.sec > config.closing_time,
    ensures
        spec_valid_timeframe(start_time, end_time, doctor, room_nr, appointments, config) == Err::<
            (),
            ValidationError,
        >(ValidationError::OutsideHours),
{
}

/// Law: a candidate within opening hours whose start lies inside the break
/// window, or whose end does, is rejected as `DuringBreak`.
pub proof fn lemma_during_break_rejected(
    start_time: DateTime,
    end_time: DateTime,
    doctor: u32,
    room_nr: u32,
    appointments: Seq<AppointmentRecordWithPatient>,
    config: AppConfig,
)
    requires
        !outside_opening_hours(start_time, end_time, config),
        during_break(start_time, end_time, config),
    ensures
        spec_valid_timeframe(start_time, end_time, doctor, room_nr, appointments, config) == Err::<
            (),
            ValidationError,
        >(ValidationError::DuringBreak),
{
}

/// Law: a candidate within opening hours whose timeframe lies fully or
/// partially inside the break window is rejected, either as `DuringBreak`
/// (an endpoint falls inside the window) or as `SpansBreak` (it runs
/// across the window).
pub proof fn lemma_break_window_rejected(
    start_time: DateTime,
    end_time: DateTime,
    doctor: u32,
    room_nr: u32,
    appointments: Seq<AppointmentRecordWithPatient>,
    config: AppConfig,
)
    requires
        !outside_opening_hours(start_time, end_time, config),
        start_time.sec < config.break_time + BREAK_SECS,
        end_time.sec > config.break_time,
    ensures
        spec_valid_timeframe(start_time, end_time, doctor, room_nr, appointments, config) == Err::<
            (),
            ValidationError,
        >(ValidationError::DuringBreak) || spec_valid_timeframe(
            start_time,
            end_time,
            doctor,
            room_nr,
            appointments,
            config,
        ) == Err::<(), ValidationError>(ValidationError::SpansBreak),
{
}

/// Law: a candidate within opening hours and clear of the break window that
/// begins before the break and ends after it begins is rejected as
/// `SpansBreak`.
pub proof fn lemma_spans_break_rejected(
    start_time: DateTime,
    end_time: DateTime,
    doctor: u32,
    room_nr: u32,
    appointments: Seq<AppointmentRecordWithPatient>,
    config: AppConfig,
)
    requires
        !outside_opening_hours(start_time, end_time, config),
        !during_break(start_time, end_time, config),
        start_time.sec < config.break_time,
        end_time.sec > config.break_time,
    ensures
        spec_valid_timeframe(start_time, end_time, doctor, room_nr, appointments, config) == Err::<
            (),
            ValidationError,
        >(ValidationError::SpansBreak),
{
}

/// Law: a candidate that passes the static checks and overlaps an existing
/// appointment sharing its doctor or room is rejected as `Overlap`.
pub proof fn lemma_overlap_rejected(
    start_time: DateTime,
    end_time: DateTime,
    doctor: u32,
    room_nr: u32,
    appointments: Seq<AppointmentRecordWithPatient>,
    config: AppConfig,
)
    requires
        !outside_opening_hours(start_time, end_time, config),
        !during_break(start_time, end_time, config),
        !spans_break(start_time, end_time, config),
        has_conflict(start_time, end_time, doctor, room_nr, appointments),
    ensures
        spec_valid_timeframe(start_time, end_time, doctor, room_nr, appointments, config) == Err::<
            (),
            ValidationError,
        >(ValidationError::Overlap),
{
}

/// Law: a candidate that passes the static checks and conflicts with no
/// existing appointment is accepted.
pub proof fn lemma_no_conflict_accepted(
    start_time: DateTime,
    end_time: DateTime,
    doctor: u32,
    room_nr: u32,
    appointments: Seq<AppointmentRecordWithPatient>,
    config: AppConfig,
)
    requires
        !outside_opening_hours(start_time, end_time, config),
        !during_break(start_time, end_time, config),
        !spans_break(start_time, end_time, config),
        forall|i: int|
            0 <= i < appointments.len() ==> !conflicts_with(
                start_time,
                end_time,
                doctor,
                room_nr,
                #[trigger] appointments[i],
            ),
    ensures
        spec_valid_timeframe(start_time, end_time, doctor, room_nr, appointments, config) == Ok::<
            (),
            ValidationError,
        >(()),
{
}

/// Law: half-open intervals that merely touch at an endpoint do not
/// conflict, whatever doctor and room they use.
pub proof fn lemma_touching_intervals_do_not_conflict(
    start_time: DateTime,
    end_time: DateTime,
    doctor: u32,
    room_nr: u32,
    other: AppointmentRecordWithPatient,
)
    requires
        end_time == other.start_time || other.end_time == start_time,
    ensures
        !conflicts_with(start_time, end_time, doctor, room_nr, other),
{
}

/// Law: validation is deterministic — the same candidate validated against
/// the same existing set always yields the same verdict.
pub proof fn lemma_validation_deterministic(
    start_time: DateTime,
    end_time: DateTime,
    doctor: u32,
    room_nr: u32,
    appointments_a: Seq<AppointmentRecordWithPatient>,
    appointments_b: Seq<AppointmentRecordWithPatient>,
    config: AppConfig,
)
    requires
        appointments_a == appointments_b,
    ensures
        spec_valid_timeframe(start_time, end_time, doctor, room_nr, appointments_a, config)
            == spec_valid_timeframe(start_time, end_time, doctor, room_nr, appointments_b, config),
{
}

} // verus!
