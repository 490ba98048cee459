use clinic_backend::config::AppConfig;
use clinic_backend::parse::parse_datetime;
use clinic_backend::time::DateTime;
use clinic_backend::types::{
    AppointmentRecordWithPatient, AppointmentType, PatientRecord, ValidationError,
};
use clinic_backend::util::is_valid_timeframe;

fn test_config() -> AppConfig {
    AppConfig {
        port: 8080,
        doctor_amount: 5,
        room_amount: 200,
        opening_time: 9 * 3600,
        closing_time: 17 * 3600,
        break_time: 12 * 3600,
    }
}

fn dt(s: &str) -> DateTime {
    parse_datetime(s).unwrap()
}

fn record(doctor: u32, room_nr: u32, start: &str, end: &str) -> AppointmentRecordWithPatient {
    AppointmentRecordWithPatient {
        id: String::from("appointment:existing"),
        start_time: dt(start),
        end_time: dt(end),
        appointment_type: AppointmentType::ExtensiveCare,
        patient: PatientRecord {
            id: String::from("p1"),
            name: String::from("John Doe"),
            phone_number: String::from("1234567890"),
            insurance_number: None,
        },
        doctor,
        room_nr,
    }
}

#[test]
fn test_appointment_outside_opening_hours() {
    let config = test_config();
    let start_time = dt("2023-10-01T08:00:00");
    let end_time = dt("2023-10-01T09:30:00");
    let appointments = vec![];

    let result = is_valid_timeframe(start_time, end_time, 1, 101, &appointments, &config);
    assert_eq!(result, Err(ValidationError::OutsideHours));
    assert_eq!(
        result.unwrap_err().message(),
        "Appointment is outside of opening hours".to_string()
    );
}

#[test]
fn test_appointment_during_break_time() {
    let config = test_config();
    let start_time = dt("2023-10-01T12:30:00");
    let end_time = dt("2023-10-01T13:00:00");
    let appointments = vec![];

    let result = is_valid_timeframe(start_time, end_time, 1, 101, &appointments, &config);
    assert_eq!(result, Err(ValidationError::DuringBreak));
    assert_eq!(
        result.unwrap_err().message(),
        "Appointment is during break time".to_string()
    );
}

#[test]
fn test_appointment_spanning_break_time() {
    let config = test_config();
    let start_time = dt("2023-10-01T11:30:00");
    let end_time = dt("2023-10-01T13:30:00");
    let appointments = vec![];

    let result = is_valid_timeframe(start_time, end_time, 1, 101, &appointments, &config);
    assert_eq!(result, Err(ValidationError::SpansBreak));
    assert_eq!(
        result.unwrap_err().message(),
        "Appointment cannot span across break time".to_string()
    );
}

#[test]
fn test_appointment_overlapping_another() {
    let config = test_config();
    let start_time = dt("2023-10-01T10:00:00");
    let end_time = dt("2023-10-01T11:00:00");
    let appointments = vec![record(1, 101, "2023-10-01T10:30:00", "2023-10-01T11:30:00")];

    let result = is_valid_timeframe(start_time, end_time, 1, 101, &appointments, &config);
    assert_eq!(result, Err(ValidationError::Overlap));
    assert_eq!(
        result.unwrap_err().message(),
        "Appointment overlaps with another appointment".to_string()
    );
}

#[test]
fn test_valid_appointment() {
    let config = test_config();
    let start_time = dt("2023-10-01T10:00:00");
    let end_time = dt("2023-10-01T11:00:00");
    let appointments = vec![];

    let result = is_valid_timeframe(start_time, end_time, 1, 101, &appointments, &config);
    assert_eq!(result, Ok(()));
}

// The clinic of the walk-through scenarios: open 08:00 to 17:00, one-hour
// break at 12:00.
fn scenario_config() -> AppConfig {
    AppConfig {
        port: 8080,
        doctor_amount: 5,
        room_amount: 200,
        opening_time: 8 * 3600,
        closing_time: 17 * 3600,
        break_time: 12 * 3600,
    }
}

#[test]
fn scenario_candidate_outside_hours() {
    let config = scenario_config();
    let result = is_valid_timeframe(
        dt("2021-01-05T07:00:00"),
        dt("2021-01-05T08:30:00"),
        1,
        101,
        &vec![],
        &config,
    );
    assert_eq!(result, Err(ValidationError::OutsideHours));
}

#[test]
fn scenario_candidate_during_break() {
    let config = scenario_config();
    let result = is_valid_timeframe(
        dt("2021-01-05T12:30:00"),
        dt("2021-01-05T13:00:00"),
        1,
        101,
        &vec![],
        &config,
    );
    assert_eq!(result, Err(ValidationError::DuringBreak));
}

#[test]
fn scenario_candidate_spanning_break() {
    let config = scenario_config();
    let result = is_valid_timeframe(
        dt("2021-01-05T11:30:00"),
        dt("2021-01-05T13:30:00"),
        1,
        101,
        &vec![],
        &config,
    );
    assert_eq!(result, Err(ValidationError::SpansBreak));
}

#[test]
fn scenario_candidate_double_booked() {
    let config = scenario_config();
    let existing = vec![record(1, 101, "2021-01-05T10:30:00", "2021-01-05T11:30:00")];
    let result = is_valid_timeframe(
        dt("2021-01-05T10:00:00"),
        dt("2021-01-05T11:00:00"),
        1,
        101,
        &existing,
        &config,
    );
    assert_eq!(result, Err(ValidationError::Overlap));
}

#[test]
fn scenario_candidate_free_calendar() {
    let config = scenario_config();
    let result = is_valid_timeframe(
        dt("2021-01-05T10:00:00"),
        dt("2021-01-05T11:00:00"),
        1,
        101,
        &vec![],
        &config,
    );
    assert_eq!(result, Ok(()));
}

#[test]
fn candidate_containing_the_break_is_rejected() {
    let config = test_config();
    // Wholly contains the 12:00-13:00 break: caught by the straddle check.
    let result = is_valid_timeframe(
        dt("2023-10-01T11:00:00"),
        dt("2023-10-01T14:00:00"),
        1,
        101,
        &vec![],
        &config,
    );
    assert_eq!(result, Err(ValidationError::SpansBreak));
}

#[test]
fn overlap_needs_shared_doctor_or_room() {
    let config = test_config();
    // Same times, but a different doctor in a different room: no conflict.
    let existing = vec![record(2, 102, "2023-10-01T10:00:00", "2023-10-01T11:00:00")];
    let result = is_valid_timeframe(
        dt("2023-10-01T10:00:00"),
        dt("2023-10-01T11:00:00"),
        1,
        101,
        &existing,
        &config,
    );
    assert_eq!(result, Ok(()));

    // Shared room alone is enough for a conflict.
    let result = is_valid_timeframe(
        dt("2023-10-01T10:00:00"),
        dt("2023-10-01T11:00:00"),
        1,
        102,
        &existing,
        &config,
    );
    assert_eq!(result, Err(ValidationError::Overlap));
}

#[test]
fn touching_timeframes_do_not_overlap() {
    let config = test_config();
    let existing = vec![record(1, 101, "2023-10-01T14:00:00", "2023-10-01T15:00:00")];
    // Ends exactly when the existing appointment starts.
    let before = is_valid_timeframe(
        dt("2023-10-01T13:30:00"),
        dt("2023-10-01T14:00:00"),
        1,
        101,
        &existing,
        &config,
    );
    assert_eq!(before, Ok(()));
    // Starts exactly when the existing appointment ends.
    let after = is_valid_timeframe(
        dt("2023-10-01T15:00:00"),
        dt("2023-10-01T16:00:00"),
        1,
        101,
        &existing,
        &config,
    );
    assert_eq!(after, Ok(()));
}

#[test]
fn validation_is_idempotent() {
    let config = test_config();
    let existing = vec![record(3, 100, "2023-10-01T14:00:00", "2023-10-01T15:00:00")];
    let first = is_valid_timeframe(
        dt("2023-10-01T10:00:00"),
        dt("2023-10-01T11:00:00"),
        1,
        101,
        &existing,
        &config,
    );
    let second = is_valid_timeframe(
        dt("2023-10-01T10:00:00"),
        dt("2023-10-01T11:00:00"),
        1,
        101,
        &existing,
        &config,
    );
    assert_eq!(first, Ok(()));
    assert_eq!(second, first);
}

#[test]
fn first_failing_check_wins() {
    let config = test_config();
    // Outside hours and overlapping: the opening-hours check is reported.
    let existing = vec![record(1, 101, "2023-10-01T08:00:00", "2023-10-01T09:30:00")];
    let result = is_valid_timeframe(
        dt("2023-10-01T08:00:00"),
        dt("2023-10-01T09:30:00"),
        1,
        101,
        &existing,
        &config,
    );
    assert_eq!(result, Err(ValidationError::OutsideHours));
}
