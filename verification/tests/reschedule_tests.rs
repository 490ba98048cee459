use clinic_backend::config::AppConfig;
use clinic_backend::parse::{parse_date, parse_datetime};
use clinic_backend::reschedule::{mass_reschedule_doctor, MassRescheduleRequest};
use clinic_backend::time::{Date, DateTime};
use clinic_backend::types::{
    AppointmentRecordWithPatient, AppointmentType, PatientRecord, RescheduleError,
};

fn config() -> AppConfig {
    AppConfig {
        port: 8080,
        doctor_amount: 5,
        room_amount: 200,
        opening_time: 8 * 3600,
        closing_time: 17 * 3600,
        break_time: 12 * 3600,
    }
}

fn dt(s: &str) -> DateTime {
    parse_datetime(s).unwrap()
}

fn record(id: &str, doctor: u32, room_nr: u32, start: &str, end: &str) -> AppointmentRecordWithPatient {
    AppointmentRecordWithPatient {
        id: String::from(id),
        start_time: dt(start),
        end_time: dt(end),
        appointment_type: AppointmentType::ExtensiveCare,
        patient: PatientRecord {
            id: String::from("p1"),
            name: String::from("John Doe"),
            phone_number: String::from("1234567890"),
            insurance_number: None,
        },
        doctor,
        room_nr,
    }
}

fn request(doctor_id: u32, start: &str, end: &str) -> MassRescheduleRequest {
    MassRescheduleRequest {
        doctor_id,
        start_date: parse_date(start).unwrap(),
        end_date: parse_date(end).unwrap(),
    }
}

#[test]
fn scenario_leave_moves_appointment_past_window() {
    // One appointment of doctor 1 on 2021-01-10; the doctor is away the
    // whole of January, and 2021-02-01 is free: it moves there, keeping
    // its clock time.
    let appointments = vec![record("a1", 1, 101, "2021-01-10T10:00:00", "2021-01-10T11:00:00")];
    let outcome = mass_reschedule_doctor(
        appointments,
        &request(1, "2021-01-01", "2021-01-31"),
        &config(),
        365,
    )
    .unwrap();

    assert_eq!(outcome.appointments.len(), 1);
    let moved = &outcome.appointments[0];
    assert_eq!(moved.start_time, dt("2021-02-01T10:00:00"));
    assert_eq!(moved.end_time, dt("2021-02-01T11:00:00"));
    assert_eq!(moved.id, "a1".to_string());
    assert_eq!(moved.doctor, 1);
    assert_eq!(moved.room_nr, 101);
    assert_eq!(outcome.updated.len(), 1);
    assert_eq!(outcome.updated[0].start_time, dt("2021-02-01T10:00:00"));
}

#[test]
fn occupied_target_day_pushes_one_further() {
    // 2021-02-01 already holds a conflicting appointment of the same
    // doctor, so the relocated one lands on 2021-02-02.
    let appointments = vec![
        record("a1", 1, 101, "2021-01-10T10:00:00", "2021-01-10T11:00:00"),
        record("b1", 1, 102, "2021-02-01T10:00:00", "2021-02-01T11:00:00"),
    ];
    let outcome = mass_reschedule_doctor(
        appointments,
        &request(1, "2021-01-01", "2021-01-31"),
        &config(),
        365,
    )
    .unwrap();

    assert_eq!(outcome.appointments[0].start_time, dt("2021-02-02T10:00:00"));
    assert_eq!(outcome.appointments[0].end_time, dt("2021-02-02T11:00:00"));
    // The appointment outside the window is untouched.
    assert_eq!(outcome.appointments[1].start_time, dt("2021-02-01T10:00:00"));
    assert_eq!(outcome.updated.len(), 1);
}

#[test]
fn later_moves_see_earlier_commits() {
    // Two affected appointments at the same clock time: the second cannot
    // share the first one's relocated slot and lands one day later.
    let appointments = vec![
        record("a1", 1, 101, "2021-01-10T10:00:00", "2021-01-10T11:00:00"),
        record("a2", 1, 102, "2021-01-11T10:00:00", "2021-01-11T11:00:00"),
    ];
    let outcome = mass_reschedule_doctor(
        appointments,
        &request(1, "2021-01-01", "2021-01-31"),
        &config(),
        365,
    )
    .unwrap();

    assert_eq!(outcome.appointments[0].start_time, dt("2021-02-01T10:00:00"));
    assert_eq!(outcome.appointments[1].start_time, dt("2021-02-02T10:00:00"));
    assert_eq!(outcome.updated.len(), 2);
}

#[test]
fn other_doctors_are_left_alone() {
    let appointments = vec![
        record("a1", 1, 101, "2021-01-10T10:00:00", "2021-01-10T11:00:00"),
        record("c1", 2, 102, "2021-01-10T10:00:00", "2021-01-10T11:00:00"),
    ];
    let outcome = mass_reschedule_doctor(
        appointments,
        &request(1, "2021-01-01", "2021-01-31"),
        &config(),
        365,
    )
    .unwrap();

    assert_eq!(outcome.appointments[1].start_time, dt("2021-01-10T10:00:00"));
    assert_eq!(outcome.updated.len(), 1);
}

#[test]
fn empty_window_changes_nothing() {
    let appointments = vec![record("a1", 1, 101, "2021-03-10T10:00:00", "2021-03-10T11:00:00")];
    let outcome = mass_reschedule_doctor(
        appointments,
        &request(1, "2021-01-01", "2021-01-31"),
        &config(),
        365,
    )
    .unwrap();

    assert_eq!(outcome.appointments[0].start_time, dt("2021-03-10T10:00:00"));
    assert!(outcome.updated.is_empty());
}

#[test]
fn exhausted_horizon_reports_no_slot() {
    // The only day the horizon allows is already taken.
    let appointments = vec![
        record("a1", 1, 101, "2021-01-10T10:00:00", "2021-01-10T11:00:00"),
        record("b1", 1, 101, "2021-02-01T10:00:00", "2021-02-01T11:00:00"),
    ];
    let result = mass_reschedule_doctor(
        appointments,
        &request(1, "2021-01-01", "2021-01-31"),
        &config(),
        1,
    );
    assert!(matches!(result, Err(RescheduleError::NoSlotFound)));
}

#[test]
fn calendar_end_reports_date_overflow() {
    let appointments = vec![record("a1", 1, 101, "9999-12-20T10:00:00", "9999-12-20T11:00:00")];
    let result = mass_reschedule_doctor(
        appointments,
        &request(1, "9999-12-01", "9999-12-31"),
        &config(),
        365,
    );
    assert!(matches!(result, Err(RescheduleError::DateOverflow)));
}

#[test]
fn window_straddling_month_end_collects_both_sides() {
    let appointments = vec![
        record("a1", 1, 101, "2021-01-30T09:00:00", "2021-01-30T10:00:00"),
        record("a2", 1, 102, "2021-02-02T09:00:00", "2021-02-02T10:00:00"),
    ];
    let outcome = mass_reschedule_doctor(
        appointments,
        &request(1, "2021-01-25", "2021-02-05"),
        &config(),
        365,
    )
    .unwrap();

    assert_eq!(outcome.appointments[0].start_time, dt("2021-02-06T09:00:00"));
    assert_eq!(outcome.appointments[1].start_time, dt("2021-02-07T09:00:00"));
    assert_eq!(outcome.updated.len(), 2);
}

#[test]
fn date_arithmetic_handles_leap_years() {
    assert_eq!(
        Date { year: 2020, month: 2, day: 28 }.next_day(),
        Some(Date { year: 2020, month: 2, day: 29 })
    );
    assert_eq!(
        Date { year: 2021, month: 2, day: 28 }.next_day(),
        Some(Date { year: 2021, month: 3, day: 1 })
    );
    assert_eq!(
        Date { year: 2021, month: 12, day: 31 }.next_day(),
        Some(Date { year: 2022, month: 1, day: 1 })
    );
    assert_eq!(Date { year: 9999, month: 12, day: 31 }.next_day(), None);
}
