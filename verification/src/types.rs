//! Core data types: patients, appointments, their record forms, the request
//! shapes the HTTP layer hands over, and the error taxonomy.

use vstd::prelude::*;
use vstd::string::{StrSliceExecFns, StringExecFns};
use crate::config::AppConfig;
use crate::time::{DateTime, SECS_PER_DAY};
use crate::parse::{spec_parse_datetime, parse_datetime, spec_parse_u32, parse_u32};

verus! {

/// Why a candidate timeframe was rejected.
#[derive(Clone, Copy, Debug, PartialEq, Eq, Structural)]
pub enum ValidationError {
    OutsideHours,
    DuringBreak,
    SpansBreak,
    Overlap,
}

impl ValidationError {
    /// The human-readable rejection reason.
    pub fn message(&self) -> (r: String)
        ensures
            r@ == match *self {
                ValidationError::OutsideHours => "Appointment is outside of opening hours"@,
                ValidationError::DuringBreak => "Appointment is during break time"@,
                ValidationError::SpansBreak => "Appointment cannot span across break time"@,
                ValidationError::Overlap => "Appointment overlaps with another appointment"@,
            },
    {
        match *self {
            ValidationError::OutsideHours => String::from_str(
                "Appointment is outside of opening hours",
            ),
            ValidationError::DuringBreak => String::from_str("Appointment is during break time"),
            ValidationError::SpansBreak => String::from_str(
                "Appointment cannot span across break time",
            ),
            ValidationError::Overlap => String::from_str(
                "Appointment overlaps with another appointment",
            ),
        }
    }
}

/// Failure to turn a raw appointment request into a timed one.
#[derive(Clone, Copy, Debug, PartialEq, Eq, Structural)]
pub enum AppointmentTimeError {
    /// The start time string is not a valid `YYYY-MM-DDTHH:MM:SS` timestamp.
    MalformedInput,
    /// The derived end time would run past the supported calendar range.
    DateOverflow,
}

/// Failure to parse a filter request into an `AppointmentFilter`.
#[derive(Clone, Copy, Debug, PartialEq, Eq, Structural)]
pub enum FilterParseError {
    UnknownFilter,
    InvalidNumber,
}

/// A filter value whose date or month string is malformed.
#[derive(Clone, Copy, Debug, PartialEq, Eq, Structural)]
pub enum FilterFormatError {
    InvalidDayFormat,
    InvalidMonthFormat,
}

/// Failure to apply an appointment update request.
#[derive(Clone, Copy, Debug, PartialEq, Eq, Structural)]
pub enum UpdateError {
    InvalidDoctor,
    InvalidRoom,
    DateOverflow,
}

/// Failure of a mass-reschedule run.
#[derive(Clone, Copy, Debug, PartialEq, Eq, Structural)]
pub enum RescheduleError {
    /// Probing ran past the supported calendar range.
    DateOverflow,
    /// No admissible day was found within the probing horizon.
    NoSlotFound,
}

/// The kind of an appointment; it fixes the appointment's length.
#[derive(Clone, Copy, Debug, PartialEq, Eq, Structural)]
pub enum AppointmentType {
    QuickCheckup,
    ExtensiveCare,
    Surgery,
}

impl AppointmentType {
    /// Length in seconds: half an hour, an hour, or two hours.
    pub open spec fn spec_duration(self) -> u32 {
        match self {
            AppointmentType::QuickCheckup => 1800,
            AppointmentType::ExtensiveCare => 3600,
            AppointmentType::Surgery => 7200,
        }
    }

    pub fn duration(&self) -> (r: u32)
        ensures
            r == self.spec_duration(),
            r < SECS_PER_DAY,
    {
        match *self {
            AppointmentType::QuickCheckup => 1800,
            AppointmentType::ExtensiveCare => 3600,
            AppointmentType::Surgery => 7200,
        }
    }
}

/// A patient as handed in by a create request.
#[derive(Debug, PartialEq)]
pub struct Patient {
    pub name: String,
    pub phone_number: String,
    pub insurance_number: Option<String>,
}

impl Clone for Patient {
    fn clone(&self) -> (res: Self)
        ensures
            res == *self,
    {
        Patient {
            name: self.name.clone(),
            phone_number: self.phone_number.clone(),
            insurance_number: match &self.insurance_number {
                Some(s) => Some(s.clone()),
                None => None,
            },
        }
    }
}

/// A persisted patient; `id` is the store-assigned key.
#[derive(Debug, PartialEq)]
pub struct PatientRecord {
    pub id: String,
    pub name: String,
    pub phone_number: String,
    pub insurance_number: Option<String>,
}

impl Clone for PatientRecord {
    fn clone(&self) -> (res: Self)
        ensures
            res == *self,
    {
        PatientRecord {
            id: self.id.clone(),
            name: self.name.clone(),
            phone_number: self.phone_number.clone(),
            insurance_number: match &self.insurance_number {
                Some(s) => Some(s.clone()),
                None => None,
            },
        }
    }
}

/// A patient reference in the form `patient:{unique_id}`.
#[derive(Debug, PartialEq)]
pub struct PatientRecordId {
    full: String,
}

impl View for PatientRecordId {
    type V = Seq<char>;

    closed spec fn view(&self) -> Seq<char> {
        self.full@
    }
}

impl Clone for PatientRecordId {
    fn clone(&self) -> (res: Self)
        ensures
            res == *self,
    {
        PatientRecordId { full: self.full.clone() }
    }
}

/// Index of the first `:` in `s` at or after `from`, or `s.len()` if none.
pub open spec fn first_colon(s: Seq<char>, from: int) -> int
    decreases s.len() - from when 0 <= from <= s.len()
{
    if from < 0 || from >= s.len() {
        s.len() as int
    } else if s[from] == ':' {
        from
    } else {
        first_colon(s, from + 1)
    }
}

/// Finds the first `:` at or after `from`, scanning left to right.
fn find_colon(s: &str, from: usize) -> (r: usize)
    requires
        from <= s@.len(),
    ensures
        r == first_colon(s@, from as int),
        from <= r <= s@.len(),
{
    let len = s.unicode_len();
    let mut i = from;
    while i < len
        invariant
            from <= i <= len,
            len == s@.len(),
            first_colon(s@, from as int) == first_colon(s@, i as int),
        decreases len - i,
    {
        if s.get_char(i) == ':' {
            return i;
        }
        i = i + 1;
    }
    i
}

impl PatientRecordId {
    /// Builds `patient:{unique_id}` from a unique id.
    pub fn new(unique_id: &str) -> (r: PatientRecordId)
        ensures
            r@ == "patient:"@ + unique_id@,
    {
        let mut full = String::from_str("patient:");
        full.append(unique_id);
        PatientRecordId { full }
    }

    /// The full `patient:{unique_id}` string.
    pub fn as_str(&self) -> (r: &str)
        ensures
            r@ == self@,
    {
        self.full.as_str()
    }

    /// The segment between the first `:` and the next `:` or the end.
    /// The id must contain a `:`, as every id built by `new` does.
    pub fn get_unique_id(&self) -> (r: &str)
        requires
            first_colon(self@, 0) < self@.len(),
        ensures
            r@ == self@.subrange(
                first_colon(self@, 0) + 1,
                first_colon(self@, first_colon(self@, 0) + 1),
            ),
    {
        let s = self.full.as_str();
        let len = s.unicode_len();
        let ci = find_colon(s, 0);
        assert(ci < len);
        let cj = find_colon(s, ci + 1);
        s.substring_char(ci + 1, cj)
    }

    /// Accepts only strings of the form `patient:{unique_id}`.
    pub fn from_full_id(s: &str) -> (r: Option<PatientRecordId>)
        ensures
            match r {
                Some(p) => s@.len() >= 8 && s@.subrange(0, 8) == "patient:"@ && p@ == s@,
                None => s@.len() < 8 || s@.subrange(0, 8) != "patient:"@,
            },
    {
        proof {
            reveal_strlit("patient:");
        }
        if s.unicode_len() < 8 {
            return None;
        }
        let prefix = s.substring_char(0, 8);
        if String::from_str(prefix) == String::from_str("patient:") {
            Some(PatientRecordId { full: String::from_str(s) })
        } else {
            None
        }
    }

    /// Whether two ids name the same reference.
    pub fn eq_id(&self, other: &PatientRecordId) -> (r: bool)
        ensures
            r == (self@ == other@),
    {
        self.full == other.full
    }
}

/// An appointment as handed in by a create request; the start time is still
/// an unparsed `YYYY-MM-DDTHH:MM:SS` string.
#[derive(Debug, PartialEq)]
pub struct Appointment {
    pub start_time: String,
    pub appointment_type: AppointmentType,
    pub patient_id: PatientRecordId,
    pub doctor: u32,
    pub room_nr: u32,
}

impl Clone for Appointment {
    fn clone(&self) -> (res: Self)
        ensures
            res == *self,
    {
        Appointment {
            start_time: self.start_time.clone(),
            appointment_type: self.appointment_type,
            patient_id: self.patient_id.clone(),
            doctor: self.doctor,
            room_nr: self.room_nr,
        }
    }
}

/// An appointment whose start time has been parsed and whose end time has
/// been derived from its kind.
#[derive(Debug, PartialEq)]
pub struct AppointmentWithTime {
    pub start_time: DateTime,
    pub end_time: DateTime,
    pub appointment_type: AppointmentType,
    pub patient_id: PatientRecordId,
    pub doctor: u32,
    pub room_nr: u32,
}

impl Clone for AppointmentWithTime {
    fn clone(&self) -> (res: Self)
        ensures
            res == *self,
    {
        AppointmentWithTime {
            start_time: self.start_time,
            end_time: self.end_time,
            appointment_type: self.appointment_type,
            patient_id: self.patient_id.clone(),
            doctor: self.doctor,
            room_nr: self.room_nr,
        }
    }
}

impl Appointment {
    /// Parses the start time and derives the end time from the kind.
    pub fn into_appointment_with_time(self) -> (r: Result<
        AppointmentWithTime,
        AppointmentTimeError,
    >)
        ensures
            match r {
                Ok(a) => {
                    &&& spec_parse_datetime(self.start_time@) == Some(a.start_time)
                    &&& crate::time::spec_add_secs(a.start_time, self.appointment_type.spec_duration())
                        == Some(a.end_time)
                    &&& a.appointment_type == self.appointment_type
                    &&& a.patient_id == self.patient_id
                    &&& a.doctor == self.doctor
                    &&& a.room_nr == self.room_nr
                },
                Err(AppointmentTimeError::MalformedInput) => spec_parse_datetime(
                    self.start_time@,
                ) is None,
                Err(AppointmentTimeError::DateOverflow) => {
                    &&& spec_parse_datetime(self.start_time@) is Some
                    &&& crate::time::spec_add_secs(
                        spec_parse_datetime(self.start_time@)->Some_0,
                        self.appointment_type.spec_duration(),
                    ) is None
                },
            },
    {
        let start_time = match parse_datetime(self.start_time.as_str()) {
            Some(t) => t,
            None => {
                return Err(AppointmentTimeError::MalformedInput);
            },
        };
        let end_time = match start_time.add_secs(self.appointment_type.duration()) {
            Some(t) => t,
            None => {
                return Err(AppointmentTimeError::DateOverflow);
            },
        };
        Ok(
            AppointmentWithTime {
                start_time,
                end_time,
                appointment_type: self.appointment_type,
                patient_id: self.patient_id,
                doctor: self.doctor,
                room_nr: self.room_nr,
            },
        )
    }
}

/// A persisted appointment; `id` is the store-assigned key.
#[derive(Debug, PartialEq)]
pub struct AppointmentRecord {
    pub id: String,
    pub start_time: DateTime,
    pub end_time: DateTime,
    pub appointment_type: AppointmentType,
    pub patient_id: PatientRecordId,
    pub doctor: u32,
    pub room_nr: u32,
}

impl Clone for AppointmentRecord {
    fn clone(&self) -> (res: Self)
        ensures
            res == *self,
    {
        AppointmentRecord {
            id: self.id.clone(),
            start_time: self.start_time,
            end_time: self.end_time,
            appointment_type: self.appointment_type,
            patient_id: self.patient_id.clone(),
            doctor: self.doctor,
            room_nr: self.room_nr,
        }
    }
}

impl AppointmentRecord {
    /// The end time this record's start time and kind imply.
    pub fn calculate_end_time(&self) -> (r: Option<DateTime>)
        requires
            self.start_time.valid(),
        ensures
            r == crate::time::spec_add_secs(
                self.start_time,
                self.appointment_type.spec_duration(),
            ),
    {
        self.start_time.add_secs(self.appointment_type.duration())
    }
}

impl AppointmentRecord {
    /// Applies a partial update: a new start time or kind recomputes the
    /// end time, and a new doctor or room must be inside the configured
    /// range. Fields absent from the update keep their value.
    pub fn apply_update(self, update: &UpdateAppointment, config: &AppConfig) -> (r: Result<
        AppointmentRecord,
        UpdateError,
    >)
        requires
            self.start_time.valid(),
            update.start_time matches Some(t) ==> t.valid(),
        ensures
            ({
                let start = match update.start_time {
                    Some(t) => t,
                    None => self.start_time,
                };
                let kind = match update.appointment_type {
                    Some(k) => k,
                    None => self.appointment_type,
                };
                match r {
                    Ok(rec) => {
                        &&& rec.id == self.id
                        &&& rec.patient_id == self.patient_id
                        &&& rec.start_time == start
                        &&& rec.appointment_type == kind
                        &&& match update.doctor {
                            Some(d) => rec.doctor == d && d < config.doctor_amount,
                            None => rec.doctor == self.doctor,
                        }
                        &&& match update.room_nr {
                            Some(n) => rec.room_nr == n && n < config.room_amount,
                            None => rec.room_nr == self.room_nr,
                        }
                        &&& if update.start_time is Some || update.appointment_type is Some {
                            crate::time::spec_add_secs(start, kind.spec_duration()) == Some(
                                rec.end_time,
                            )
                        } else {
                            rec.end_time == self.end_time
                        }
                    },
                    Err(UpdateError::InvalidDoctor) => update.doctor matches Some(d) && d
                        >= config.doctor_amount,
                    Err(UpdateError::InvalidRoom) => {
                        &&& match update.doctor {
                            Some(d) => d < config.doctor_amount,
                            None => true,
                        }
                        &&& update.room_nr matches Some(n) && n >= config.room_amount
                    },
                    Err(UpdateError::DateOverflow) => {
                        &&& match update.doctor {
                            Some(d) => d < config.doctor_amount,
                            None => true,
                        }
                        &&& match update.room_nr {
                            Some(n) => n < config.room_amount,
                            None => true,
                        }
                        &&& (update.start_time is Some || update.appointment_type is Some)
                        &&& crate::time::spec_add_secs(start, kind.spec_duration()) is None
                    },
                }
            }),
    {
        let start_time = match &update.start_time {
            Some(t) => *t,
            None => self.start_time,
        };
        let appointment_type = match &update.appointment_type {
            Some(k) => *k,
            None => self.appointment_type,
        };
        let doctor = match &update.doctor {
            Some(d) => {
                if !config.is_valid_doctor(*d) {
                    return Err(UpdateError::InvalidDoctor);
                }
                *d
            },
            None => self.doctor,
        };
        let room_nr = match &update.room_nr {
            Some(n) => {
                if !config.is_valid_room(*n) {
                    return Err(UpdateError::InvalidRoom);
                }
                *n
            },
            None => self.room_nr,
        };
        let end_time = if update.start_time.is_some() || update.appointment_type.is_some() {
            match start_time.add_secs(appointment_type.duration()) {
                Some(t) => t,
                None => {
                    return Err(UpdateError::DateOverflow);
                },
            }
        } else {
            self.end_time
        };
        Ok(
            AppointmentRecord {
                id: self.id,
                start_time,
                end_time,
                appointment_type,
                patient_id: self.patient_id,
                doctor,
                room_nr,
            },
        )
    }
}

impl PatientRecord {
    /// Applies a partial update; fields absent from the update keep their
    /// value, and the record's identity never changes.
    pub fn apply_update(self, update: &UpdatePatient) -> (r: PatientRecord)
        ensures
            r.id == self.id,
            r.name == match update.name {
                Some(n) => n,
                None => self.name,
            },
            r.phone_number == match update.phone_number {
                Some(p) => p,
                None => self.phone_number,
            },
            r.insurance_number == match update.insurance_number {
                Some(i) => Some(i),
                None => self.insurance_number,
            },
    {
        PatientRecord {
            id: self.id,
            name: match &update.name {
                Some(n) => n.clone(),
                None => self.name,
            },
            phone_number: match &update.phone_number {
                Some(p) => p.clone(),
                None => self.phone_number,
            },
            insurance_number: match &update.insurance_number {
                Some(i) => Some(i.clone()),
                None => self.insurance_number,
            },
        }
    }
}

/// A persisted appointment joined with its patient's record.
#[derive(Debug, PartialEq)]
pub struct AppointmentRecordWithPatient {
    pub id: String,
    pub start_time: DateTime,
    pub end_time: DateTime,
    pub appointment_type: AppointmentType,
    pub patient: PatientRecord,
    pub doctor: u32,
    pub room_nr: u32,
}

impl Clone for AppointmentRecordWithPatient {
    fn clone(&self) -> (res: Self)
        ensures
            res == *self,
    {
        AppointmentRecordWithPatient {
            id: self.id.clone(),
            start_time: self.start_time,
            end_time: self.end_time,
            appointment_type: self.appointment_type,
            patient: self.patient.clone(),
            doctor: self.doctor,
            room_nr: self.room_nr,
        }
    }
}

impl AppointmentRecordWithPatient {
    /// Joins an appointment record with its patient's record.
    pub fn from_appointment_record(
        appointment_record: AppointmentRecord,
        patient_record: PatientRecord,
    ) -> (r: AppointmentRecordWithPatient)
        ensures
            r.id == appointment_record.id,
            r.start_time == appointment_record.start_time,
            r.end_time == appointment_record.end_time,
            r.appointment_type == appointment_record.appointment_type,
            r.patient == patient_record,
            r.doctor == appointment_record.doctor,
            r.room_nr == appointment_record.room_nr,
    {
        AppointmentRecordWithPatient {
            id: appointment_record.id,
            start_time: appointment_record.start_time,
            end_time: appointment_record.end_time,
            appointment_type: appointment_record.appointment_type,
            patient: patient_record,
            doctor: appointment_record.doctor,
            room_nr: appointment_record.room_nr,
        }
    }

    /// Drops the joined patient, keeping a `patient:{id}` reference.
    pub fn into_appointment_record(self) -> (r: AppointmentRecord)
        ensures
            r.id == self.id,
            r.start_time == self.start_time,
            r.end_time == self.end_time,
            r.appointment_type == self.appointment_type,
            r.patient_id@ == "patient:"@ + self.patient.id@,
            r.doctor == self.doctor,
            r.room_nr == self.room_nr,
    {
        let patient_id = PatientRecordId::new(self.patient.id.as_str());
        AppointmentRecord {
            id: self.id,
            start_time: self.start_time,
            end_time: self.end_time,
            appointment_type: self.appointment_type,
            patient_id,
            doctor: self.doctor,
            room_nr: self.room_nr,
        }
    }
}

/// Path parameter naming an appointment.
#[derive(Debug, PartialEq)]
pub struct AppointmentId {
    pub id: String,
}

/// Path parameter naming a patient.
#[derive(Debug, PartialEq)]
pub struct PatientId {
    pub id: String,
}

/// Partial update of a patient: absent fields keep their value.
#[derive(Debug, PartialEq)]
pub struct UpdatePatient {
    pub name: Option<String>,
    pub phone_number: Option<String>,
    pub insurance_number: Option<String>,
}

/// Partial update of an appointment: absent fields keep their value.
#[derive(Debug, PartialEq)]
pub struct UpdateAppointment {
    pub start_time: Option<DateTime>,
    pub appointment_type: Option<AppointmentType>,
    pub doctor: Option<u32>,
    pub room_nr: Option<u32>,
}

/// Raw filter query parameters as they arrive on the wire.
#[derive(Debug, PartialEq)]
pub struct FilterRequest {
    pub filter: Option<String>,
    pub value: Option<String>,
}

/// A validated listing filter.
#[derive(Debug, PartialEq)]
pub enum AppointmentFilter {
    Month(String),
    Day(String),
    PatientId(PatientRecordId),
    Doctor(u32),
    RoomNr(u32),
}

/// Whether two strings hold the same characters.
fn str_eq(a: &str, b: &str) -> (r: bool)
    ensures
        r == (a@ == b@),
{
    String::from_str(a) == String::from_str(b)
}

impl AppointmentFilter {
    /// Builds a filter from the raw `filter`/`value` query parameters.
    pub fn from_filter_request(filter: &str, value: &str) -> (r: Result<
        AppointmentFilter,
        FilterParseError,
    >)
        ensures
            match r {
                Ok(AppointmentFilter::Month(v)) => filter@ == "month"@ && v@ == value@,
                Ok(AppointmentFilter::Day(v)) => filter@ == "day"@ && v@ == value@,
                Ok(AppointmentFilter::PatientId(p)) => filter@ == "patient_id"@ && p@ == "patient:"@
                    + value@,
                Ok(AppointmentFilter::Doctor(d)) => filter@ == "doctor"@ && spec_parse_u32(value@)
                    == Some(d),
                Ok(AppointmentFilter::RoomNr(n)) => filter@ == "room_nr"@ && spec_parse_u32(value@)
                    == Some(n),
                Err(FilterParseError::InvalidNumber) => (filter@ == "doctor"@ || filter@
                    == "room_nr"@) && spec_parse_u32(value@) is None,
                Err(FilterParseError::UnknownFilter) => filter@ != "month"@ && filter@ != "day"@
                    && filter@ != "patient_id"@ && filter@ != "doctor"@ && filter@ != "room_nr"@,
            },
    {
        if str_eq(filter, "month") {
            Ok(AppointmentFilter::Month(String::from_str(value)))
        } else if str_eq(filter, "day") {
            Ok(AppointmentFilter::Day(String::from_str(value)))
        } else if str_eq(filter, "patient_id") {
            Ok(AppointmentFilter::PatientId(PatientRecordId::new(value)))
        } else if str_eq(filter, "doctor") {
            match parse_u32(value) {
                Some(doctor) => Ok(AppointmentFilter::Doctor(doctor)),
                None => Err(FilterParseError::InvalidNumber),
            }
        } else if str_eq(filter, "room_nr") {
            match parse_u32(value) {
                Some(room_nr) => Ok(AppointmentFilter::RoomNr(room_nr)),
                None => Err(FilterParseError::InvalidNumber),
            }
        } else {
            Err(FilterParseError::UnknownFilter)
        }
    }
}

} // verus!
