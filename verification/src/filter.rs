//! Listing filters: resolving the wire-level `AppointmentFilter` into typed
//! form and applying it to an appointment list.

use vstd::prelude::*;
use crate::parse::{spec_parse_date, parse_date, spec_parse_month, parse_month};
use crate::time::Date;
use crate::types::{
    AppointmentFilter,
    AppointmentRecordWithPatient,
    FilterFormatError,
    PatientRecordId,
};

verus! {

/// A filter with its date or month string already parsed.
#[derive(Debug)]
pub enum ParsedFilter {
    Month(u32, u32),
    Day(Date),
    PatientId(PatientRecordId),
    Doctor(u32),
    RoomNr(u32),
}

/// Whether an appointment is selected by a parsed filter.
pub open spec fn spec_matches(a: AppointmentRecordWithPatient, f: ParsedFilter) -> bool {
    match f {
        ParsedFilter::Month(year, month) => a.start_time.date.year == year
            && a.start_time.date.month == month,
        ParsedFilter::Day(d) => a.start_time.date == d,
        ParsedFilter::PatientId(p) => p@ == "patient:"@ + a.patient.id@,
        ParsedFilter::Doctor(d) => a.doctor == d,
        ParsedFilter::RoomNr(n) => a.room_nr == n,
    }
}

/// How a wire-level filter resolves: its `Day`/`Month` string is parsed
/// strictly, everything else is carried over.
pub open spec fn spec_resolve(f: AppointmentFilter) -> Result<ParsedFilter, FilterFormatError> {
    match f {
        AppointmentFilter::Month(s) => match spec_parse_month(s@) {
            Some(ym) => Ok(ParsedFilter::Month(ym.0, ym.1)),
            None => Err(FilterFormatError::InvalidMonthFormat),
        },
        AppointmentFilter::Day(s) => match spec_parse_date(s@) {
            Some(d) => Ok(ParsedFilter::Day(d)),
            None => Err(FilterFormatError::InvalidDayFormat),
        },
        AppointmentFilter::PatientId(p) => Ok(ParsedFilter::PatientId(p)),
        AppointmentFilter::Doctor(d) => Ok(ParsedFilter::Doctor(d)),
        AppointmentFilter::RoomNr(n) => Ok(ParsedFilter::RoomNr(n)),
    }
}

/// Parses the date or month string carried by a filter.
pub fn resolve_filter(filter: &AppointmentFilter) -> (r: Result<ParsedFilter, FilterFormatError>)
    ensures
        r == spec_resolve(*filter),
{
    match filter {
        AppointmentFilter::Month(s) => match parse_month(s.as_str()) {
            Some(ym) => Ok(ParsedFilter::Month(ym.0, ym.1)),
            None => Err(FilterFormatError::InvalidMonthFormat),
        },
        AppointmentFilter::Day(s) => match parse_date(s.as_str()) {
            Some(d) => Ok(ParsedFilter::Day(d)),
            None => Err(FilterFormatError::InvalidDayFormat),
        },
        AppointmentFilter::PatientId(p) => Ok(ParsedFilter::PatientId(p.clone())),
        AppointmentFilter::Doctor(d) => Ok(ParsedFilter::Doctor(*d)),
        AppointmentFilter::RoomNr(n) => Ok(ParsedFilter::RoomNr(*n)),
    }
}

/// Whether an appointment is selected by a parsed filter.
pub fn matches_filter(a: &AppointmentRecordWithPatient, f: &ParsedFilter) -> (r: bool)
    ensures
        r == spec_matches(*a, *f),
{
    match f {
        ParsedFilter::Month(year, month) => a.start_time.date.year == *year
            && a.start_time.date.month == *month,
        ParsedFilter::Day(d) => a.start_time.date == *d,
        ParsedFilter::PatientId(p) => PatientRecordId::new(a.patient.id.as_str()).eq_id(p),
        ParsedFilter::Doctor(d) => a.doctor == *d,
        ParsedFilter::RoomNr(n) => a.room_nr == *n,
    }
}

/// Selects, in order, the appointments a parsed filter matches.
#[verifier::loop_isolation(false)]
pub fn select_appointments(
    appointments: &Vec<AppointmentRecordWithPatient>,
    f: &ParsedFilter,
) -> (r: Vec<AppointmentRecordWithPatient>)
    ensures
        r@ == appointments@.filter(
            (|a: AppointmentRecordWithPatient| spec_matches(a, *f)),
        ),
{
    let ghost pred = (|a: AppointmentRecordWithPatient| spec_matches(a, *f));
    let mut selected: Vec<AppointmentRecordWithPatient> = Vec::new();
    let mut i: usize = 0;
    proof {
        assert(appointments@.subrange(0, 0) =~= Seq::<AppointmentRecordWithPatient>::empty());
        reveal(Seq::filter);
    }
    while i < appointments.len()
        invariant
            0 <= i <= appointments@.len(),
            selected@ == appointments@.subrange(0, i as int).filter(pred),
        decreases appointments@.len() - i,
    {
        proof {
            reveal(Seq::filter);
            let pre = appointments@.subrange(0, i as int);
            let cur = appointments@.subrange(0, i + 1);
            assert(cur.drop_last() =~= pre);
            assert(cur.last() == appointments@[i as int]);
        }
        if matches_filter(&appointments[i], f) {
            selected.push(appointments[i].clone());
        }
        i = i + 1;
    }
    proof {
        assert(appointments@.subrange(0, appointments@.len() as int) =~= appointments@);
    }
    selected
}

/// Applies a wire-level filter: strict date parsing, then selection.
pub fn filter_appointments(
    appointments: &Vec<AppointmentRecordWithPatient>,
    filter: &AppointmentFilter,
) -> (r: Result<Vec<AppointmentRecordWithPatient>, FilterFormatError>)
    ensures
        match r {
            Ok(v) => spec_resolve(*filter) is Ok && v@ == appointments@.filter(
                (|a: AppointmentRecordWithPatient| spec_matches(a, spec_resolve(*filter)->Ok_0)),
            ),
            Err(e) => spec_resolve(*filter) == Err::<ParsedFilter, FilterFormatError>(e),
        },
{
    match resolve_filter(filter) {
        Ok(parsed) => Ok(select_appointments(appointments, &parsed)),
        Err(e) => Err(e),
    }
}

/// The list without the appointment of a given id — the record under
/// update, excluded by identity.
#[verifier::loop_isolation(false)]
pub fn appointments_excluding(
    appointments: &Vec<AppointmentRecordWithPatient>,
    id: &String,
) -> (r: Vec<AppointmentRecordWithPatient>)
    ensures
        r@ == appointments@.filter((|a: AppointmentRecordWithPatient| a.id@ != id@)),
{
    let ghost pred = (|a: AppointmentRecordWithPatient| a.id@ != id@);
    let mut kept: Vec<AppointmentRecordWithPatient> = Vec::new();
    let mut i: usize = 0;
    proof {
        assert(appointments@.subrange(0, 0) =~= Seq::<AppointmentRecordWithPatient>::empty());
        reveal(Seq::filter);
    }
    while i < appointments.len()
        invariant
            0 <= i <= appointments@.len(),
            kept@ == appointments@.subrange(0, i as int).filter(pred),
        decreases appointments@.len() - i,
    {
        proof {
            reveal(Seq::filter);
            let pre = appointments@.subrange(0, i as int);
            let cur = appointments@.subrange(0, i + 1);
            assert(cur.drop_last() =~= pre);
            assert(cur.last() == appointments@[i as int]);
        }
        if !(appointments[i].id == *id) {
            kept.push(appointments[i].clone());
        }
        i = i + 1;
    }
    proof {
        assert(appointments@.subrange(0, appointments@.len() as int) =~= appointments@);
    }
    kept
}

} // verus!
