//! Mass reschedule: relocating every appointment of a doctor that falls in
//! a leave window to the next admissible day after the window, probing
//! forward day by day.

use vstd::prelude::*;
use crate::config::AppConfig;
use crate::time::{Date, DateTime};
use crate::types::{AppointmentRecordWithPatient, RescheduleError, ValidationError};
use crate::util::{
    conflicts_with,
    during_break,
    has_conflict,
    is_valid_timeframe,
    outside_opening_hours,
    spans_break,
    spec_valid_timeframe,
};

verus! {

/// A mass-reschedule request: move every appointment of `doctor_id` dated
/// inside `[start_date, end_date]` out of that window.
#[derive(Clone, Copy, Debug, PartialEq, Eq, Structural)]
pub struct MassRescheduleRequest {
    pub doctor_id: u32,
    pub start_date: Date,
    pub end_date: Date,
}

/// What a successful run returns: the whole appointment set after the run,
/// and the records that were moved.
#[derive(Debug)]
pub struct RescheduleOutcome {
    pub appointments: Vec<AppointmentRecordWithPatient>,
    pub updated: Vec<AppointmentRecordWithPatient>,
}

/// The appointments a run must move: those of the requested doctor whose
/// start date falls inside the leave window.
pub open spec fn affected(a: AppointmentRecordWithPatient, request: MassRescheduleRequest) -> bool {
    a.doctor == request.doctor_id && request.start_date.spec_le(a.start_time.date)
        && a.start_time.date.spec_le(request.end_date)
}

/// Selects the appointments a run must move.
pub open spec fn affected_pred(request: MassRescheduleRequest) -> spec_fn(
    AppointmentRecordWithPatient,
) -> bool {
    |a: AppointmentRecordWithPatient| affected(a, request)
}

/// How many appointments a run must move.
pub open spec fn affected_count(
    s: Seq<AppointmentRecordWithPatient>,
    request: MassRescheduleRequest,
) -> nat {
    s.filter(affected_pred(request)).len()
}

/// The view of an index list as mathematical integers.
pub open spec fn idx_ints(s: Seq<usize>) -> Seq<int> {
    s.map_values(|u: usize| u as int)
}

/// The day the probe chooses for the given candidate clock times, scanning
/// at most `left` days from `date` on: the first day whose appointments
/// admit the candidate. Scanning ends in `NoSlotFound` when the probes are
/// exhausted and in `DateOverflow` at the calendar's end.
pub open spec fn spec_find_free_day(
    s: Seq<AppointmentRecordWithPatient>,
    start_sec: u32,
    end_sec: u32,
    doctor: u32,
    room_nr: u32,
    date: Date,
    left: u32,
    config: AppConfig,
) -> Result<Date, RescheduleError>
    decreases left,
{
    if spec_valid_timeframe(
        (DateTime { date, sec: start_sec }),
        (DateTime { date, sec: end_sec }),
        doctor,
        room_nr,
        on_day(s, date),
        config,
    ) is Ok {
        Ok(date)
    } else if left <= 1 {
        Err(RescheduleError::NoSlotFound)
    } else {
        match date.spec_next_day() {
            Some(d) => spec_find_free_day(
                s,
                start_sec,
                end_sec,
                doctor,
                room_nr,
                d,
                (left - 1) as u32,
                config,
            ),
            None => Err(RescheduleError::DateOverflow),
        }
    }
}

/// Law: the day the probe chooses is the earliest admissible one. If the
/// probe scanning from `date` succeeds with some day, then every valid day
/// from `date` up to, but not including, that day fails the validator
/// against its own appointments.
pub proof fn lemma_find_free_day_is_earliest(
    s: Seq<AppointmentRecordWithPatient>,
    start_sec: u32,
    end_sec: u32,
    doctor: u32,
    room_nr: u32,
    date: Date,
    left: u32,
    config: AppConfig,
    earlier: Date,
)
    requires
        date.valid(),
        earlier.valid(),
        spec_find_free_day(s, start_sec, end_sec, doctor, room_nr, date, left, config) is Ok,
        date.spec_le(earlier),
        earlier.spec_lt(
            spec_find_free_day(s, start_sec, end_sec, doctor, room_nr, date, left, config)->Ok_0,
        ),
    ensures
        spec_valid_timeframe(
            (DateTime { date: earlier, sec: start_sec }),
            (DateTime { date: earlier, sec: end_sec }),
            doctor,
            room_nr,
            on_day(s, earlier),
            config,
        ) is Err,
    decreases left,
{
    let admissible_here = spec_valid_timeframe(
        (DateTime { date, sec: start_sec }),
        (DateTime { date, sec: end_sec }),
        doctor,
        room_nr,
        on_day(s, date),
        config,
    ) is Ok;
    if admissible_here {
        assert(false);
    } else if earlier != date {
        let next = date.spec_next_day()->Some_0;
        assert(next.valid());
        assert(next.spec_le(earlier));
        lemma_find_free_day_is_earliest(
            s,
            start_sec,
            end_sec,
            doctor,
            room_nr,
            next,
            (left - 1) as u32,
            config,
            earlier,
        );
    }
}

/// The indices at or after `from` of the doctor's appointments starting on
/// one day, in list order.
pub open spec fn indices_on_day_from(
    s: Seq<AppointmentRecordWithPatient>,
    doctor: u32,
    date: Date,
    from: int,
) -> Seq<int>
    decreases s.len() - from when 0 <= from <= s.len()
{
    if from < 0 || from >= s.len() {
        Seq::empty()
    } else if s[from].doctor == doctor && s[from].start_time.date == date {
        seq![from] + indices_on_day_from(s, doctor, date, from + 1)
    } else {
        indices_on_day_from(s, doctor, date, from + 1)
    }
}

/// The affected indices discovered from `cur` to the window's end: by
/// ascending date, then by list order within a day.
pub open spec fn spec_affected_indices_from(
    s: Seq<AppointmentRecordWithPatient>,
    request: MassRescheduleRequest,
    cur: Date,
) -> Seq<int>
    decreases 3720001int - cur.index() when cur.valid()
{
    if !cur.spec_le(request.end_date) {
        Seq::empty()
    } else {
        indices_on_day_from(s, request.doctor_id, cur, 0) + (match cur.spec_next_day() {
            Some(d) => spec_affected_indices_from(s, request, d),
            None => Seq::empty(),
        })
    }
}

/// One reschedule step per affected index, each move committed before the
/// next index is processed: `s` is the evolving appointment set, `idxs`
/// the affected indices still to process, `updated` the moves so far.
pub open spec fn spec_reschedule_from(
    s: Seq<AppointmentRecordWithPatient>,
    idxs: Seq<int>,
    updated: Seq<AppointmentRecordWithPatient>,
    request: MassRescheduleRequest,
    config: AppConfig,
    horizon: u32,
) -> Result<
    (Seq<AppointmentRecordWithPatient>, Seq<AppointmentRecordWithPatient>),
    RescheduleError,
>
    decreases idxs.len(),
{
    if idxs.len() == 0 {
        Ok((s, updated))
    } else {
        let k = idxs[0];
        let orig = s[k];
        match request.end_date.spec_next_day() {
            None => Err(RescheduleError::DateOverflow),
            Some(first) => match spec_find_free_day(
                s,
                orig.start_time.sec,
                orig.end_time.sec,
                orig.doctor,
                orig.room_nr,
                first,
                horizon,
                config,
            ) {
                Err(e) => Err(e),
                Ok(d) => {
                    let moved = AppointmentRecordWithPatient {
                        id: orig.id,
                        start_time: (DateTime { date: d, sec: orig.start_time.sec }),
                        end_time: (DateTime { date: d, sec: orig.end_time.sec }),
                        appointment_type: orig.appointment_type,
                        patient: orig.patient,
                        doctor: orig.doctor,
                        room_nr: orig.room_nr,
                    };
                    spec_reschedule_from(
                        s.update(k, moved),
                        idxs.drop_first(),
                        updated.push(moved),
                        request,
                        config,
                        horizon,
                    )
                },
            },
        }
    }
}

/// What a run computes, as a function of its inputs alone: each affected
/// appointment, in discovery order, moves to the first admissible day the
/// probe finds against the state the earlier moves left behind.
pub open spec fn spec_mass_reschedule(
    s: Seq<AppointmentRecordWithPatient>,
    request: MassRescheduleRequest,
    config: AppConfig,
    horizon: u32,
) -> Result<
    (Seq<AppointmentRecordWithPatient>, Seq<AppointmentRecordWithPatient>),
    RescheduleError,
> {
    spec_reschedule_from(
        s,
        spec_affected_indices_from(s, request, request.start_date),
        Seq::empty(),
        request,
        config,
        horizon,
    )
}

/// The indices of `s` at which a predicate holds.
spec fn index_set<A>(s: Seq<A>, pred: spec_fn(A) -> bool) -> Set<int> {
    Set::new(|i: int| 0 <= i < s.len() && pred(s[i]))
}

/// A filter keeps exactly as many elements as there are indices at which
/// the predicate holds.
proof fn lemma_filter_len_counts_indices<A>(s: Seq<A>, pred: spec_fn(A) -> bool)
    ensures
        index_set(s, pred).finite(),
        s.filter(pred).len() == index_set(s, pred).len(),
    decreases s.len(),
{
    reveal(Seq::filter);
    if s.len() == 0 {
        assert(index_set(s, pred) =~= Set::<int>::empty());
    } else {
        let pre = s.drop_last();
        lemma_filter_len_counts_indices(pre, pred);
        if pred(s.last()) {
            assert(index_set(s, pred) =~= index_set(pre, pred).insert(s.len() - 1));
            assert(!index_set(pre, pred).contains(s.len() - 1));
        } else {
            assert(index_set(s, pred) =~= index_set(pre, pred));
        }
    }
}

/// Selects appointments that start on the given day.
pub open spec fn day_pred(date: Date) -> spec_fn(AppointmentRecordWithPatient) -> bool {
    |a: AppointmentRecordWithPatient| a.start_time.date == date
}

/// The appointments of one day, in list order.
pub open spec fn on_day(s: Seq<AppointmentRecordWithPatient>, date: Date) -> Seq<
    AppointmentRecordWithPatient,
> {
    s.filter(day_pred(date))
}

/// An element with a matching date is found in its day's selection.
proof fn lemma_on_day_contains(s: Seq<AppointmentRecordWithPatient>, date: Date, i: int)
    requires
        0 <= i < s.len(),
        s[i].start_time.date == date,
    ensures
        on_day(s, date).contains(s[i]),
{
    s.lemma_filter_contains(day_pred(date), i);
}

/// Every element of a filtered sequence occurs in the source sequence.
proof fn lemma_filter_elem_in_source<A>(s: Seq<A>, pred: spec_fn(A) -> bool, j: int)
    requires
        0 <= j < s.filter(pred).len(),
    ensures
        exists|i: int| 0 <= i < s.len() && s[i] == s.filter(pred)[j],
    decreases s.len(),
{
    reveal(Seq::filter);
    if s.len() > 0 {
        let pre = s.drop_last();
        if pred(s.last()) && j == s.filter(pred).len() - 1 {
            assert(s[s.len() - 1] == s.filter(pred)[j]);
        } else {
            lemma_filter_elem_in_source(pre, pred, j);
            let i = choose|i: int| 0 <= i < pre.len() && pre[i] == pre.filter(pred)[j];
            assert(s[i] == s.filter(pred)[j]);
        }
    }
}

/// How a moved appointment relates to its original: only the calendar
/// dates of its times have changed, both to one day strictly after the
/// leave window; the clock times and all other fields are untouched.
pub open spec fn moved_ok(
    orig: AppointmentRecordWithPatient,
    now: AppointmentRecordWithPatient,
    request: MassRescheduleRequest,
) -> bool {
    &&& now.id == orig.id
    &&& now.appointment_type == orig.appointment_type
    &&& now.patient == orig.patient
    &&& now.doctor == orig.doctor
    &&& now.room_nr == orig.room_nr
    &&& now.start_time.sec == orig.start_time.sec
    &&& now.end_time.sec == orig.end_time.sec
    &&& now.end_time.date == now.start_time.date
    &&& request.end_date.spec_lt(now.start_time.date)
    &&& now.start_time.date.valid()
}

/// The appointment at index `k` passes every validator check against all
/// other appointments that share its day in `s`.
pub open spec fn valid_at(s: Seq<AppointmentRecordWithPatient>, k: int, config: AppConfig) -> bool {
    &&& !outside_opening_hours(s[k].start_time, s[k].end_time, config)
    &&& !during_break(s[k].start_time, s[k].end_time, config)
    &&& !spans_break(s[k].start_time, s[k].end_time, config)
    &&& forall|i: int|
        0 <= i < s.len() && i != k && (#[trigger] s[i]).start_time.date == s[k].start_time.date
            ==> !conflicts_with(s[k].start_time, s[k].end_time, s[k].doctor, s[k].room_nr, s[i])
}

/// Law: an appointment that is `valid_at` its index passes the timeframe
/// validator against the other appointments of its day — the final
/// committed set once a run is over.
pub proof fn lemma_valid_at_passes_validator(
    s: Seq<AppointmentRecordWithPatient>,
    k: int,
    config: AppConfig,
)
    requires
        0 <= k < s.len(),
        valid_at(s, k, config),
    ensures
        spec_valid_timeframe(
            s[k].start_time,
            s[k].end_time,
            s[k].doctor,
            s[k].room_nr,
            on_day(s.remove(k), s[k].start_time.date),
            config,
        ) == Ok::<(), ValidationError>(()),
{
    let date = s[k].start_time.date;
    let rest = s.remove(k);
    let t = on_day(rest, date);
    let pred = day_pred(date);
    s.remove_ensures(k);
    assert forall|j: int| 0 <= j < t.len() implies !conflicts_with(
        s[k].start_time,
        s[k].end_time,
        s[k].doctor,
        s[k].room_nr,
        t[j],
    ) by {
        rest.lemma_filter_pred(pred, j);
        lemma_filter_elem_in_source(rest, pred, j);
        let m = choose|m: int| 0 <= m < rest.len() && rest[m] == t[j];
        if m < k {
            assert(rest[m] == s[m]);
        } else {
            assert(rest[m] == s[m + 1]);
        }
    };
    assert(!has_conflict(s[k].start_time, s[k].end_time, s[k].doctor, s[k].room_nr, t));
}

/// Selects, in list order, the appointments starting on the given day.
#[verifier::loop_isolation(false)]
pub fn appointments_on_day(
    appointments: &Vec<AppointmentRecordWithPatient>,
    date: Date,
) -> (r: Vec<AppointmentRecordWithPatient>)
    ensures
        r@ == on_day(appointments@, date),
{
    let ghost pred = day_pred(date);
    let mut selected: Vec<AppointmentRecordWithPatient> = Vec::new();
    let mut i: usize = 0;
    proof {
        assert(appointments@.subrange(0, 0) =~= Seq::<AppointmentRecordWithPatient>::empty());
        reveal(Seq::filter);
    }
    while i < appointments.len()
        invariant
            0 <= i <= appointments@.len(),
            selected@ == appointments@.subrange(0, i as int).filter(pred),
        decreases appointments@.len() - i,
    {
        proof {
            reveal(Seq::filter);
            let pre = appointments@.subrange(0, i as int);
            let cur = appointments@.subrange(0, i + 1);
            assert(cur.drop_last() =~= pre);
            assert(cur.last() == appointments@[i as int]);
        }
        if appointments[i].start_time.date == date {
            selected.push(appointments[i].clone());
        }
        i = i + 1;
    }
    proof {
        assert(appointments@.subrange(0, appointments@.len() as int) =~= appointments@);
    }
    selected
}

/// Some position of `s` holds the index `i`.
pub open spec fn contains_idx(s: Seq<usize>, i: int) -> bool {
    exists|t: int| 0 <= t < s.len() && s[t] == i
}

/// Collects the indices of the affected appointments, in discovery order:
/// by ascending leave-window date, then by list order within a day.
fn collect_affected(
    appointments: &Vec<AppointmentRecordWithPatient>,
    request: &MassRescheduleRequest,
) -> (r: Vec<usize>)
    requires
        request.start_date.valid(),
        request.end_date.valid(),
        forall|i: int|
            0 <= i < appointments@.len() ==> (#[trigger] appointments@[i]).start_time.valid(),
    ensures
        idx_ints(r@) == spec_affected_indices_from(appointments@, *request, request.start_date),
        forall|t: int|
            0 <= t < r@.len() ==> #[trigger] r@[t] < appointments@.len() && affected(
                appointments@[r@[t] as int],
                *request,
            ),
        forall|a: int, b: int| 0 <= a < b < r@.len() ==> r@[a] != r@[b],
        forall|i: int|
            0 <= i < appointments@.len() && affected(#[trigger] appointments@[i], *request)
                ==> contains_idx(r@, i),
{
    let mut affected_idx: Vec<usize> = Vec::new();
    let mut cur = request.start_date;
    while cur.le(request.end_date)
        invariant_except_break
            request.start_date.valid(),
            request.end_date.valid(),
            forall|i: int|
                0 <= i < appointments@.len() ==> (#[trigger] appointments@[i]).start_time.valid(),
            cur.valid(),
            request.start_date.spec_le(cur),
            spec_affected_indices_from(appointments@, *request, request.start_date) == idx_ints(
                affected_idx@,
            ) + spec_affected_indices_from(appointments@, *request, cur),
            forall|t: int|
                0 <= t < affected_idx@.len() ==> #[trigger] affected_idx@[t] < appointments@.len()
                    && affected(appointments@[affected_idx@[t] as int], *request)
                    && appointments@[affected_idx@[t] as int].start_time.date.spec_lt(cur),
            forall|a: int, b: int|
                0 <= a < b < affected_idx@.len() ==> affected_idx@[a] != affected_idx@[b],
            forall|i: int|
                0 <= i < appointments@.len() && affected(#[trigger] appointments@[i], *request)
                    && appointments@[i].start_time.date.spec_lt(cur) ==> contains_idx(
                    affected_idx@,
                    i,
                ),
        ensures
            idx_ints(affected_idx@) == spec_affected_indices_from(
                appointments@,
                *request,
                request.start_date,
            ),
            forall|t: int|
                0 <= t < affected_idx@.len() ==> #[trigger] affected_idx@[t]
                    < appointments@.len() && affected(
                    appointments@[affected_idx@[t] as int],
                    *request,
                ),
            forall|a: int, b: int|
                0 <= a < b < affected_idx@.len() ==> affected_idx@[a] != affected_idx@[b],
            forall|i: int|
                0 <= i < appointments@.len() && affected(#[trigger] appointments@[i], *request)
                    ==> contains_idx(affected_idx@, i),
        decreases 3720000int - cur.index(),
    {
        let ghost prev_idx = affected_idx@;
        let mut i: usize = 0;
        while i < appointments.len()
            invariant
                0 <= i <= appointments@.len(),
                request.start_date.spec_le(cur),
                cur.spec_le(request.end_date),
                idx_ints(prev_idx) + indices_on_day_from(
                    appointments@,
                    request.doctor_id,
                    cur,
                    0,
                ) == idx_ints(affected_idx@) + indices_on_day_from(
                    appointments@,
                    request.doctor_id,
                    cur,
                    i as int,
                ),
                forall|t: int|
                    0 <= t < affected_idx@.len() ==> #[trigger] affected_idx@[t]
                        < appointments@.len() && affected(
                        appointments@[affected_idx@[t] as int],
                        *request,
                    ) && (appointments@[affected_idx@[t] as int].start_time.date.spec_lt(cur) || (
                    appointments@[affected_idx@[t] as int].start_time.date == cur
                        && affected_idx@[t] < i)),
                forall|a: int, b: int|
                    0 <= a < b < affected_idx@.len() ==> affected_idx@[a] != affected_idx@[b],
                forall|j: int|
                    0 <= j < appointments@.len() && affected(#[trigger] appointments@[j], *request)
                        && (appointments@[j].start_time.date.spec_lt(cur) || (
                    appointments@[j].start_time.date == cur && j < i)) ==> contains_idx(
                        affected_idx@,
                        j,
                    ),
            decreases appointments@.len() - i,
        {
            let ghost before = affected_idx@;
            if appointments[i].doctor == request.doctor_id && appointments[i].start_time.date
                == cur {
                affected_idx.push(i);
                proof {
                    assert(affected_idx@[affected_idx@.len() - 1] == i);
                    assert forall|j: int| contains_idx(before, j) implies contains_idx(
                        affected_idx@,
                        j,
                    ) by {
                        let t = choose|t: int| 0 <= t < before.len() && before[t] == j;
                        assert(affected_idx@[t] == j);
                    }
                    let day_rest = indices_on_day_from(
                        appointments@,
                        request.doctor_id,
                        cur,
                        i + 1,
                    );
                    assert(indices_on_day_from(appointments@, request.doctor_id, cur, i as int)
                        == seq![i as int] + day_rest);
                    assert(idx_ints(affected_idx@) =~= idx_ints(before).push(i as int));
                    assert(idx_ints(before) + (seq![i as int] + day_rest) =~= idx_ints(
                        affected_idx@,
                    ) + day_rest);
                }
            }
            i = i + 1;
        }
        proof {
            let day = indices_on_day_from(appointments@, request.doctor_id, cur, 0);
            assert(indices_on_day_from(
                appointments@,
                request.doctor_id,
                cur,
                appointments@.len() as int,
            ) =~= Seq::<int>::empty());
            assert(idx_ints(prev_idx) + day =~= idx_ints(affected_idx@));
        }
        match cur.next_day() {
            Some(d) => {
                proof {
                    assert forall|j: int|
                        0 <= j < appointments@.len() && affected(appointments@[j], *request)
                            && appointments@[j].start_time.date.spec_lt(d) implies contains_idx(
                        affected_idx@,
                        j,
                    ) by {
                        let jd = appointments@[j].start_time.date;
                        if jd != cur && !jd.spec_lt(cur) {
                            assert(cur.spec_lt(jd));
                            assert(d.spec_le(jd));
                            assert(false);
                        }
                    }
                    let day = indices_on_day_from(appointments@, request.doctor_id, cur, 0);
                    let tail = spec_affected_indices_from(appointments@, *request, d);
                    assert(spec_affected_indices_from(appointments@, *request, cur) == day + tail);
                    assert(idx_ints(prev_idx) + (day + tail) =~= idx_ints(affected_idx@) + tail);
                }
                cur = d;
            },
            None => {
                proof {
                    assert forall|j: int|
                        0 <= j < appointments@.len() && affected(appointments@[j], *request) implies
                        contains_idx(affected_idx@, j) by {
                        let jd = appointments@[j].start_time.date;
                        assert(jd.spec_le(request.end_date));
                        assert(request.end_date.spec_le(cur) || cur.spec_lt(request.end_date));
                        assert(jd.spec_lt(cur) || jd == cur);
                    }
                    let day = indices_on_day_from(appointments@, request.doctor_id, cur, 0);
                    assert(spec_affected_indices_from(appointments@, *request, cur) == day
                        + Seq::<int>::empty());
                    assert(idx_ints(prev_idx) + (day + Seq::<int>::empty()) =~= idx_ints(
                        affected_idx@,
                    ));
                }
                break ;
            },
        }
    }
    affected_idx
}

/// Some position before `j` in `s` holds the index `i`.
pub open spec fn idx_in_prefix(s: Seq<usize>, j: int, i: int) -> bool {
    exists|t: int| 0 <= t < j && t < s.len() && (#[trigger] s[t]) == i
}

/// The value `v` is the final form of some affected appointment.
pub open spec fn is_moved_record(
    orig: Seq<AppointmentRecordWithPatient>,
    fin: Seq<AppointmentRecordWithPatient>,
    request: MassRescheduleRequest,
    v: AppointmentRecordWithPatient,
) -> bool {
    exists|i: int| 0 <= i < orig.len() && #[trigger] affected(orig[i], request) && v == fin[i]
}

/// The value `v` occurs in the updated list.
pub open spec fn appears_in(upd: Seq<AppointmentRecordWithPatient>, v: AppointmentRecordWithPatient) -> bool {
    exists|t: int| 0 <= t < upd.len() && (#[trigger] upd[t]) == v
}

/// Probes forward from the day after the leave window, at most `horizon`
/// days, for the first day where the candidate clock times pass the
/// validator against that day's appointments. `DateOverflow` reports
/// probing past the calendar's end, `NoSlotFound` an exhausted horizon.
#[verifier::loop_isolation(false)]
fn find_free_day(
    appointments: &Vec<AppointmentRecordWithPatient>,
    start_sec: u32,
    end_sec: u32,
    doctor: u32,
    room_nr: u32,
    end_date: Date,
    config: &AppConfig,
    horizon: u32,
) -> (r: Result<Date, RescheduleError>)
    requires
        end_date.valid(),
        config.valid(),
        horizon >= 1,
    ensures
        r == match end_date.spec_next_day() {
            Some(first) => spec_find_free_day(
                appointments@,
                start_sec,
                end_sec,
                doctor,
                room_nr,
                first,
                horizon,
                *config,
            ),
            None => Err::<Date, RescheduleError>(RescheduleError::DateOverflow),
        },
        match r {
            Ok(d) => {
                &&& d.valid()
                &&& end_date.spec_lt(d)
                &&& spec_valid_timeframe(
                    (DateTime { date: d, sec: start_sec }),
                    (DateTime { date: d, sec: end_sec }),
                    doctor,
                    room_nr,
                    on_day(appointments@, d),
                    *config,
                ) == Ok::<(), ValidationError>(())
                &&& forall|earlier: Date|
                    earlier.valid() && end_date.spec_lt(earlier) && earlier.spec_lt(d)
                        ==> spec_valid_timeframe(
                        (DateTime { date: earlier, sec: start_sec }),
                        (DateTime { date: earlier, sec: end_sec }),
                        doctor,
                        room_nr,
                        on_day(appointments@, earlier),
                        *config,
                    ) is Err
            },
            Err(_) => true,
        },
{
    let first = match end_date.next_day() {
        Some(d) => d,
        None => {
            return Err(RescheduleError::DateOverflow);
        },
    };
    let mut date = first;
    let mut probes: u32 = 1;
    loop
        invariant
            date.valid(),
            end_date.spec_lt(date),
            1 <= probes <= horizon,
            spec_find_free_day(
                appointments@,
                start_sec,
                end_sec,
                doctor,
                room_nr,
                first,
                horizon,
                *config,
            ) == spec_find_free_day(
                appointments@,
                start_sec,
                end_sec,
                doctor,
                room_nr,
                date,
                (horizon - probes + 1) as u32,
                *config,
            ),
            forall|earlier: Date|
                earlier.valid() && end_date.spec_lt(earlier) && earlier.spec_lt(date)
                    ==> spec_valid_timeframe(
                    (DateTime { date: earlier, sec: start_sec }),
                    (DateTime { date: earlier, sec: end_sec }),
                    doctor,
                    room_nr,
                    on_day(appointments@, earlier),
                    *config,
                ) is Err,
        decreases horizon - probes,
    {
        let day_set = appointments_on_day(appointments, date);
        let candidate_start = DateTime { date, sec: start_sec };
        let candidate_end = DateTime { date, sec: end_sec };
        if is_valid_timeframe(
            candidate_start,
            candidate_end,
            doctor,
            room_nr,
            &day_set,
            config,
        ).is_ok() {
            return Ok(date);
        }
        if probes >= horizon {
            return Err(RescheduleError::NoSlotFound);
        }
        date = match date.next_day() {
            Some(d) => d,
            None => {
                return Err(RescheduleError::DateOverflow);
            },
        };
        probes = probes + 1;
    }
}

/// Moves every appointment of `request.doctor_id` dated inside the leave
/// window `[request.start_date, request.end_date]` to the first day
/// strictly after the window — probing at most `horizon` days — on which
/// it passes the validator against that day's appointments, committing
/// each move before the next appointment is processed. Clock times are
/// never changed, only calendar dates.
///
/// The result equals `spec_mass_reschedule` exactly, in the error cases
/// too: the run fails only as that model fails, and succeeds with
/// precisely the state and updated list it computes — each affected
/// appointment, in discovery order, on the first admissible day the probe
/// finds (see `lemma_find_free_day_is_earliest`) against the state the
/// earlier moves left behind.
///
/// The remaining clauses restate the outcome record by record: every
/// affected appointment ends dated strictly after the window, keeps its
/// clock times, and passes the validator against the other appointments
/// of its day in the final set; everything else is untouched; `updated`
/// holds one record per affected appointment. On error, nothing is
/// returned and the caller persists nothing.
#[verifier::loop_isolation(false)]
#[verifier::rlimit(100)]
pub fn mass_reschedule_doctor(
    appointments: Vec<AppointmentRecordWithPatient>,
    request: &MassRescheduleRequest,
    config: &AppConfig,
    horizon: u32,
) -> (r: Result<RescheduleOutcome, RescheduleError>)
    requires
        request.start_date.valid(),
        request.end_date.valid(),
        config.valid(),
        horizon >= 1,
        forall|i: int|
            0 <= i < appointments@.len() ==> (#[trigger] appointments@[i]).start_time.valid()
                && appointments@[i].end_time.valid(),
    ensures
        match r {
            Ok(out) => {
                &&& spec_mass_reschedule(appointments@, *request, *config, horizon) == Ok::<
                    (Seq<AppointmentRecordWithPatient>, Seq<AppointmentRecordWithPatient>),
                    RescheduleError,
                >((out.appointments@, out.updated@))
                &&& out.appointments@.len() == appointments@.len()
                &&& forall|i: int|
                    0 <= i < appointments@.len() && !affected(
                        #[trigger] appointments@[i],
                        *request,
                    ) ==> out.appointments@[i] == appointments@[i]
                &&& forall|i: int|
                    0 <= i < appointments@.len() && affected(#[trigger] appointments@[i], *request)
                        ==> moved_ok(appointments@[i], out.appointments@[i], *request) && valid_at(
                        out.appointments@,
                        i,
                        *config,
                    )
                &&& out.updated@.len() == affected_count(appointments@, *request)
                &&& forall|t: int|
                    0 <= t < out.updated@.len() ==> is_moved_record(
                        appointments@,
                        out.appointments@,
                        *request,
                        #[trigger] out.updated@[t],
                    )
                &&& forall|i: int|
                    0 <= i < appointments@.len() && affected(#[trigger] appointments@[i], *request)
                        ==> appears_in(out.updated@, out.appointments@[i])
            },
            Err(e) => {
                &&& spec_mass_reschedule(appointments@, *request, *config, horizon) == Err::<
                    (Seq<AppointmentRecordWithPatient>, Seq<AppointmentRecordWithPatient>),
                    RescheduleError,
                >(e)
                &&& exists|i: int|
                    0 <= i < appointments@.len() && #[trigger] affected(appointments@[i], *request)
            },
        },
{
    let ghost input = appointments@;
    let mut state = appointments;
    let aff = collect_affected(&state, request);
    let ghost aff_ints = idx_ints(aff@);
    let mut updated: Vec<AppointmentRecordWithPatient> = Vec::new();
    let mut j: usize = 0;
    proof {
        assert(aff_ints.skip(0) =~= aff_ints);
    }
    while j < aff.len()
        invariant
            state@.len() == input.len(),
            spec_mass_reschedule(input, *request, *config, horizon) == spec_reschedule_from(
                state@,
                aff_ints.skip(j as int),
                updated@,
                *request,
                *config,
                horizon,
            ),
            0 <= j <= aff@.len(),
            updated@.len() == j,
            forall|i: int|
                0 <= i < input.len() && !idx_in_prefix(aff@, j as int, i) ==> state@[i]
                    == input[i],
            forall|t: int|
                0 <= t < j ==> moved_ok(
                    input[#[trigger] aff@[t] as int],
                    state@[aff@[t] as int],
                    *request,
                ) && valid_at(state@, aff@[t] as int, *config),
            forall|t: int| 0 <= t < j ==> (#[trigger] updated@[t]) == state@[aff@[t] as int],
        decreases aff@.len() - j,
    {
        let k = aff[j];
        proof {
            assert(!idx_in_prefix(aff@, j as int, k as int)) by {
                if idx_in_prefix(aff@, j as int, k as int) {
                    let t = choose|t: int|
                        0 <= t < j && t < aff@.len() && (#[trigger] aff@[t]) == k as int;
                    assert(aff@[t] != aff@[j as int]);
                }
            }
            assert(state@[k as int] == input[k as int]);
        }
        let orig_start = state[k].start_time;
        let orig_end = state[k].end_time;
        let doctor = state[k].doctor;
        let room_nr = state[k].room_nr;
        let date = match find_free_day(
            &state,
            orig_start.sec,
            orig_end.sec,
            doctor,
            room_nr,
            request.end_date,
            config,
            horizon,
        ) {
            Ok(d) => d,
            Err(e) => {
                proof {
                    assert(affected(appointments@[k as int], *request));
                    let tail = aff_ints.skip(j as int);
                    assert(tail[0] == k as int);
                    assert(spec_reschedule_from(state@, tail, updated@, *request, *config, horizon)
                        == Err::<
                        (Seq<AppointmentRecordWithPatient>, Seq<AppointmentRecordWithPatient>),
                        RescheduleError,
                    >(e));
                }
                return Err(e);
            },
        };
        let ghost pre = state@;
        let candidate_start = DateTime { date, sec: orig_start.sec };
        let candidate_end = DateTime { date, sec: orig_end.sec };
        let mut new_rec = state[k].clone();
        new_rec.start_time = candidate_start;
        new_rec.end_time = candidate_end;
        let ghost nr = new_rec;
        let ghost updated_pre = updated@;
        updated.push(new_rec.clone());
        state[k] = new_rec;
        proof {
            let ki = k as int;
            assert(state@ == pre.update(ki, nr));
            let tail = aff_ints.skip(j as int);
            assert(tail[0] == ki);
            assert(tail.drop_first() =~= aff_ints.skip(j + 1));
            assert(updated@ == updated_pre.push(nr));
            assert(nr == (AppointmentRecordWithPatient {
                id: pre[ki].id,
                start_time: (DateTime { date, sec: pre[ki].start_time.sec }),
                end_time: (DateTime { date, sec: pre[ki].end_time.sec }),
                appointment_type: pre[ki].appointment_type,
                patient: pre[ki].patient,
                doctor: pre[ki].doctor,
                room_nr: pre[ki].room_nr,
            }));
            assert(spec_reschedule_from(pre, tail, updated_pre, *request, *config, horizon)
                == spec_reschedule_from(
                state@,
                aff_ints.skip(j + 1),
                updated@,
                *request,
                *config,
                horizon,
            ));
            assert forall|i: int|
                0 <= i < pre.len() && pre[i].start_time.date == date implies !conflicts_with(
                candidate_start,
                candidate_end,
                doctor,
                room_nr,
                pre[i],
            ) by {
                lemma_on_day_contains(pre, date, i);
                let m = choose|m: int|
                    0 <= m < on_day(pre, date).len() && on_day(pre, date)[m] == pre[i];
                assert(!conflicts_with(
                    candidate_start,
                    candidate_end,
                    doctor,
                    room_nr,
                    on_day(pre, date)[m],
                ));
            }
            assert forall|t: int| 0 <= t < j + 1 implies moved_ok(
                input[#[trigger] aff@[t] as int],
                state@[aff@[t] as int],
                *request,
            ) && valid_at(state@, aff@[t] as int, *config) by {
                let kt = aff@[t] as int;
                if t < j {
                    assert(aff@[t] != aff@[j as int]);
                    assert(state@[kt] == pre[kt]);
                    assert(valid_at(pre, kt, *config));
                    assert forall|i: int|
                        0 <= i < state@.len() && i != kt && (
                        #[trigger] state@[i]).start_time.date == state@[kt].start_time.date implies
                        !conflicts_with(
                        state@[kt].start_time,
                        state@[kt].end_time,
                        state@[kt].doctor,
                        state@[kt].room_nr,
                        state@[i],
                    ) by {
                        if i == ki {
                            assert(pre[kt].start_time.date == date);
                            assert(!conflicts_with(
                                candidate_start,
                                candidate_end,
                                doctor,
                                room_nr,
                                pre[kt],
                            ));
                        } else {
                            assert(state@[i] == pre[i]);
                        }
                    }
                } else {
                    assert(kt == ki);
                    assert forall|i: int|
                        0 <= i < state@.len() && i != ki && (
                        #[trigger] state@[i]).start_time.date == state@[ki].start_time.date implies
                        !conflicts_with(
                        state@[ki].start_time,
                        state@[ki].end_time,
                        state@[ki].doctor,
                        state@[ki].room_nr,
                        state@[i],
                    ) by {
                        assert(state@[i] == pre[i]);
                    }
                }
            }
        }
        j = j + 1;
    }
    proof {
        assert forall|i: int|
            0 <= i < input.len() && !affected(#[trigger] input[i], *request) implies state@[i]
            == input[i] by {
            if idx_in_prefix(aff@, aff@.len() as int, i) {
                let t = choose|t: int| 0 <= t < aff@.len() && (#[trigger] aff@[t]) == i;
                assert(affected(input[aff@[t] as int], *request));
            }
        }
        assert forall|i: int|
            0 <= i < input.len() && affected(#[trigger] input[i], *request) implies moved_ok(
            input[i],
            state@[i],
            *request,
        ) && valid_at(state@, i, *config) && appears_in(updated@, state@[i]) by {
            assert(contains_idx(aff@, i));
            let t = choose|t: int| 0 <= t < aff@.len() && (#[trigger] aff@[t]) == i;
            assert(moved_ok(input[aff@[t] as int], state@[aff@[t] as int], *request));
            assert(updated@[t] == state@[i]);
        }
        assert forall|t: int| 0 <= t < updated@.len() implies is_moved_record(
            input,
            state@,
            *request,
            updated@[t],
        ) by {
            let i = aff@[t] as int;
            assert(aff@[t] < input.len());
            assert(affected(input[i], *request));
            assert(updated@[t] == state@[i]);
        }
        assert(aff_ints.skip(aff@.len() as int) =~= Seq::<int>::empty());
        assert(spec_mass_reschedule(input, *request, *config, horizon) == Ok::<
            (Seq<AppointmentRecordWithPatient>, Seq<AppointmentRecordWithPatient>),
            RescheduleError,
        >((state@, updated@)));
        let afp = affected_pred(*request);
        lemma_filter_len_counts_indices(input, afp);
        let aff_int = aff@.map_values(|u: usize| u as int);
        assert forall|a: int, b: int|
            0 <= a < aff_int.len() && 0 <= b < aff_int.len() && a != b implies aff_int[a]
            != aff_int[b] by {
            if a < b {
                assert(aff@[a] != aff@[b]);
            } else {
                assert(aff@[b] != aff@[a]);
            }
        }
        aff_int.unique_seq_to_set();
        assert forall|x: int| aff_int.to_set().contains(x) implies index_set(input, afp).contains(
            x,
        ) by {
            let t = choose|t: int| 0 <= t < aff_int.len() && aff_int[t] == x;
            assert(aff@[t] < input.len());
            assert(affected(input[aff@[t] as int], *request));
        }
        assert forall|x: int| index_set(input, afp).contains(x) implies aff_int.to_set().contains(
            x,
        ) by {
            assert(affected(input[x], *request));
            assert(contains_idx(aff@, x));
            let t = choose|t: int| 0 <= t < aff@.len() && aff@[t] == x;
            assert(aff_int[t] == x);
            assert(aff_int.contains(x));
        }
        assert(aff_int.to_set() =~= index_set(input, afp));
        assert(updated@.len() == affected_count(input, *request));
    }
    Ok(RescheduleOutcome { appointments: state, updated })
}

} // verus!
