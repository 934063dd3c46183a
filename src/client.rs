use vstd::prelude::*;
use std::collections::BTreeMap;
use crate::date::{ClockTime, clock_time_of};
use crate::errors::SmError;
use crate::json::{Json, array_member, read_array, take_member};
use crate::sm::{HoursResult, LessonHours, hours_result_fits, read_hours_result, status_ok};
use crate::sm_req::{Response, Results, all_fit, all_read, parse_list, read_response, read_status, response_fits, status_member};
use crate::timetable::{SmWeek, is_week_view_of_records, week_build_error};
use crate::transformers::smartv2::{DayMap, Weekdays, build_error, buildable, is_day_map_of, is_week_of};

verus! {

/// A timetable response as the server sent it, ready to be checked and
/// turned into calendars.
#[derive(Debug)]
pub struct SmTimetable {
    pub interna_timetable: Response,
}

/// `e` is the error of the first result of `rs` whose records cannot all be placed.
pub open spec fn first_build_error(rs: Seq<Results>, e: SmError) -> bool {
    exists|i: int| 0 <= i < rs.len() && (forall|k: int| 0 <= k < i ==> buildable(#[trigger] rs[k].data@))
        && #[trigger] build_error(rs[i].data@, e)
}

impl SmTimetable {
    /// Reads a timetable response.
    pub fn from_json(j: Json) -> (r: Option<SmTimetable>)
        ensures
            match r {
                Some(t) => read_response(j, t.interna_timetable),
                None => !response_fits(j),
            },
    {
        match Response::from_json(j) {
            Some(interna_timetable) => Some(SmTimetable { interna_timetable }),
            None => None,
        }
    }

    /// Every result has a status in `200..300`.
    pub fn is_success(&self) -> (r: bool)
        ensures
            r == forall|i: int| 0 <= i < self.interna_timetable.results@.len()
                ==> status_ok(#[trigger] self.interna_timetable.results@[i].status),
    {
        let results = &self.interna_timetable.results;
        let mut success = true;
        let mut i: usize = 0;
        while i < results.len()
            invariant
                i <= results@.len(),
                success == forall|k: int| 0 <= k < i ==> status_ok(#[trigger] results@[k].status),
            decreases results@.len() - i,
        {
            if results[i].status < 200 || results[i].status >= 300 {
                success = false;
            }
            i = i + 1;
        }
        success
    }

    /// One week view per result, in order.
    pub fn to_smart_v1(self) -> (r: Result<Vec<SmWeek>, SmError>)
        ensures
            match r {
                Ok(v) => v@.len() == self.interna_timetable.results@.len() && forall|i: int| 0 <= i < v@.len()
                    ==> is_week_view_of_records(self.interna_timetable.results@[i].data@, #[trigger] v@[i]),
                Err(e) => exists|i: int| 0 <= i < self.interna_timetable.results@.len()
                    && (forall|k: int| 0 <= k < i ==> !(exists|e2: SmError| week_build_error(#[trigger] self.interna_timetable.results@[k].data@, e2)))
                    && #[trigger] week_build_error(self.interna_timetable.results@[i].data@, e),
            },
    {
        let ghost all = self.interna_timetable.results@;
        let mut rest = self.interna_timetable.results;
        let n = rest.len();
        let mut out: Vec<SmWeek> = Vec::new();
        let mut k: usize = 0;
        while rest.len() > 0
            invariant
                all == self.interna_timetable.results@,
                all.len() == n,
                k + rest@.len() == n,
                rest@ == all.subrange(k as int, n as int),
                out@.len() == k,
                forall|i: int| 0 <= i < k ==> is_week_view_of_records(all[i].data@, #[trigger] out@[i]),
                forall|i: int| 0 <= i < k ==> !(exists|e2: SmError| week_build_error(#[trigger] all[i].data@, e2)),
            decreases rest@.len(),
        {
            let table = rest.remove(0);
            assert(table == all[k as int]);
            match SmWeek::from_interna(table) {
                Ok(w) => {
                    proof {
                        let ds = all[k as int].data@;
                        let es = choose|es| #[trigger] crate::timetable::all_week_entries(ds, es)
                            && crate::timetable::is_week_view_of(es, w);
                        assert forall|e2: SmError| !week_build_error(ds, e2) by {
                            if week_build_error(ds, e2) {
                                let i = choose|i: int| {
                                    &&& 0 <= i < ds.len()
                                    &&& (forall|k2: int| 0 <= k2 < i ==> crate::timetable::week_error(#[trigger] ds[k2]) is None)
                                    &&& #[trigger] crate::timetable::week_error(ds[i]) == Some(e2)
                                };
                                assert(crate::timetable::week_entry_of(ds[i], es[i]));
                            }
                        }
                    }
                    out.push(w);
                },
                Err(e) => return Err(e),
            }
            k = k + 1;
        }
        Ok(out)
    }

    /// One week calendar per result, in order.
    pub fn to_smart_v2_weekdays(self) -> (r: Result<Vec<Weekdays>, SmError>)
        ensures
            match r {
                Ok(v) => v@.len() == self.interna_timetable.results@.len() && forall|i: int| 0 <= i < v@.len()
                    ==> is_week_of(self.interna_timetable.results@[i].data@, #[trigger] v@[i]),
                Err(e) => first_build_error(self.interna_timetable.results@, e),
            },
    {
        let ghost all = self.interna_timetable.results@;
        let mut rest = self.interna_timetable.results;
        let n = rest.len();
        let mut out: Vec<Weekdays> = Vec::new();
        let mut k: usize = 0;
        while rest.len() > 0
            invariant
                all == self.interna_timetable.results@,
                all.len() == n,
                k + rest@.len() == n,
                rest@ == all.subrange(k as int, n as int),
                out@.len() == k,
                forall|i: int| 0 <= i < k ==> is_week_of(all[i].data@, #[trigger] out@[i]),
                forall|i: int| 0 <= i < k ==> buildable(#[trigger] all[i].data@),
            decreases rest@.len(),
        {
            let table = rest.remove(0);
            assert(table == all[k as int]);
            match Weekdays::from_interna(table) {
                Ok(w) => {
                    proof {
                        let ps = choose|ps| #[trigger] crate::transformers::smartv2::all_placed(all[k as int].data@, ps);
                        assert forall|i: int| 0 <= i < all[k as int].data@.len() implies
                            crate::transformers::smartv2::placement_error(#[trigger] all[k as int].data@[i]) is None by {
                            assert(crate::transformers::smartv2::placed(all[k as int].data@[i], ps[i]));
                        }
                    }
                    out.push(w);
                },
                Err(e) => {
                    assert(build_error(all[k as int].data@, e));
                    return Err(e);
                },
            }
            k = k + 1;
        }
        Ok(out)
    }

    /// One date calendar per result, in order.
    pub fn to_smart_v2_daymap(self) -> (r: Result<Vec<DayMap>, SmError>)
        ensures
            match r {
                Ok(v) => v@.len() == self.interna_timetable.results@.len() && forall|i: int| 0 <= i < v@.len()
                    ==> is_day_map_of(self.interna_timetable.results@[i].data@, #[trigger] v@[i]),
                Err(e) => first_build_error(self.interna_timetable.results@, e),
            },
    {
        let ghost all = self.interna_timetable.results@;
        let mut rest = self.interna_timetable.results;
        let n = rest.len();
        let mut out: Vec<DayMap> = Vec::new();
        let mut k: usize = 0;
        while rest.len() > 0
            invariant
                all == self.interna_timetable.results@,
                all.len() == n,
                k + rest@.len() == n,
                rest@ == all.subrange(k as int, n as int),
                out@.len() == k,
                forall|i: int| 0 <= i < k ==> is_day_map_of(all[i].data@, #[trigger] out@[i]),
                forall|i: int| 0 <= i < k ==> buildable(#[trigger] all[i].data@),
            decreases rest@.len(),
        {
            let table = rest.remove(0);
            assert(table == all[k as int]);
            match DayMap::from_interna(table) {
                Ok(m) => {
                    proof {
                        let ps = choose|ps| #[trigger] crate::transformers::smartv2::all_placed(all[k as int].data@, ps);
                        assert forall|i: int| 0 <= i < all[k as int].data@.len() implies
                            crate::transformers::smartv2::placement_error(#[trigger] all[k as int].data@[i]) is None by {
                            assert(crate::transformers::smartv2::placed(all[k as int].data@[i], ps[i]));
                        }
                    }
                    out.push(m);
                },
                Err(e) => {
                    assert(build_error(all[k as int].data@, e));
                    return Err(e);
                },
            }
            k = k + 1;
        }
        Ok(out)
    }
}

/// One class-hours result of a bundle: its status and its data.
#[derive(Debug)]
pub struct HoursResults {
    pub status: u16,
    pub data: HoursResult,
}

/// A class-hours response: one result per call, and advisory messages.
#[derive(Debug)]
pub struct HoursResponse {
    pub results: Vec<HoursResults>,
    pub system_status_messages: Vec<Json>,
}

pub open spec fn hours_results_fits(j: crate::json::Json) -> bool {
    status_member(j) is Some && (crate::json::member(j, "data"@) matches Some(d) && hours_result_fits(d))
}

pub open spec fn read_hours_results(j: Json, r: HoursResults) -> bool {
    status_member(j) == Some(r.status as int) && (crate::json::member(j, "data"@) matches Some(d)
        && read_hours_result(d, r.data))
}

pub open spec fn hours_response_fits(j: Json) -> bool {
    &&& array_member(j, "results"@) matches Some(items)
    &&& all_fit(items, |o: Json| hours_results_fits(o))
    &&& array_member(j, "systemStatusMessages"@) is Some
}

pub open spec fn read_hours_response(j: Json, r: HoursResponse) -> bool {
    &&& array_member(j, "results"@) matches Some(items)
    &&& all_read(items, r.results@, |o: Json, x: HoursResults| read_hours_results(o, x))
    &&& array_member(j, "systemStatusMessages"@) == Some(r.system_status_messages@)
}

impl HoursResults {
    pub fn from_json(j: &Json) -> (r: Option<HoursResults>)
        ensures
            match r {
                Some(x) => read_hours_results(*j, x),
                None => !hours_results_fits(*j),
            },
    {
        let status = read_status(j)?;
        let data = HoursResult::from_json(crate::json::get_member(j, "data")?)?;
        Some(HoursResults { status, data })
    }
}

impl HoursResponse {
    pub fn from_json(j: Json) -> (r: Option<HoursResponse>)
        ensures
            match r {
                Some(x) => read_hours_response(j, x),
                None => !hours_response_fits(j),
            },
    {
        let results = parse_list(
            read_array(&j, "results")?,
            HoursResults::from_json,
            Ghost(|o: Json| hours_results_fits(o)),
            Ghost(|o: Json, x: HoursResults| read_hours_results(o, x)),
        )?;
        match take_member(j, "systemStatusMessages")? {
            Json::Array(system_status_messages) => Some(HoursResponse { results, system_status_messages }),
            _ => None,
        }
    }
}

/// The start and end of a class hour on each day, in day order.
pub open spec fn times_of(h: LessonHours, v: Seq<(ClockTime, ClockTime)>) -> bool {
    &&& v.len() == h.from_by_day@.len()
    &&& forall|i: int| 0 <= i < v.len() ==> {
        &&& clock_time_of(h.from_by_day@[i]@) == Some((#[trigger] v[i]).0.hms())
        &&& clock_time_of(h.until_by_day@[i]@) == Some(v[i].1.hms())
    }
}

/// Why the times of a class hour cannot be read, if they cannot.
pub open spec fn hours_error(h: LessonHours) -> Option<SmError> {
    if h.until_by_day@.len() < h.from_by_day@.len() {
        Some(SmError::MalformedRecord)
    } else if exists|i: int| 0 <= i < h.from_by_day@.len() && (clock_time_of(#[trigger] h.from_by_day@[i]@) is None
        || clock_time_of(h.until_by_day@[i]@) is None) {
        Some(SmError::TimeParseError)
    } else {
        None
    }
}

/// Reads the start and end of a class hour on each day.
fn day_times(h: &LessonHours) -> (r: Result<Vec<(ClockTime, ClockTime)>, SmError>)
    ensures
        match r {
            Ok(v) => hours_error(*h) is None && times_of(*h, v@),
            Err(e) => hours_error(*h) == Some(e),
        },
{
    if h.until_by_day.len() < h.from_by_day.len() {
        return Err(SmError::MalformedRecord);
    }
    let mut times: Vec<(ClockTime, ClockTime)> = Vec::new();
    let mut i: usize = 0;
    while i < h.from_by_day.len()
        invariant
            i <= h.from_by_day@.len(),
            h.until_by_day@.len() >= h.from_by_day@.len(),
            times@.len() == i,
            forall|k: int| 0 <= k < i ==> {
                &&& clock_time_of(h.from_by_day@[k]@) == Some((#[trigger] times@[k]).0.hms())
                &&& clock_time_of(h.until_by_day@[k]@) == Some(times@[k].1.hms())
            },
        decreases h.from_by_day@.len() - i,
    {
        let start = ClockTime::parse(h.from_by_day[i].as_str());
        let end = ClockTime::parse(h.until_by_day[i].as_str());
        match (start, end) {
            (Some(s), Some(e)) => times.push((s, e)),
            _ => {
                assert(clock_time_of(h.from_by_day@[i as int]@) is None || clock_time_of(h.until_by_day@[i as int]@) is None);
                return Err(SmError::TimeParseError);
            },
        }
        i = i + 1;
    }
    proof {
        assert forall|k: int| 0 <= k < h.from_by_day@.len() implies !(clock_time_of(#[trigger] h.from_by_day@[k]@) is None
            || clock_time_of(h.until_by_day@[k]@) is None) by {
            assert(clock_time_of(h.from_by_day@[k]@) == Some(times@[k].0.hms()));
        }
    }
    Ok(times)
}

/// No later class hour of `hs` than the one at `k` has its number.
pub open spec fn last_with_number(hs: Seq<LessonHours>, k: int) -> bool {
    forall|m: int| k < m < hs.len() ==> (#[trigger] hs[m]).number != hs[k].number
}

/// A class-hours response as the server sent it.
#[derive(Debug)]
pub struct SmHours {
    pub interna_response: HoursResponse,
}

impl SmHours {
    /// Reads a class-hours response.
    pub fn from_json(j: Json) -> (r: Option<SmHours>)
        ensures
            match r {
                Some(h) => read_hours_response(j, h.interna_response),
                None => !hours_response_fits(j),
            },
    {
        match HoursResponse::from_json(j) {
            Some(interna_response) => Some(SmHours { interna_response }),
            None => None,
        }
    }

    /// Every result has a status in `200..300`.
    pub fn is_success(&self) -> (r: bool)
        ensures
            r == forall|i: int| 0 <= i < self.interna_response.results@.len()
                ==> status_ok(#[trigger] self.interna_response.results@[i].status),
    {
        let results = &self.interna_response.results;
        let mut success = true;
        let mut i: usize = 0;
        while i < results.len()
            invariant
                i <= results@.len(),
                success == forall|k: int| 0 <= k < i ==> status_ok(#[trigger] results@[k].status),
            decreases results@.len() - i,
        {
            if results[i].status < 200 || results[i].status >= 300 {
                success = false;
            }
            i = i + 1;
        }
        success
    }

    /// The start and end of every class hour of the first result on each
    /// day, keyed by the class hour's number; a later class hour replaces an
    /// earlier one with the same number.
    pub fn parse(&self) -> (r: Result<BTreeMap<usize, Vec<(ClockTime, ClockTime)>>, SmError>)
        ensures
            match r {
                Ok(m) => {
                    let hs = self.interna_response.results@[0].data.data@;
                    &&& self.interna_response.results@.len() > 0
                    &&& forall|k: int| 0 <= k < hs.len() ==> hours_error(#[trigger] hs[k]) is None
                    &&& forall|n: usize| #[trigger] m@.contains_key(n) <==> exists|k: int| 0 <= k < hs.len() && hs[k].number == n
                    &&& forall|k: int| 0 <= k < hs.len() && #[trigger] last_with_number(hs, k) ==> times_of(
                        hs[k],
                        m@[hs[k].number]@,
                    )
                },
                Err(e) => if self.interna_response.results@.len() == 0 {
                    e == SmError::NoData
                } else {
                    let hs = self.interna_response.results@[0].data.data@;
                    exists|k: int| 0 <= k < hs.len() && (forall|m: int| 0 <= m < k ==> hours_error(#[trigger] hs[m]) is None)
                        && #[trigger] hours_error(hs[k]) == Some(e)
                },
            },
    {
        if self.interna_response.results.len() == 0 {
            return Err(SmError::NoData);
        }
        let hs = &self.interna_response.results[0].data.data;
        let mut map: BTreeMap<usize, Vec<(ClockTime, ClockTime)>> = BTreeMap::new();
        let mut k: usize = 0;
        while k < hs.len()
            invariant
                self.interna_response.results@.len() > 0,
                hs@ == self.interna_response.results@[0].data.data@,
                k <= hs@.len(),
                forall|m: int| 0 <= m < k ==> hours_error(#[trigger] hs@[m]) is None,
                forall|n: usize| #[trigger] map@.contains_key(n) <==> exists|m: int| 0 <= m < k && hs@[m].number == n,
                forall|m: int| 0 <= m < k && #[trigger] last_with_number(hs@.take(k as int), m) ==> times_of(
                    hs@[m],
                    map@[hs@[m].number]@,
                ),
            decreases hs@.len() - k,
        {
            let times = match day_times(&hs[k]) {
                Ok(v) => v,
                Err(e) => {
                    assert(hours_error(hs@[k as int]) == Some(e));
                    return Err(e);
                },
            };
            let ghost old_map = map;
            map.insert(hs[k].number, times);
            proof {
                let taken = hs@.take(k + 1);
                assert forall|n: usize| #[trigger] map@.contains_key(n) <==> exists|m: int| 0 <= m < k + 1 && hs@[m].number == n by {
                    if n != hs@[k as int].number && map@.contains_key(n) {
                        assert(old_map@.contains_key(n));
                    }
                }
                assert forall|m: int| 0 <= m < k + 1 && #[trigger] last_with_number(taken, m) implies times_of(
                    hs@[m],
                    map@[hs@[m].number]@,
                ) by {
                    if m < k {
                        assert(taken[k as int] == hs@[k as int]);
                        assert(hs@[m].number != hs@[k as int].number);
                        assert forall|q: int| m < q < k implies (#[trigger] hs@.take(k as int)[q]).number != hs@.take(k as int)[m].number by {
                            assert(taken[q] == hs@[q]);
                        }
                        assert(last_with_number(hs@.take(k as int), m));
                    }
                }
            }
            k = k + 1;
        }
        proof {
            assert(hs@.take(k as int) =~= hs@);
        }
        Ok(map)
    }
}

} // verus!
