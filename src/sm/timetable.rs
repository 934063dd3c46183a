use vstd::prelude::*;
use crate::date::{current_year, iso_text_of, iso_week_day, week_bounds, MAX_YEAR, MIN_YEAR};
use crate::errors::SmError;
use crate::json::Json;
use crate::sm::ResultSlot;
use crate::sm_req::Datum;

verus! {

#[derive(Debug)]
pub struct TimetableBodyParamsStudent {
    pub id: usize,
    pub class_id: usize,
}

/// The parameters of a timetable call: the student, and the first and last
/// day of the requested week as ISO dates.
#[derive(Debug)]
pub struct TimetableBodyParams {
    pub student: TimetableBodyParamsStudent,
    pub start: String,
    pub end: String,
}

/// The ISO text of the given weekday (0 for Monday) of ISO week `week` of `year`.
pub open spec fn week_day_text(year: int, week: int, weekday: int) -> Option<Seq<char>> {
    match iso_week_day(year, week, weekday) {
        Some((y, m, d)) => Some(iso_text_of(y, m, d)),
        None => None,
    }
}

/// The week exists in the year, and the year in the calendar's range.
pub open spec fn week_exists(year: int, week: int) -> bool {
    &&& MIN_YEAR <= year <= MAX_YEAR
    &&& iso_week_day(year, week, 0) is Some
    &&& iso_week_day(year, week, 6) is Some
}

pub open spec fn params_of(p: TimetableBodyParams, id: usize, class_id: usize, year: int, week: int) -> bool {
    &&& p.student.id == id
    &&& p.student.class_id == class_id
    &&& week_day_text(year, week, 0) == Some(p.start@)
    &&& week_day_text(year, week, 6) == Some(p.end@)
}

/// `j` is the wire form of the timetable parameters `p`: exactly the members
/// `student`, `start` and `end`, in that order.
pub open spec fn timetable_params_json(p: TimetableBodyParams, j: Json) -> bool {
    &&& j is Object
    &&& j->Object_0@.len() == 3
    &&& j->Object_0@[0].0@ == "student"@
    &&& student_json(p.student, j->Object_0@[0].1)
    &&& j->Object_0@[1].0@ == "start"@
    &&& j->Object_0@[1].1 matches Json::Str(s) && s@ == p.start@
    &&& j->Object_0@[2].0@ == "end"@
    &&& j->Object_0@[2].1 matches Json::Str(s) && s@ == p.end@
}

/// `j` is the wire form of the student: exactly the members `id` and
/// `classId`, in that order.
pub open spec fn student_json(s: TimetableBodyParamsStudent, j: Json) -> bool {
    &&& j is Object
    &&& j->Object_0@.len() == 2
    &&& j->Object_0@[0].0@ == "id"@
    &&& j->Object_0@[0].1 == Json::UInt(s.id as u64)
    &&& j->Object_0@[1].0@ == "classId"@
    &&& j->Object_0@[1].1 == Json::UInt(s.class_id as u64)
}

impl TimetableBodyParams {
    /// The parameters for week `week` of ISO year `year`.
    pub fn for_year(id: usize, class_id: usize, week: u32, year: i32) -> (r: Result<Self, SmError>)
        ensures
            match r {
                Ok(p) => week_exists(year as int, week as int) && params_of(p, id, class_id, year as int, week as int),
                Err(e) => !week_exists(year as int, week as int) && e == SmError::InvalidWeek,
            },
    {
        match week_bounds(week, year) {
            Some((mon, sun)) => Ok(TimetableBodyParams {
                student: TimetableBodyParamsStudent { id, class_id },
                start: mon.to_iso_string(),
                end: sun.to_iso_string(),
            }),
            None => Err(SmError::InvalidWeek),
        }
    }

    /// The parameters for week `week` of `oyear`, or of the current year when
    /// no year is given.
    pub fn new(id: usize, class_id: usize, week: u32, oyear: Option<i32>) -> (r: Result<Self, SmError>)
        ensures
            oyear matches Some(year) ==> match r {
                Ok(p) => week_exists(year as int, week as int) && params_of(p, id, class_id, year as int, week as int),
                Err(e) => !week_exists(year as int, week as int) && e == SmError::InvalidWeek,
            },
            oyear is None ==> match r {
                Ok(p) => exists|year: int| week_exists(year, week as int) && #[trigger] params_of(p, id, class_id, year, week as int),
                Err(e) => e == SmError::InvalidWeek && exists|year: int| i32::MIN <= year <= i32::MAX
                    && !#[trigger] week_exists(year, week as int),
            },
    {
        let year = match oyear {
            Some(y) => y,
            None => current_year(),
        };
        let r = TimetableBodyParams::for_year(id, class_id, week, year);
        proof {
            if r is Ok {
                assert(params_of(r->Ok_0, id, class_id, year as int, week as int));
            } else {
                assert(!week_exists(year as int, week as int));
            }
        }
        r
    }

    /// `{"student": {"id", "classId"}, "start", "end"}`.
    pub fn to_json(&self) -> (r: Json)
        ensures
            timetable_params_json(*self, r),
    {
        let mut student: Vec<(String, Json)> = Vec::new();
        student.push(("id".to_owned(), Json::UInt(self.student.id as u64)));
        student.push(("classId".to_owned(), Json::UInt(self.student.class_id as u64)));
        let s = Json::Object(student);
        let mut fields: Vec<(String, Json)> = Vec::new();
        fields.push(("student".to_owned(), s));
        fields.push(("start".to_owned(), Json::Str(self.start.clone())));
        fields.push(("end".to_owned(), Json::Str(self.end.clone())));
        Json::Object(fields)
    }
}

/// The timetable call: its parameters and its result slot.
#[derive(Debug)]
pub struct Timetable {
    pub params: TimetableBodyParams,
    pub result: ResultSlot<Vec<Datum>>,
}

impl Timetable {
    /// A timetable call for week `week` of `oyear` (the current year when none
    /// is given), with its result not yet settled.
    pub fn new(id: usize, class_id: usize, week: u32, oyear: Option<i32>) -> (r: Result<Self, SmError>)
        ensures
            oyear matches Some(year) ==> match r {
                Ok(t) => week_exists(year as int, week as int) && params_of(t.params, id, class_id, year as int, week as int)
                    && t.result is Empty,
                Err(e) => !week_exists(year as int, week as int) && e == SmError::InvalidWeek,
            },
            oyear is None ==> match r {
                Ok(t) => t.result is Empty && exists|year: int| week_exists(year, week as int)
                    && #[trigger] params_of(t.params, id, class_id, year, week as int),
                Err(e) => e == SmError::InvalidWeek && exists|year: int| i32::MIN <= year <= i32::MAX
                    && !#[trigger] week_exists(year, week as int),
            },
    {
        match TimetableBodyParams::new(id, class_id, week, oyear) {
            Ok(params) => {
                let t = Timetable { params, result: ResultSlot::Empty };
                proof {
                    if oyear is None {
                        let y = choose|y: int| week_exists(y, week as int) && #[trigger] params_of(params, id, class_id, y, week as int);
                        assert(params_of(t.params, id, class_id, y, week as int));
                    }
                }
                Ok(t)
            },
            Err(e) => Err(e),
        }
    }

    /// Takes the settled result; fails when it is not settled or was taken.
    pub fn get(&mut self) -> (r: Result<Vec<Datum>, SmError>)
        ensures
            final(self).params == old(self).params,
            match old(self).result {
                ResultSlot::Settled(v) => r == Ok::<Vec<Datum>, SmError>(v) && final(self).result is Consumed,
                _ => r == Err::<Vec<Datum>, SmError>(SmError::UninitializedData) && final(self).result == old(self).result,
            },
    {
        let mut slot = ResultSlot::Consumed;
        std::mem::swap(&mut self.result, &mut slot);
        match slot {
            ResultSlot::Settled(v) => Ok(v),
            other => {
                self.result = other;
                Err(SmError::UninitializedData)
            },
        }
    }
}

} // verus!
