use vstd::prelude::*;
use std::collections::BTreeMap;
use crate::date::{CalendarDate, iso_date_of, weekday_of};
use crate::decimal::{decimal_number, parse_decimal};
use crate::errors::SmError;
use crate::sm_req::{
    ActualLesson as RawActualLesson,
    Datum,
    Event as RawEvent,
    OriginalLesson as RawOriginalLesson,
    Results,
    Subject as RawSubject,
    Teacher as RawTeacher,
};
use crate::transformers::smartv2::{class_names, copy_opt, group_names, string_vec_calc};

verus! {

/// The week view with one lesson per period: each lesson carries what
/// happened to it.
#[derive(Debug, Clone)]
pub enum SmLessonStatus {
    Lesson,
    Substitution(SmSubstitutedLesson),
    Event(SmEvent),
    Cancelled,
}

#[derive(Debug, Clone)]
pub struct SmSubject {
    pub abbreviation: String,
    pub name: String,
}

#[derive(Debug, Clone)]
pub struct SmTeacher {
    pub abbreviation: String,
    pub firstname: Option<String>,
    pub lastname: Option<String>,
}

#[derive(Debug, Clone)]
pub struct SmLesson {
    pub status: SmLessonStatus,
    pub room: String,
    pub subject: SmSubject,
    pub teachers: Vec<SmTeacher>,
    pub classes: Vec<String>,
    pub student_groups: Vec<String>,
    pub comment: Option<String>,
    pub subject_label: String,
}

/// The lesson that a substitution replaces.
#[derive(Debug, Clone)]
pub struct SmSubstitutedLesson {
    pub room: String,
    pub subject: SmSubject,
    pub teachers: Vec<SmTeacher>,
    pub classes: Vec<String>,
    pub student_groups: Vec<String>,
    pub comment: Option<String>,
    pub subject_label: String,
}

#[derive(Debug, Clone)]
pub struct SmEvent {
    pub text: String,
    pub teachers: Vec<SmTeacher>,
    pub classes: Vec<String>,
    pub student_groups: Vec<String>,
}

pub open spec fn sm_subject_of(s: RawSubject) -> SmSubject {
    SmSubject { abbreviation: s.abbreviation, name: s.name }
}

pub open spec fn sm_teacher_of(t: RawTeacher) -> SmTeacher {
    SmTeacher { abbreviation: t.abbreviation, firstname: t.firstname, lastname: t.lastname }
}

pub open spec fn sm_teachers_of(ts: Seq<RawTeacher>) -> Seq<SmTeacher> {
    ts.map_values(|t: RawTeacher| sm_teacher_of(t))
}

/// `l` shows the actual lesson `a` with status `status` and the record's comment.
pub open spec fn sm_lesson_from_actual(l: SmLesson, a: RawActualLesson, status: SmLessonStatus, comment: Option<String>) -> bool {
    &&& l.status == status
    &&& l.room == a.room.name
    &&& l.subject == sm_subject_of(a.subject)
    &&& l.teachers@ == sm_teachers_of(a.teachers@)
    &&& l.classes@ == class_names(a.classes@)
    &&& l.student_groups@ == group_names(a.student_groups@)
    &&& l.comment == comment
    &&& l.subject_label == a.subject_label
}

/// `l` shows the original lesson `o` with status `status` and the record's comment.
pub open spec fn sm_lesson_from_orig(l: SmLesson, o: RawOriginalLesson, status: SmLessonStatus, comment: Option<String>) -> bool {
    &&& l.status == status
    &&& l.room == o.room.name
    &&& l.subject == sm_subject_of(o.subject)
    &&& l.teachers@ == sm_teachers_of(o.teachers@)
    &&& l.classes@ == class_names(o.classes@)
    &&& l.student_groups@ == group_names(o.student_groups@)
    &&& l.comment == comment
    &&& l.subject_label == o.subject_label
}

pub open spec fn substituted_from_orig(l: SmSubstitutedLesson, o: RawOriginalLesson, comment: Option<String>) -> bool {
    &&& l.room == o.room.name
    &&& l.subject == sm_subject_of(o.subject)
    &&& l.teachers@ == sm_teachers_of(o.teachers@)
    &&& l.classes@ == class_names(o.classes@)
    &&& l.student_groups@ == group_names(o.student_groups@)
    &&& l.comment == comment
    &&& l.subject_label == o.subject_label
}

pub open spec fn sm_event_from(e: SmEvent, r: RawEvent) -> bool {
    &&& e.text == r.text
    &&& e.teachers@ == sm_teachers_of(r.teachers@)
    &&& e.classes@ == class_names(r.classes@)
    &&& e.student_groups@ == group_names(r.student_groups@)
}

impl SmSubject {
    pub fn new(subj: RawSubject) -> (r: Self)
        ensures
            r == sm_subject_of(subj),
    {
        SmSubject { abbreviation: subj.abbreviation, name: subj.name }
    }
}

impl SmTeacher {
    pub fn new(teacher: RawTeacher) -> (r: Self)
        ensures
            r == sm_teacher_of(teacher),
    {
        SmTeacher { abbreviation: teacher.abbreviation, firstname: teacher.firstname, lastname: teacher.lastname }
    }

    pub fn new_vec(teachers: Vec<RawTeacher>) -> (r: Vec<Self>)
        ensures
            r@ == sm_teachers_of(teachers@),
    {
        let mut sm_teachers: Vec<SmTeacher> = Vec::new();
        let mut i: usize = 0;
        while i < teachers.len()
            invariant
                i <= teachers.len(),
                sm_teachers@ == sm_teachers_of(teachers@.take(i as int)),
            decreases teachers.len() - i,
        {
            let t = &teachers[i];
            sm_teachers.push(
                SmTeacher {
                    abbreviation: t.abbreviation.clone(),
                    firstname: copy_opt(&t.firstname),
                    lastname: copy_opt(&t.lastname),
                },
            );
            assert(sm_teachers_of(teachers@.take(i + 1)) =~= sm_teachers_of(teachers@.take(i as int)).push(
                sm_teacher_of(teachers@[i as int]),
            ));
            i = i + 1;
        }
        assert(teachers@.take(i as int) =~= teachers@);
        sm_teachers
    }
}

impl SmLesson {
    pub fn from_actual(lesson: RawActualLesson, status: SmLessonStatus, comment: Option<String>) -> (r: Self)
        ensures
            sm_lesson_from_actual(r, lesson, status, comment),
    {
        let (classes, student_groups) = string_vec_calc(lesson.classes, lesson.student_groups);
        SmLesson {
            status,
            room: lesson.room.name,
            subject: SmSubject::new(lesson.subject),
            teachers: SmTeacher::new_vec(lesson.teachers),
            classes,
            student_groups,
            comment,
            subject_label: lesson.subject_label,
        }
    }

    pub fn from_orig(lesson: RawOriginalLesson, status: SmLessonStatus, comment: Option<String>) -> (r: Self)
        ensures
            sm_lesson_from_orig(r, lesson, status, comment),
    {
        let (classes, student_groups) = string_vec_calc(lesson.classes, lesson.student_groups);
        SmLesson {
            status,
            room: lesson.room.name,
            subject: SmSubject::new(lesson.subject),
            teachers: SmTeacher::new_vec(lesson.teachers),
            classes,
            student_groups,
            comment,
            subject_label: lesson.subject_label,
        }
    }

    /// The last of the original lessons, or `None` when there is none.
    pub fn from_orig_vec(lessons: Vec<RawOriginalLesson>, status: SmLessonStatus, comment: Option<String>) -> (r: Option<Self>)
        ensures
            match r {
                Some(l) => lessons@.len() > 0 && sm_lesson_from_orig(l, lessons@.last(), status, comment),
                None => lessons@.len() == 0,
            },
    {
        let mut lessons = lessons;
        match lessons.pop() {
            Some(last) => Some(SmLesson::from_orig(last, status, comment)),
            None => None,
        }
    }
}

impl SmSubstitutedLesson {
    pub fn from_orig(lesson: RawOriginalLesson, comment: Option<String>) -> (r: Self)
        ensures
            substituted_from_orig(r, lesson, comment),
    {
        let (classes, student_groups) = string_vec_calc(lesson.classes, lesson.student_groups);
        SmSubstitutedLesson {
            room: lesson.room.name,
            subject: SmSubject::new(lesson.subject),
            teachers: SmTeacher::new_vec(lesson.teachers),
            classes,
            student_groups,
            comment,
            subject_label: lesson.subject_label,
        }
    }

    /// The last of the original lessons, or `None` when there is none.
    pub fn from_orig_vec(lessons: Vec<RawOriginalLesson>, comment: Option<String>) -> (r: Option<Self>)
        ensures
            match r {
                Some(l) => lessons@.len() > 0 && substituted_from_orig(l, lessons@.last(), comment),
                None => lessons@.len() == 0,
            },
    {
        let mut lessons = lessons;
        match lessons.pop() {
            Some(last) => Some(SmSubstitutedLesson::from_orig(last, comment)),
            None => None,
        }
    }
}

impl SmEvent {
    pub fn from_orig(event: RawEvent) -> (r: Self)
        ensures
            sm_event_from(r, event),
    {
        let (classes, student_groups) = string_vec_calc(event.classes, event.student_groups);
        SmEvent { text: event.text, teachers: SmTeacher::new_vec(event.teachers), classes, student_groups }
    }
}

/// The record holds what its rule of the week view needs.
pub open spec fn week_classifiable(d: Datum) -> bool {
    if d.is_substitution is Some {
        d.actual_lesson is Some && (d.original_lessons matches Some(os) && os@.len() > 0)
    } else if d.is_cancelled is Some {
        d.original_lessons matches Some(os) && os@.len() > 0
    } else {
        d.actual_lesson is Some
    }
}

/// `l` is what record `d` shows in the week view: a substitution keeps the
/// actual lesson and the last original one, a cancellation the last original
/// lesson, anything else the actual lesson.
pub open spec fn week_classified(d: Datum, l: SmLesson) -> bool {
    if d.is_substitution is Some {
        &&& l.status matches SmLessonStatus::Substitution(o)
        &&& substituted_from_orig(o, d.original_lessons->Some_0@.last(), d.comment)
        &&& sm_lesson_from_actual(l, d.actual_lesson->Some_0, l.status, d.comment)
    } else if d.is_cancelled is Some {
        sm_lesson_from_orig(l, d.original_lessons->Some_0@.last(), SmLessonStatus::Cancelled, d.comment)
    } else {
        sm_lesson_from_actual(l, d.actual_lesson->Some_0, SmLessonStatus::Lesson, d.comment)
    }
}

/// The error that keeps record `d` out of the week view, if any.
pub open spec fn week_error(d: Datum) -> Option<SmError> {
    if !week_classifiable(d) {
        Some(SmError::MalformedRecord)
    } else if iso_date_of(d.date@) is None {
        Some(SmError::DateParseError)
    } else if decimal_number(d.class_hour.number@) is None {
        Some(SmError::PeriodParseError)
    } else {
        None
    }
}

/// A lesson of the week view with its date and period.
#[derive(Debug, Clone)]
pub struct WeekEntry {
    pub date: CalendarDate,
    pub period: usize,
    pub lesson: SmLesson,
}

/// `e` is record `d` in the week view.
pub open spec fn week_entry_of(d: Datum, e: WeekEntry) -> bool {
    &&& week_error(d) is None
    &&& week_classified(d, e.lesson)
    &&& e.date.valid()
    &&& iso_date_of(d.date@) == Some(e.date.ymd())
    &&& decimal_number(d.class_hour.number@) == Some(e.period as int)
}

/// The lesson of the last entry on weekday `wd` at period `p`, if any.
pub open spec fn last_lesson(es: Seq<WeekEntry>, wd: int, p: int) -> Option<SmLesson>
    decreases es.len(),
{
    if es.len() == 0 {
        None
    } else if weekday_of(es.last().date) == wd && es.last().period as int == p {
        Some(es.last().lesson)
    } else {
        last_lesson(es.drop_last(), wd, p)
    }
}

/// The number of entries dated on a Saturday or a Sunday.
pub open spec fn weekend_count(es: Seq<WeekEntry>) -> int
    decreases es.len(),
{
    if es.len() == 0 {
        0
    } else {
        weekend_count(es.drop_last()) + if weekday_of(es.last().date) >= 5 {
            1int
        } else {
            0int
        }
    }
}

proof fn lemma_weekend_count_bound(es: Seq<WeekEntry>)
    ensures
        0 <= weekend_count(es) <= es.len(),
    decreases es.len(),
{
    if es.len() > 0 {
        lemma_weekend_count_bound(es.drop_last());
    }
}

/// The lesson a week map holds at period `p`.
pub open spec fn held(m: BTreeMap<usize, SmLesson>, p: int) -> Option<SmLesson> {
    if 0 <= p <= usize::MAX && m@.contains_key(p as usize) {
        Some(m@[p as usize])
    } else {
        None
    }
}

/// The week view: Monday to Friday, each with one lesson per period, the last
/// record of a period replacing earlier ones. Records on a Saturday or Sunday
/// have no place in it; they are counted in `weekend_records`.
#[derive(Debug)]
pub struct SmWeek {
    pub monday: BTreeMap<usize, SmLesson>,
    pub tuesday: BTreeMap<usize, SmLesson>,
    pub wednesday: BTreeMap<usize, SmLesson>,
    pub thursday: BTreeMap<usize, SmLesson>,
    pub friday: BTreeMap<usize, SmLesson>,
    pub weekend_records: usize,
}

pub open spec fn week_held(
    days: (
        BTreeMap<usize, SmLesson>,
        BTreeMap<usize, SmLesson>,
        BTreeMap<usize, SmLesson>,
        BTreeMap<usize, SmLesson>,
        BTreeMap<usize, SmLesson>,
    ),
    wd: int,
    p: int,
) -> Option<SmLesson> {
    if wd == 0 {
        held(days.0, p)
    } else if wd == 1 {
        held(days.1, p)
    } else if wd == 2 {
        held(days.2, p)
    } else if wd == 3 {
        held(days.3, p)
    } else if wd == 4 {
        held(days.4, p)
    } else {
        None
    }
}

/// `w` is the week view of the entries `es`.
pub open spec fn is_week_view_of(es: Seq<WeekEntry>, w: SmWeek) -> bool {
    &&& forall|wd: int, p: int| 0 <= wd < 5 ==> #[trigger] week_held(
        (w.monday, w.tuesday, w.wednesday, w.thursday, w.friday),
        wd,
        p,
    ) == last_lesson(es, wd, p)
    &&& w.weekend_records == weekend_count(es)
}

/// `es` is the records `ds`, each read for the week view, in order.
pub open spec fn all_week_entries(ds: Seq<Datum>, es: Seq<WeekEntry>) -> bool {
    &&& es.len() == ds.len()
    &&& forall|i: int| 0 <= i < ds.len() ==> #[trigger] week_entry_of(ds[i], es[i])
}

/// `w` is the week view of the records `ds`.
pub open spec fn is_week_view_of_records(ds: Seq<Datum>, w: SmWeek) -> bool {
    exists|es: Seq<WeekEntry>| #[trigger] all_week_entries(ds, es) && is_week_view_of(es, w)
}

/// `e` is the error of the first record of `ds` that the week view cannot read.
pub open spec fn week_build_error(ds: Seq<Datum>, e: SmError) -> bool {
    exists|i: int| {
        &&& 0 <= i < ds.len()
        &&& (forall|k: int| 0 <= k < i ==> week_error(#[trigger] ds[k]) is None)
        &&& #[trigger] week_error(ds[i]) == Some(e)
    }
}

/// Reads one record for the week view.
pub fn week_entry(datum: Datum) -> (r: Result<WeekEntry, SmError>)
    ensures
        match r {
            Ok(e) => week_entry_of(datum, e),
            Err(e) => week_error(datum) == Some(e),
        },
{
    let ghost d = datum;
    let Datum { date, class_hour, actual_lesson, comment, original_lessons, is_substitution, is_cancelled, .. } = datum;
    let lesson = if is_substitution.is_some() {
        let actual = match actual_lesson {
            Some(a) => a,
            None => return Err(SmError::MalformedRecord),
        };
        let originals = match original_lessons {
            Some(os) => os,
            None => return Err(SmError::MalformedRecord),
        };
        let orig = match SmSubstitutedLesson::from_orig_vec(originals, copy_opt(&comment)) {
            Some(o) => o,
            None => return Err(SmError::MalformedRecord),
        };
        SmLesson::from_actual(actual, SmLessonStatus::Substitution(orig), comment)
    } else if is_cancelled.is_some() {
        let originals = match original_lessons {
            Some(os) => os,
            None => return Err(SmError::MalformedRecord),
        };
        match SmLesson::from_orig_vec(originals, SmLessonStatus::Cancelled, comment) {
            Some(l) => l,
            None => return Err(SmError::MalformedRecord),
        }
    } else {
        match actual_lesson {
            Some(a) => SmLesson::from_actual(a, SmLessonStatus::Lesson, comment),
            None => return Err(SmError::MalformedRecord),
        }
    };
    let day = match CalendarDate::parse(date.as_str()) {
        Some(x) => x,
        None => return Err(SmError::DateParseError),
    };
    let period = match parse_decimal(&class_hour.number) {
        Some(n) => n,
        None => return Err(SmError::PeriodParseError),
    };
    Ok(WeekEntry { date: day, period, lesson })
}

impl SmWeek {
    /// Files every entry dated Monday to Friday under its weekday and period;
    /// a later entry replaces an earlier one at the same place.
    pub fn from_entries(entries: Vec<WeekEntry>) -> (r: SmWeek)
        requires
            forall|i: int| 0 <= i < entries@.len() ==> (#[trigger] entries@[i]).date.valid(),
        ensures
            is_week_view_of(entries@, r),
    {
        let ghost all = entries@;
        let n = entries.len();
        let mut rest = entries;
        let mut mon: BTreeMap<usize, SmLesson> = BTreeMap::new();
        let mut tue: BTreeMap<usize, SmLesson> = BTreeMap::new();
        let mut wed: BTreeMap<usize, SmLesson> = BTreeMap::new();
        let mut thu: BTreeMap<usize, SmLesson> = BTreeMap::new();
        let mut fri: BTreeMap<usize, SmLesson> = BTreeMap::new();
        let mut weekend: usize = 0;
        let mut k: usize = 0;
        while rest.len() > 0
            invariant
                all == entries@,
                all.len() == n,
                k + rest@.len() == n,
                rest@ == all.subrange(k as int, n as int),
                forall|i: int| 0 <= i < all.len() ==> (#[trigger] all[i]).date.valid(),
                forall|wd: int, p: int| 0 <= wd < 5 ==> #[trigger] week_held((mon, tue, wed, thu, fri), wd, p)
                    == last_lesson(all.take(k as int), wd, p),
                weekend as int == weekend_count(all.take(k as int)),
            decreases rest@.len(),
        {
            let entry = rest.remove(0);
            assert(entry == all[k as int]);
            let ghost old_days = (mon, tue, wed, thu, fri);
            let wd = entry.date.weekday();
            let period = entry.period;
            let ghost lesson = entry.lesson;
            proof {
                assert(all.take(k + 1).drop_last() =~= all.take(k as int));
                lemma_weekend_count_bound(all.take(k as int));
            }
            if wd == 0 {
                mon.insert(period, entry.lesson);
            } else if wd == 1 {
                tue.insert(period, entry.lesson);
            } else if wd == 2 {
                wed.insert(period, entry.lesson);
            } else if wd == 3 {
                thu.insert(period, entry.lesson);
            } else if wd == 4 {
                fri.insert(period, entry.lesson);
            } else {
                weekend = weekend + 1;
            }
            proof {
                assert forall|w: int, p: int| 0 <= w < 5 implies #[trigger] week_held((mon, tue, wed, thu, fri), w, p)
                    == last_lesson(all.take(k + 1), w, p) by {
                    assert(week_held(old_days, w, p) == last_lesson(all.take(k as int), w, p));
                    if w == wd as int && p != period as int && 0 <= p <= usize::MAX {
                        if w == 0 {
                            assert(mon@.contains_key(p as usize) == old_days.0@.contains_key(p as usize));
                        } else if w == 1 {
                            assert(tue@.contains_key(p as usize) == old_days.1@.contains_key(p as usize));
                        } else if w == 2 {
                            assert(wed@.contains_key(p as usize) == old_days.2@.contains_key(p as usize));
                        } else if w == 3 {
                            assert(thu@.contains_key(p as usize) == old_days.3@.contains_key(p as usize));
                        } else {
                            assert(fri@.contains_key(p as usize) == old_days.4@.contains_key(p as usize));
                        }
                    }
                }
            }
            k = k + 1;
        }
        assert(all.take(n as int) =~= all);
        SmWeek { monday: mon, tuesday: tue, wednesday: wed, thursday: thu, friday: fri, weekend_records: weekend }
    }

    /// Builds the week view of one timetable result, or reports the error of
    /// the first record that cannot be read.
    pub fn from_interna(interna_timetable: Results) -> (r: Result<Self, SmError>)
        ensures
            match r {
                Ok(w) => is_week_view_of_records(interna_timetable.data@, w),
                Err(e) => week_build_error(interna_timetable.data@, e),
            },
    {
        let ghost all = interna_timetable.data@;
        let mut rest = interna_timetable.data;
        let n = rest.len();
        let mut entries: Vec<WeekEntry> = Vec::new();
        let mut k: usize = 0;
        while rest.len() > 0
            invariant
                all == interna_timetable.data@,
                all.len() == n,
                k + rest@.len() == n,
                rest@ == all.subrange(k as int, n as int),
                entries@.len() == k,
                forall|i: int| 0 <= i < k ==> #[trigger] week_entry_of(all[i], entries@[i]),
                forall|i: int| 0 <= i < k ==> week_error(#[trigger] all[i]) is None,
            decreases rest@.len(),
        {
            let d = rest.remove(0);
            assert(d == all[k as int]);
            match week_entry(d) {
                Ok(e) => entries.push(e),
                Err(e) => {
                    assert(week_error(all[k as int]) == Some(e));
                    assert(week_build_error(all, e));
                    return Err(e);
                },
            }
            k = k + 1;
        }
        let ghost es = entries@;
        assert forall|i: int| 0 <= i < es.len() implies (#[trigger] es[i]).date.valid() by {
            assert(week_entry_of(all[i], es[i]));
        }
        let w = SmWeek::from_entries(entries);
        assert(all_week_entries(all, es));
        Ok(w)
    }
}

} // verus!
