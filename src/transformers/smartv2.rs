use vstd::prelude::*;
use std::collections::BTreeMap;
use crate::date::{CalendarDate, iso_date_of, weekday_of};
use crate::decimal::{decimal_number, parse_decimal};
use crate::errors::SmError;
use crate::sm_req::{
    ActualLesson as RawActualLesson,
    Class as RawClass,
    Datum,
    Event as RawEvent,
    OriginalLesson as RawOriginalLesson,
    Results,
    StudentGroup as RawStudentGroup,
    Subject as RawSubject,
    Teacher as RawTeacher,
};

verus! {

/// What one schedule record means once classified.
#[derive(Debug, Clone)]
pub enum TimetableElement {
    Lesson(Lesson),
    /// The lesson that takes place, and the one it replaces.
    Substitution(Lesson, Lesson),
    Cancelled(Lesson),
    Event(Event),
}

#[derive(Debug, Clone)]
pub struct Subject {
    pub abbreviation: String,
    pub name: String,
}

#[derive(Debug, Clone)]
pub struct Teacher {
    pub abbreviation: String,
    pub firstname: Option<String>,
    pub lastname: Option<String>,
}

#[derive(Debug, Clone)]
pub struct Lesson {
    pub room: String,
    pub subject: Subject,
    pub teachers: Vec<Teacher>,
    pub classes: Vec<String>,
    pub student_groups: Vec<String>,
    pub comment: Option<String>,
    pub subject_label: String,
}

#[derive(Debug, Clone)]
pub struct Event {
    pub text: String,
    pub teachers: Vec<Teacher>,
    pub classes: Vec<String>,
    pub student_groups: Vec<String>,
}

/// A classified record with the date and period it belongs to.
#[derive(Debug, Clone)]
pub struct Placement {
    pub date: CalendarDate,
    pub period: usize,
    pub element: TimetableElement,
}

pub open spec fn class_names(cs: Seq<RawClass>) -> Seq<String> {
    cs.map_values(|c: RawClass| c.name)
}

pub open spec fn group_names(gs: Seq<RawStudentGroup>) -> Seq<String> {
    gs.map_values(|g: RawStudentGroup| g.name)
}

pub open spec fn subject_of(s: RawSubject) -> Subject {
    Subject { abbreviation: s.abbreviation, name: s.name }
}

pub open spec fn teacher_of(t: RawTeacher) -> Teacher {
    Teacher { abbreviation: t.abbreviation, firstname: t.firstname, lastname: t.lastname }
}

pub open spec fn teachers_of(ts: Seq<RawTeacher>) -> Seq<Teacher> {
    ts.map_values(|t: RawTeacher| teacher_of(t))
}

/// `l` is the lesson `a` shows, with the record's comment in place of its own.
pub open spec fn lesson_from_actual(l: Lesson, a: RawActualLesson, comment: Option<String>) -> bool {
    &&& l.room == a.room.name
    &&& l.subject == subject_of(a.subject)
    &&& l.teachers@ == teachers_of(a.teachers@)
    &&& l.classes@ == class_names(a.classes@)
    &&& l.student_groups@ == group_names(a.student_groups@)
    &&& l.comment == comment
    &&& l.subject_label == a.subject_label
}

/// `l` is the lesson `o` shows, with the record's comment in place of its own.
pub open spec fn lesson_from_orig(l: Lesson, o: RawOriginalLesson, comment: Option<String>) -> bool {
    &&& l.room == o.room.name
    &&& l.subject == subject_of(o.subject)
    &&& l.teachers@ == teachers_of(o.teachers@)
    &&& l.classes@ == class_names(o.classes@)
    &&& l.student_groups@ == group_names(o.student_groups@)
    &&& l.comment == comment
    &&& l.subject_label == o.subject_label
}

pub open spec fn event_from(e: Event, r: RawEvent) -> bool {
    &&& e.text == r.text
    &&& e.teachers@ == teachers_of(r.teachers@)
    &&& e.classes@ == class_names(r.classes@)
    &&& e.student_groups@ == group_names(r.student_groups@)
}

/// The record carries a non-empty list of original lessons.
pub open spec fn has_originals(d: Datum) -> bool {
    d.original_lessons matches Some(os) && os@.len() > 0
}

/// The last of the record's original lessons.
pub open spec fn last_original(d: Datum) -> RawOriginalLesson {
    d.original_lessons->Some_0@.last()
}

/// The record holds what the first matching classification rule needs.
pub open spec fn classifiable(d: Datum) -> bool {
    if d.is_substitution is Some {
        d.actual_lesson is Some && has_originals(d)
    } else if d.is_cancelled is Some {
        has_originals(d)
    } else if d.is_new is Some {
        d.event is Some
    } else {
        d.actual_lesson is Some
    }
}

/// `e` is what record `d` means: the first rule whose marker is present wins,
/// in the order substitution, cancellation, event, regular lesson; an
/// original lesson is the last of the record's list.
pub open spec fn classified(d: Datum, e: TimetableElement) -> bool {
    if d.is_substitution is Some {
        &&& e matches TimetableElement::Substitution(actual, orig)
        &&& lesson_from_actual(actual, d.actual_lesson->Some_0, d.comment)
        &&& lesson_from_orig(orig, last_original(d), d.comment)
    } else if d.is_cancelled is Some {
        &&& e matches TimetableElement::Cancelled(orig)
        &&& lesson_from_orig(orig, last_original(d), d.comment)
    } else if d.is_new is Some {
        &&& e matches TimetableElement::Event(ev)
        &&& event_from(ev, d.event->Some_0)
    } else {
        &&& e matches TimetableElement::Lesson(l)
        &&& lesson_from_actual(l, d.actual_lesson->Some_0, d.comment)
    }
}

/// The error that keeps record `d` out of a calendar, if any: checked in the
/// order classification, date, period.
pub open spec fn placement_error(d: Datum) -> Option<SmError> {
    if !classifiable(d) {
        Some(SmError::MalformedRecord)
    } else if iso_date_of(d.date@) is None {
        Some(SmError::DateParseError)
    } else if decimal_number(d.class_hour.number@) is None {
        Some(SmError::PeriodParseError)
    } else {
        None
    }
}

/// `p` is record `d` classified and placed at its date and period.
pub open spec fn placed(d: Datum, p: Placement) -> bool {
    &&& placement_error(d) is None
    &&& classified(d, p.element)
    &&& p.date.valid()
    &&& iso_date_of(d.date@) == Some(p.date.ymd())
    &&& decimal_number(d.class_hour.number@) == Some(p.period as int)
}

/// `ps` is the records `ds`, each placed, in order.
pub open spec fn all_placed(ds: Seq<Datum>, ps: Seq<Placement>) -> bool {
    &&& ps.len() == ds.len()
    &&& forall|i: int| 0 <= i < ds.len() ==> #[trigger] placed(ds[i], ps[i])
}

/// The first record of `ds` that cannot be placed, if any.
pub open spec fn first_failure(ds: Seq<Datum>, i: int) -> bool {
    &&& 0 <= i < ds.len()
    &&& placement_error(ds[i]) is Some
    &&& forall|k: int| 0 <= k < i ==> placement_error(#[trigger] ds[k]) is None
}

/// The elements of the placements that `keep` selects, in input order.
pub open spec fn picked(ps: Seq<Placement>, keep: spec_fn(Placement) -> bool) -> Seq<TimetableElement>
    decreases ps.len(),
{
    if ps.len() == 0 {
        seq![]
    } else if keep(ps.last()) {
        picked(ps.drop_last(), keep).push(ps.last().element)
    } else {
        picked(ps.drop_last(), keep)
    }
}

/// Selects the placements at date `d` and period `p`.
pub open spec fn at_date(d: CalendarDate, p: int) -> spec_fn(Placement) -> bool {
    |x: Placement| x.date == d && x.period as int == p
}

/// Selects the placements on weekday `wd` (0 for Monday) and period `p`.
pub open spec fn at_weekday(wd: int, p: int) -> spec_fn(Placement) -> bool {
    |x: Placement| weekday_of(x.date) == wd && x.period as int == p
}

/// Selects the placements on a Saturday or a Sunday.
pub open spec fn on_weekend() -> spec_fn(Placement) -> bool {
    |x: Placement| weekday_of(x.date) >= 5
}

/// The list held under `key`, empty when there is none.
pub open spec fn bucket(m: BTreeMap<usize, Vec<TimetableElement>>, key: int) -> Seq<TimetableElement> {
    if 0 <= key <= usize::MAX && m@.contains_key(key as usize) {
        m@[key as usize]@
    } else {
        seq![]
    }
}

pub proof fn lemma_picked_step(ps: Seq<Placement>, k: int, keep: spec_fn(Placement) -> bool)
    requires
        0 <= k < ps.len(),
    ensures
        picked(ps.take(k + 1), keep) == if keep(ps[k]) {
            picked(ps.take(k), keep).push(ps[k].element)
        } else {
            picked(ps.take(k), keep)
        },
{
    assert(ps.take(k + 1).drop_last() =~= ps.take(k));
}

pub(crate) fn string_vec_calc(classes_s: Vec<RawClass>, groups: Vec<RawStudentGroup>) -> (r: (Vec<String>, Vec<String>))
    ensures
        r.0@ == class_names(classes_s@),
        r.1@ == group_names(groups@),
{
    let mut classes: Vec<String> = Vec::new();
    let mut student_groups: Vec<String> = Vec::new();
    let mut i: usize = 0;
    while i < classes_s.len()
        invariant
            i <= classes_s.len(),
            classes@ == class_names(classes_s@.take(i as int)),
        decreases classes_s.len() - i,
    {
        classes.push(classes_s[i].name.clone());
        assert(class_names(classes_s@.take(i + 1)) =~= class_names(classes_s@.take(i as int)).push(
            classes_s@[i as int].name,
        ));
        i = i + 1;
    }
    assert(classes_s@.take(i as int) =~= classes_s@);
    let mut j: usize = 0;
    while j < groups.len()
        invariant
            j <= groups.len(),
            student_groups@ == group_names(groups@.take(j as int)),
        decreases groups.len() - j,
    {
        student_groups.push(groups[j].name.clone());
        assert(group_names(groups@.take(j + 1)) =~= group_names(groups@.take(j as int)).push(
            groups@[j as int].name,
        ));
        j = j + 1;
    }
    assert(groups@.take(j as int) =~= groups@);
    (classes, student_groups)
}

pub(crate) fn copy_opt(o: &Option<String>) -> (r: Option<String>)
    ensures
        r == *o,
{
    match o {
        Some(s) => Some(s.clone()),
        None => None,
    }
}

impl Subject {
    pub fn new(subj: RawSubject) -> (r: Self)
        ensures
            r == subject_of(subj),
    {
        Subject { abbreviation: subj.abbreviation, name: subj.name }
    }
}

impl Teacher {
    pub fn new(teacher: RawTeacher) -> (r: Self)
        ensures
            r == teacher_of(teacher),
    {
        Teacher {
            abbreviation: teacher.abbreviation,
            firstname: teacher.firstname,
            lastname: teacher.lastname,
        }
    }

    pub fn new_vec(iteachers: Vec<RawTeacher>) -> (r: Vec<Self>)
        ensures
            r@ == teachers_of(iteachers@),
    {
        let mut teachers: Vec<Teacher> = Vec::new();
        let mut i: usize = 0;
        while i < iteachers.len()
            invariant
                i <= iteachers.len(),
                teachers@ == teachers_of(iteachers@.take(i as int)),
            decreases iteachers.len() - i,
        {
            let t = &iteachers[i];
            teachers.push(
                Teacher {
                    abbreviation: t.abbreviation.clone(),
                    firstname: copy_opt(&t.firstname),
                    lastname: copy_opt(&t.lastname),
                },
            );
            assert(teachers_of(iteachers@.take(i + 1)) =~= teachers_of(iteachers@.take(i as int)).push(
                teacher_of(iteachers@[i as int]),
            ));
            i = i + 1;
        }
        assert(iteachers@.take(i as int) =~= iteachers@);
        teachers
    }
}

impl Lesson {
    pub fn from_actual(lesson: RawActualLesson, comment: Option<String>) -> (r: Self)
        ensures
            lesson_from_actual(r, lesson, comment),
    {
        let (classes, student_groups) = string_vec_calc(lesson.classes, lesson.student_groups);
        Lesson {
            room: lesson.room.name,
            subject: Subject::new(lesson.subject),
            teachers: Teacher::new_vec(lesson.teachers),
            classes,
            student_groups,
            comment,
            subject_label: lesson.subject_label,
        }
    }

    pub fn from_orig(lesson: RawOriginalLesson, comment: Option<String>) -> (r: Self)
        ensures
            lesson_from_orig(r, lesson, comment),
    {
        let (classes, student_groups) = string_vec_calc(lesson.classes, lesson.student_groups);
        Lesson {
            room: lesson.room.name,
            subject: Subject::new(lesson.subject),
            teachers: Teacher::new_vec(lesson.teachers),
            classes,
            student_groups,
            comment,
            subject_label: lesson.subject_label,
        }
    }

    /// The last of the original lessons, or `None` when there is none.
    pub fn from_orig_vec(lessons: Vec<RawOriginalLesson>, comment: Option<String>) -> (r: Option<Self>)
        ensures
            match r {
                Some(l) => lessons@.len() > 0 && lesson_from_orig(l, lessons@.last(), comment),
                None => lessons@.len() == 0,
            },
    {
        let mut lessons = lessons;
        match lessons.pop() {
            Some(last) => Some(Lesson::from_orig(last, comment)),
            None => None,
        }
    }
}

impl Event {
    pub fn new(event: RawEvent) -> (r: Self)
        ensures
            event_from(r, event),
    {
        let (classes, student_groups) = string_vec_calc(event.classes, event.student_groups);
        Event {
            text: event.text,
            teachers: Teacher::new_vec(event.teachers),
            classes,
            student_groups,
        }
    }
}

/// Classifies one schedule record. The first rule whose marker is present
/// decides: substitution, then cancellation, then event, else a regular
/// lesson. A record that lacks what its rule needs is a `MalformedRecord`.
pub fn classify(datum: Datum) -> (r: Result<TimetableElement, SmError>)
    ensures
        match r {
            Ok(e) => classifiable(datum) && classified(datum, e),
            Err(e) => !classifiable(datum) && e == SmError::MalformedRecord,
        },
{
    let Datum { actual_lesson, comment, original_lessons, event, is_substitution, is_cancelled, is_new, .. } = datum;
    if is_substitution.is_some() {
        let actual = match actual_lesson {
            Some(a) => a,
            None => return Err(SmError::MalformedRecord),
        };
        let originals = match original_lessons {
            Some(os) => os,
            None => return Err(SmError::MalformedRecord),
        };
        let orig = match Lesson::from_orig_vec(originals, copy_opt(&comment)) {
            Some(o) => o,
            None => return Err(SmError::MalformedRecord),
        };
        Ok(TimetableElement::Substitution(Lesson::from_actual(actual, comment), orig))
    } else if is_cancelled.is_some() {
        let originals = match original_lessons {
            Some(os) => os,
            None => return Err(SmError::MalformedRecord),
        };
        match Lesson::from_orig_vec(originals, comment) {
            Some(o) => Ok(TimetableElement::Cancelled(o)),
            None => Err(SmError::MalformedRecord),
        }
    } else if is_new.is_some() {
        match event {
            Some(ev) => Ok(TimetableElement::Event(Event::new(ev))),
            None => Err(SmError::MalformedRecord),
        }
    } else {
        match actual_lesson {
            Some(a) => Ok(TimetableElement::Lesson(Lesson::from_actual(a, comment))),
            None => Err(SmError::MalformedRecord),
        }
    }
}

/// Classifies one record and reads its date and period number.
pub fn place(datum: Datum) -> (r: Result<Placement, SmError>)
    ensures
        match r {
            Ok(p) => placement_error(datum) is None && placed(datum, p),
            Err(e) => placement_error(datum) == Some(e),
        },
{
    let ghost d = datum;
    let date_text = datum.date.clone();
    let number = datum.class_hour.number.clone();
    let element = match classify(datum) {
        Ok(e) => e,
        Err(e) => return Err(e),
    };
    let date = match CalendarDate::parse(date_text.as_str()) {
        Some(x) => x,
        None => return Err(SmError::DateParseError),
    };
    let period = match parse_decimal(&number) {
        Some(n) => n,
        None => return Err(SmError::PeriodParseError),
    };
    Ok(Placement { date, period, element })
}

/// Places every record in order, or reports the error of the first one that
/// cannot be placed.
pub fn place_all(data: Vec<Datum>) -> (r: Result<Vec<Placement>, SmError>)
    ensures
        match r {
            Ok(ps) => all_placed(data@, ps@),
            Err(e) => exists|i: int| first_failure(data@, i) && placement_error(data@[i]) == Some(e),
        },
{
    let ghost all = data@;
    let n = data.len();
    let mut rest = data;
    let mut out: Vec<Placement> = Vec::new();
    let mut k: usize = 0;
    while rest.len() > 0
        invariant
            k + rest@.len() == all.len(),
            all.len() == n,
            all == data@,
            rest@ == all.subrange(k as int, all.len() as int),
            out@.len() == k,
            forall|i: int| 0 <= i < k ==> #[trigger] placed(all[i], out@[i]),
            forall|i: int| 0 <= i < k ==> placement_error(#[trigger] all[i]) is None,
        decreases rest@.len(),
    {
        let d = rest.remove(0);
        assert(d == all[k as int]);
        match place(d) {
            Ok(p) => out.push(p),
            Err(e) => {
                assert(first_failure(all, k as int));
                assert(placement_error(all[k as int]) == Some(e));
                assert(first_failure(all, k as int) && placement_error(all[k as int]) == Some(e));
                return Err(e);
            },
        }
        k = k + 1;
    }
    Ok(out)
}

/// Every period that is a key holds at least one element, so that a period
/// is a key exactly when its list is non-empty.
pub open spec fn no_empty_buckets(m: BTreeMap<usize, Vec<TimetableElement>>) -> bool {
    forall|p: usize| #[trigger] m@.contains_key(p) ==> m@[p]@.len() > 0
}

/// Appends `value` to the list under `key`, creating the list when absent.
pub fn check_treemap(map: &mut BTreeMap<usize, Vec<TimetableElement>>, key: usize, value: TimetableElement)
    ensures
        final(map)@.dom() == old(map)@.dom().insert(key),
        bucket(*final(map), key as int) == bucket(*old(map), key as int).push(value),
        forall|k: usize| k != key ==> #[trigger] final(map)@.get(k) == old(map)@.get(k),
        no_empty_buckets(*old(map)) ==> no_empty_buckets(*final(map)),
{
    match map.remove(&key) {
        Some(list) => {
            let mut list = list;
            list.push(value);
            map.insert(key, list);
        },
        None => {
            let mut list: Vec<TimetableElement> = Vec::new();
            list.push(value);
            map.insert(key, list);
        },
    }
}

/// The key under which a date's periods are kept: ordered as the dates are.
pub open spec fn date_key(d: CalendarDate) -> (i32, (u32, u32)) {
    (d.year, (d.month, d.day))
}

/// The elements a date-keyed map holds at date `d` and period `p`.
pub open spec fn date_slot(
    map: BTreeMap<(i32, (u32, u32)), BTreeMap<usize, Vec<TimetableElement>>>,
    d: CalendarDate,
    p: int,
) -> Seq<TimetableElement> {
    if map@.contains_key(date_key(d)) {
        bucket(map@[date_key(d)], p)
    } else {
        seq![]
    }
}

pub proof fn lemma_picked_len(ps: Seq<Placement>, keep: spec_fn(Placement) -> bool)
    ensures
        picked(ps, keep).len() <= ps.len(),
    decreases ps.len(),
{
    if ps.len() > 0 {
        lemma_picked_len(ps.drop_last(), keep);
    }
}

/// Appending to the list under `key` of `m` changes no other list.
proof fn lemma_bucket_after_append(
    old_m: BTreeMap<usize, Vec<TimetableElement>>,
    new_m: BTreeMap<usize, Vec<TimetableElement>>,
    key: usize,
    value: TimetableElement,
    p: int,
)
    requires
        bucket(new_m, key as int) == bucket(old_m, key as int).push(value),
        forall|k: usize| k != key ==> #[trigger] new_m@.get(k) == old_m@.get(k),
    ensures
        bucket(new_m, p) == if p == key as int {
            bucket(old_m, p).push(value)
        } else {
            bucket(old_m, p)
        },
{
    if p != key as int && 0 <= p <= usize::MAX {
        assert(new_m@.get(p as usize) == old_m@.get(p as usize));
    }
}

/// Every record of `ds` can be placed.
pub open spec fn buildable(ds: Seq<Datum>) -> bool {
    forall|i: int| 0 <= i < ds.len() ==> placement_error(#[trigger] ds[i]) is None
}

/// `e` is the error of the first record of `ds` that cannot be placed.
pub open spec fn build_error(ds: Seq<Datum>, e: SmError) -> bool {
    exists|i: int| first_failure(ds, i) && placement_error(#[trigger] ds[i]) == Some(e)
}

/// `m` files the records `ds`, each classified, by date and period.
pub open spec fn is_day_map_of(ds: Seq<Datum>, m: DayMap) -> bool {
    exists|ps: Seq<Placement>| #[trigger] all_placed(ds, ps)
        && (forall|d: CalendarDate, p: int| #[trigger] m.slot(d, p) == picked(ps, at_date(d, p)))
        && day_map_shaped(m.map)
}

/// `w` files the records `ds` dated Monday to Friday, each classified, by
/// weekday and period, and counts the others.
pub open spec fn is_week_of(ds: Seq<Datum>, w: Weekdays) -> bool {
    exists|ps: Seq<Placement>| #[trigger] all_placed(ds, ps)
        && (forall|wd: int, p: int| #[trigger] w.slot(wd, p) == if 0 <= wd < 5 {
            picked(ps, at_weekday(wd, p))
        } else {
            seq![]
        })
        && w.weekend_records == picked(ps, on_weekend()).len()
        && w.shaped()
}

/// Every date that is a key holds at least one period, and every period that
/// is a key at least one element.
pub open spec fn day_map_shaped(
    map: BTreeMap<(i32, (u32, u32)), BTreeMap<usize, Vec<TimetableElement>>>,
) -> bool {
    forall|k: (i32, (u32, u32))| #[trigger] map@.contains_key(k) ==> no_empty_buckets(map@[k]) && exists|p: usize|
        map@[k]@.contains_key(p)
}

/// The calendar over all dates: for each date, the elements of each period.
#[derive(Debug)]
pub struct DayMap {
    pub map: BTreeMap<(i32, (u32, u32)), BTreeMap<usize, Vec<TimetableElement>>>,
}

impl DayMap {
    /// The elements at date `d` and period `p`, in arrival order.
    pub open spec fn slot(self, d: CalendarDate, p: int) -> Seq<TimetableElement> {
        date_slot(self.map, d, p)
    }

    /// Files every placement under its date and period, keeping input order
    /// within each period.
    pub fn from_placements(placements: Vec<Placement>) -> (r: DayMap)
        ensures
            forall|d: CalendarDate, p: int| #[trigger] r.slot(d, p) == picked(placements@, at_date(d, p)),
            day_map_shaped(r.map),
    {
        let ghost all = placements@;
        let n = placements.len();
        let mut rest = placements;
        let mut map: BTreeMap<(i32, (u32, u32)), BTreeMap<usize, Vec<TimetableElement>>> = BTreeMap::new();
        let mut k: usize = 0;
        while rest.len() > 0
            invariant
                k + rest@.len() == all.len(),
                all.len() == n,
                all == placements@,
                rest@ == all.subrange(k as int, all.len() as int),
                forall|d: CalendarDate, p: int| #[trigger] date_slot(map, d, p) == picked(all.take(k as int), at_date(d, p)),
                day_map_shaped(map),
            decreases rest@.len(),
        {
            let pl = rest.remove(0);
            assert(pl == all[k as int]);
            let ghost old_map = map;
            let key = (pl.date.year, (pl.date.month, pl.date.day));
            let mut inner = match map.remove(&key) {
                Some(m) => m,
                None => BTreeMap::new(),
            };
            let ghost old_inner = inner;
            let period = pl.period;
            check_treemap(&mut inner, period, pl.element);
            map.insert(key, inner);
            proof {
                assert forall|q: (i32, (u32, u32))| #[trigger] map@.contains_key(q) implies no_empty_buckets(map@[q])
                    && exists|p: usize| map@[q]@.contains_key(p) by {
                    if q == key {
                        assert(old_map@.contains_key(key) ==> old_inner == old_map@[key]);
                        assert(no_empty_buckets(old_inner));
                        assert(map@[q] == inner);
                        assert(inner@.contains_key(period));
                        assert(no_empty_buckets(inner));
                    } else {
                        assert(old_map@.contains_key(q));
                        assert(map@[q] == old_map@[q]);
                        assert(no_empty_buckets(old_map@[q]));
                        let p0 = choose|p: usize| old_map@[q]@.contains_key(p);
                        assert(map@[q]@.contains_key(p0));
                    }
                }
                assert(map@ == old_map@.remove(key).insert(key, inner));
                assert forall|d: CalendarDate, p: int| #[trigger] date_slot(map, d, p) == picked(all.take(k + 1), at_date(d, p)) by {
                    lemma_picked_step(all, k as int, at_date(d, p));
                    assert(date_slot(old_map, d, p) == picked(all.take(k as int), at_date(d, p)));
                    assert(at_date(d, p)(all[k as int]) == (d == all[k as int].date && p == period as int));
                    if date_key(d) == key {
                        assert(d == all[k as int].date);
                        assert(old_map@.contains_key(key) ==> old_inner == old_map@[key]);
                        assert(!old_map@.contains_key(key) ==> bucket(old_inner, p) == Seq::<TimetableElement>::empty());
                        lemma_bucket_after_append(old_inner, inner, period, all[k as int].element, p);
                    } else {
                        assert(map@.contains_key(date_key(d)) == old_map@.contains_key(date_key(d)));
                        assert(map@.contains_key(date_key(d)) ==> map@[date_key(d)] == old_map@[date_key(d)]);
                    }
                }
            }
            k = k + 1;
        }
        assert(all.take(n as int) =~= all);
        DayMap { map }
    }

    /// Builds the date-keyed calendar of one timetable result: every record
    /// classified and filed, or the error of the first record that cannot be.
    pub fn from_interna(interna_timetable: Results) -> (r: Result<Self, SmError>)
        ensures
            match r {
                Ok(m) => is_day_map_of(interna_timetable.data@, m),
                Err(e) => build_error(interna_timetable.data@, e),
            },
    {
        match place_all(interna_timetable.data) {
            Ok(ps) => {
                let ghost pv = ps@;
                let m = DayMap::from_placements(ps);
                assert(all_placed(interna_timetable.data@, pv));
                Ok(m)
            },
            Err(e) => Err(e),
        }
    }
}

/// The calendar of one school week: Monday to Friday, each with the elements
/// of each period. Records on a Saturday or Sunday have no place in it; they
/// are counted in `weekend_records`.
#[derive(Debug)]
pub struct Weekdays {
    pub monday: BTreeMap<usize, Vec<TimetableElement>>,
    pub tuesday: BTreeMap<usize, Vec<TimetableElement>>,
    pub wednesday: BTreeMap<usize, Vec<TimetableElement>>,
    pub thursday: BTreeMap<usize, Vec<TimetableElement>>,
    pub friday: BTreeMap<usize, Vec<TimetableElement>>,
    pub weekend_records: usize,
}

/// The elements a week holds on weekday `wd` (0 for Monday) and period `p`.
pub open spec fn week_slot(
    days: (
        BTreeMap<usize, Vec<TimetableElement>>,
        BTreeMap<usize, Vec<TimetableElement>>,
        BTreeMap<usize, Vec<TimetableElement>>,
        BTreeMap<usize, Vec<TimetableElement>>,
        BTreeMap<usize, Vec<TimetableElement>>,
    ),
    wd: int,
    p: int,
) -> Seq<TimetableElement> {
    if wd == 0 {
        bucket(days.0, p)
    } else if wd == 1 {
        bucket(days.1, p)
    } else if wd == 2 {
        bucket(days.2, p)
    } else if wd == 3 {
        bucket(days.3, p)
    } else if wd == 4 {
        bucket(days.4, p)
    } else {
        seq![]
    }
}

impl Weekdays {
    /// No day holds a period without elements.
    pub open spec fn shaped(self) -> bool {
        &&& no_empty_buckets(self.monday)
        &&& no_empty_buckets(self.tuesday)
        &&& no_empty_buckets(self.wednesday)
        &&& no_empty_buckets(self.thursday)
        &&& no_empty_buckets(self.friday)
    }

    /// The elements on weekday `wd` (0 for Monday) at period `p`; always empty
    /// for Saturday and Sunday.
    pub open spec fn slot(self, wd: int, p: int) -> Seq<TimetableElement> {
        week_slot((self.monday, self.tuesday, self.wednesday, self.thursday, self.friday), wd, p)
    }

    /// Files every placement dated Monday to Friday under its weekday and
    /// period, keeping input order within each period, and counts the others.
    pub fn from_placements(placements: Vec<Placement>) -> (r: Weekdays)
        requires
            forall|i: int| 0 <= i < placements@.len() ==> (#[trigger] placements@[i]).date.valid(),
        ensures
            forall|wd: int, p: int| #[trigger] r.slot(wd, p) == if 0 <= wd < 5 {
                picked(placements@, at_weekday(wd, p))
            } else {
                seq![]
            },
            r.weekend_records == picked(placements@, on_weekend()).len(),
            r.shaped(),
    {
        let ghost all = placements@;
        let n = placements.len();
        let mut rest = placements;
        let mut mon: BTreeMap<usize, Vec<TimetableElement>> = BTreeMap::new();
        let mut tue: BTreeMap<usize, Vec<TimetableElement>> = BTreeMap::new();
        let mut wed: BTreeMap<usize, Vec<TimetableElement>> = BTreeMap::new();
        let mut thu: BTreeMap<usize, Vec<TimetableElement>> = BTreeMap::new();
        let mut fri: BTreeMap<usize, Vec<TimetableElement>> = BTreeMap::new();
        let mut weekend: usize = 0;
        let mut k: usize = 0;
        while rest.len() > 0
            invariant
                k + rest@.len() == all.len(),
                all.len() == n,
                all == placements@,
                rest@ == all.subrange(k as int, all.len() as int),
                forall|i: int| 0 <= i < all.len() ==> (#[trigger] all[i]).date.valid(),
                forall|wd: int, p: int| #[trigger] week_slot((mon, tue, wed, thu, fri), wd, p) == if 0 <= wd < 5 {
                    picked(all.take(k as int), at_weekday(wd, p))
                } else {
                    seq![]
                },
                weekend as int == picked(all.take(k as int), on_weekend()).len(),
                no_empty_buckets(mon) && no_empty_buckets(tue) && no_empty_buckets(wed),
                no_empty_buckets(thu) && no_empty_buckets(fri),
            decreases rest@.len(),
        {
            let pl = rest.remove(0);
            assert(pl == all[k as int]);
            let ghost old_days = (mon, tue, wed, thu, fri);
            let wd = pl.date.weekday();
            let period = pl.period;
            let ghost elem = pl.element;
            proof {
                lemma_picked_step(all, k as int, on_weekend());
                lemma_picked_len(all.take(k as int), on_weekend());
            }
            if wd == 0 {
                check_treemap(&mut mon, period, pl.element);
            } else if wd == 1 {
                check_treemap(&mut tue, period, pl.element);
            } else if wd == 2 {
                check_treemap(&mut wed, period, pl.element);
            } else if wd == 3 {
                check_treemap(&mut thu, period, pl.element);
            } else if wd == 4 {
                check_treemap(&mut fri, period, pl.element);
            } else {
                weekend = weekend + 1;
            }
            proof {
                assert forall|w: int, p: int| #[trigger] week_slot((mon, tue, wed, thu, fri), w, p) == if 0 <= w < 5 {
                    picked(all.take(k + 1), at_weekday(w, p))
                } else {
                    seq![]
                } by {
                    lemma_picked_step(all, k as int, at_weekday(w, p));
                    assert(week_slot(old_days, w, p) == if 0 <= w < 5 {
                        picked(all.take(k as int), at_weekday(w, p))
                    } else {
                        seq![]
                    });
                    assert(at_weekday(w, p)(all[k as int]) == (w == wd as int && p == period as int));
                    if w == wd as int {
                        if w == 0 {
                            lemma_bucket_after_append(old_days.0, mon, period, elem, p);
                        } else if w == 1 {
                            lemma_bucket_after_append(old_days.1, tue, period, elem, p);
                        } else if w == 2 {
                            lemma_bucket_after_append(old_days.2, wed, period, elem, p);
                        } else if w == 3 {
                            lemma_bucket_after_append(old_days.3, thu, period, elem, p);
                        } else if w == 4 {
                            lemma_bucket_after_append(old_days.4, fri, period, elem, p);
                        }
                    }
                }
            }
            k = k + 1;
        }
        assert(all.take(n as int) =~= all);
        Weekdays { monday: mon, tuesday: tue, wednesday: wed, thursday: thu, friday: fri, weekend_records: weekend }
    }

    /// Builds the week calendar of one timetable result: every record
    /// classified, and those dated Monday to Friday filed; or the error of the
    /// first record that cannot be classified or read.
    pub fn from_interna(interna_timetable: Results) -> (r: Result<Self, SmError>)
        ensures
            match r {
                Ok(w) => is_week_of(interna_timetable.data@, w),
                Err(e) => build_error(interna_timetable.data@, e),
            },
    {
        match place_all(interna_timetable.data) {
            Ok(ps) => {
                let ghost pv = ps@;
                assert forall|i: int| 0 <= i < pv.len() implies (#[trigger] pv[i]).date.valid() by {
                    assert(placed(interna_timetable.data@[i], pv[i]));
                }
                let w = Weekdays::from_placements(ps);
                assert(all_placed(interna_timetable.data@, pv));
                Ok(w)
            },
            Err(e) => Err(e),
        }
    }
}

/// A placement that `keep` does not select can be left out without changing
/// what `keep` picks.
pub proof fn lemma_picked_skip(ps: Seq<Placement>, i: int, keep: spec_fn(Placement) -> bool)
    requires
        0 <= i < ps.len(),
        !keep(ps[i]),
    ensures
        picked(ps, keep) == picked(ps.remove(i), keep),
    decreases ps.len(),
{
    if i == ps.len() - 1 {
        assert(ps.remove(i) =~= ps.drop_last());
    } else {
        assert(ps.remove(i).drop_last() =~= ps.drop_last().remove(i));
        assert(ps.remove(i).last() == ps.last());
        lemma_picked_skip(ps.drop_last(), i, keep);
    }
}

/// The element of a placement that `keep` selects is among those picked.
pub proof fn lemma_picked_contains(ps: Seq<Placement>, i: int, keep: spec_fn(Placement) -> bool)
    requires
        0 <= i < ps.len(),
        keep(ps[i]),
    ensures
        picked(ps, keep).contains(ps[i].element),
    decreases ps.len(),
{
    if i == ps.len() - 1 {
        let prev = picked(ps.drop_last(), keep);
        assert(picked(ps, keep)[prev.len() as int] == ps[i].element);
    } else {
        lemma_picked_contains(ps.drop_last(), i, keep);
        let prev = picked(ps.drop_last(), keep);
        let j = choose|j: int| 0 <= j < prev.len() && prev[j] == ps[i].element;
        assert(picked(ps, keep)[j] == ps[i].element);
    }
}

/// A record dated on a Saturday or a Sunday is absent from the week calendar
/// and present in the date calendar: leaving it out changes no Monday to
/// Friday slot, and its element is in the slot of its own date and period.
pub proof fn lemma_weekend_exclusion(ps: Seq<Placement>, i: int)
    requires
        0 <= i < ps.len(),
        weekday_of(ps[i].date) >= 5,
    ensures
        forall|wd: int, p: int| 0 <= wd < 5 ==> #[trigger] picked(ps, at_weekday(wd, p)) == picked(ps.remove(i), at_weekday(wd, p)),
        picked(ps, at_date(ps[i].date, ps[i].period as int)).contains(ps[i].element),
{
    assert forall|wd: int, p: int| 0 <= wd < 5 implies #[trigger] picked(ps, at_weekday(wd, p)) == picked(ps.remove(i), at_weekday(wd, p)) by {
        lemma_picked_skip(ps, i, at_weekday(wd, p));
    }
    lemma_picked_contains(ps, i, at_date(ps[i].date, ps[i].period as int));
}

/// Each marker tested alone selects its own variant, and no marker at all
/// selects a regular lesson.
pub proof fn lemma_classification_exhaustive(d: Datum, e: TimetableElement)
    requires
        classified(d, e),
    ensures
        d.is_substitution is Some ==> e is Substitution,
        d.is_substitution is None && d.is_cancelled is Some ==> e is Cancelled,
        d.is_substitution is None && d.is_cancelled is None && d.is_new is Some ==> e is Event,
        d.is_substitution is None && d.is_cancelled is None && d.is_new is None ==> e is Lesson,
{
}

/// Two selections that agree on every placement pick the same elements.
pub proof fn lemma_picked_agree(ps: Seq<Placement>, keep: spec_fn(Placement) -> bool, other: spec_fn(Placement) -> bool)
    requires
        forall|i: int| 0 <= i < ps.len() ==> keep(#[trigger] ps[i]) == other(ps[i]),
    ensures
        picked(ps, keep) == picked(ps, other),
    decreases ps.len(),
{
    if ps.len() > 0 {
        assert(keep(ps[ps.len() - 1]) == other(ps[ps.len() - 1]));
        lemma_picked_agree(ps.drop_last(), keep, other);
    }
}

/// For records of one week the two calendars agree: when every placement on
/// weekday `wd` is dated `d`, the week slot of `wd` and the date slot of `d`
/// hold the same elements, period by period.
pub proof fn lemma_week_matches_dates(ps: Seq<Placement>, d: CalendarDate, wd: int, p: int)
    requires
        weekday_of(d) == wd,
        forall|i: int| 0 <= i < ps.len() && weekday_of((#[trigger] ps[i]).date) == wd ==> ps[i].date == d,
    ensures
        picked(ps, at_weekday(wd, p)) == picked(ps, at_date(d, p)),
{
    assert forall|i: int| 0 <= i < ps.len() implies at_weekday(wd, p)(#[trigger] ps[i]) == at_date(d, p)(ps[i]) by {
        if weekday_of(ps[i].date) == wd {
            assert(ps[i].date == d);
        }
    }
    lemma_picked_agree(ps, at_weekday(wd, p), at_date(d, p));
}

} // verus!
