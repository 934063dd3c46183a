use vstd::prelude::*;
use crate::errors::SmError;
use crate::json::{
    Json, array_member, bool_member, read_bool, get_member, member, opt_array_member, opt_bool_member, opt_str_member,
    opt_uint_member, opt_view, read_array, read_opt_array, read_opt_bool, read_opt_str,
    read_opt_uint, read_str, read_uint, str_member, take_member, uint_member,
};

verus! {

/// The period of the school day a record belongs to; `number` is the period
/// number as decimal text.
#[derive(Debug, Clone)]
pub struct ClassHour {
    pub id: usize,
    pub number: String,
}

#[derive(Debug, Clone)]
pub struct Room {
    pub id: usize,
    pub name: String,
}

#[derive(Debug, Clone)]
pub struct Subject {
    pub id: usize,
    pub abbreviation: String,
    pub name: String,
}

#[derive(Debug, Clone)]
pub struct Teacher {
    pub id: usize,
    pub abbreviation: String,
    pub firstname: Option<String>,
    pub lastname: Option<String>,
}

#[derive(Debug, Clone)]
pub struct Class {
    pub id: usize,
    pub name: String,
}

#[derive(Debug, Clone)]
pub struct StudentGroup {
    pub id: usize,
    pub name: String,
    pub class_id: Option<usize>,
}

/// A calendar event as the server sends it.
#[derive(Debug, Clone)]
pub struct Event {
    pub text: String,
    pub teachers: Vec<Teacher>,
    pub classes: Vec<Class>,
    pub student_groups: Vec<StudentGroup>,
    pub absence_id: usize,
}

/// The lesson that actually takes place.
#[derive(Debug, Clone)]
pub struct ActualLesson {
    pub room: Room,
    pub subject: Subject,
    pub teachers: Vec<Teacher>,
    pub classes: Vec<Class>,
    pub student_groups: Vec<StudentGroup>,
    pub comment: Option<String>,
    pub subject_label: String,
    pub lesson_id: Option<usize>,
    pub substitution_id: Option<usize>,
}

/// A lesson as originally planned, before a substitution or cancellation.
#[derive(Debug, Clone)]
pub struct OriginalLesson {
    pub room: Room,
    pub subject: Subject,
    pub teachers: Vec<Teacher>,
    pub classes: Vec<Class>,
    pub student_groups: Vec<StudentGroup>,
    pub comment: Option<String>,
    pub subject_label: String,
    pub lesson_id: usize,
}

/// One raw schedule record: one period of one school day. Which of the
/// optional parts are present decides what the record means.
#[derive(Debug)]
pub struct Datum {
    pub date: String,
    pub class_hour: ClassHour,
    pub actual_lesson: Option<ActualLesson>,
    pub comment: Option<String>,
    pub original_lessons: Option<Vec<OriginalLesson>>,
    pub event: Option<Event>,
    pub is_substitution: Option<bool>,
    pub is_cancelled: Option<bool>,
    pub is_new: Option<bool>,
}

/// One timetable result of a bundle: its status and its records.
#[derive(Debug)]
pub struct Results {
    pub status: u16,
    pub data: Vec<Datum>,
}

pub open spec fn opt_uint_view(o: Option<usize>) -> Option<int> {
    match o {
        Some(n) => Some(n as int),
        None => None,
    }
}

/// Every item has the shape `fits` describes.
pub open spec fn all_fit(items: Seq<Json>, fits: spec_fn(Json) -> bool) -> bool {
    forall|i: int| 0 <= i < items.len() ==> fits(#[trigger] items[i])
}

/// `xs` is read item by item from `items`.
pub open spec fn all_read<T>(items: Seq<Json>, xs: Seq<T>, read: spec_fn(Json, T) -> bool) -> bool {
    &&& items.len() == xs.len()
    &&& forall|i: int| 0 <= i < items.len() ==> read(#[trigger] items[i], xs[i])
}

/// Member `key` is an object of the shape `fits` describes.
pub open spec fn obj_fits(j: Json, key: Seq<char>, fits: spec_fn(Json) -> bool) -> bool {
    member(j, key) matches Some(o) && fits(o)
}

pub open spec fn obj_read<T>(j: Json, key: Seq<char>, x: T, read: spec_fn(Json, T) -> bool) -> bool {
    member(j, key) matches Some(o) && read(o, x)
}

/// Member `key` is absent, `null`, or an object of the shape `fits` describes.
pub open spec fn opt_obj_fits(j: Json, key: Seq<char>, fits: spec_fn(Json) -> bool) -> bool {
    match member(j, key) {
        None => true,
        Some(Json::Null) => true,
        Some(o) => fits(o),
    }
}

pub open spec fn opt_obj_read<T>(j: Json, key: Seq<char>, x: Option<T>, read: spec_fn(Json, T) -> bool) -> bool {
    match member(j, key) {
        None => x is None,
        Some(Json::Null) => x is None,
        Some(o) => x matches Some(v) && read(o, v),
    }
}

/// Member `key` is an array whose items have the shape `fits` describes.
pub open spec fn list_fits(j: Json, key: Seq<char>, fits: spec_fn(Json) -> bool) -> bool {
    array_member(j, key) matches Some(items) && all_fit(items, fits)
}

pub open spec fn list_read<T>(j: Json, key: Seq<char>, xs: Seq<T>, read: spec_fn(Json, T) -> bool) -> bool {
    array_member(j, key) matches Some(items) && all_read(items, xs, read)
}

/// Member `key` is absent, `null`, or an array of items of the shape `fits` describes.
pub open spec fn opt_list_fits(j: Json, key: Seq<char>, fits: spec_fn(Json) -> bool) -> bool {
    match opt_array_member(j, key) {
        Some(Some(items)) => all_fit(items, fits),
        Some(None) => true,
        None => false,
    }
}

pub open spec fn opt_list_read<T>(j: Json, key: Seq<char>, xs: Option<Vec<T>>, read: spec_fn(Json, T) -> bool) -> bool {
    match opt_array_member(j, key) {
        Some(Some(items)) => xs matches Some(v) && all_read(items, v@, read),
        Some(None) => xs is None,
        None => false,
    }
}

/// Reads every item with `f`, or `None` when one of them does not fit.
pub(crate) fn parse_list<T, F: Fn(&Json) -> Option<T>>(
    items: &Vec<Json>,
    f: F,
    Ghost(fits): Ghost<spec_fn(Json) -> bool>,
    Ghost(read): Ghost<spec_fn(Json, T) -> bool>,
) -> (r: Option<Vec<T>>)
    requires
        forall|j: &Json| #[trigger] f.requires((j,)),
        forall|j: &Json, x: Option<T>| #[trigger] f.ensures((j,), x) ==> match x {
            Some(v) => read(*j, v),
            None => !fits(*j),
        },
    ensures
        match r {
            Some(v) => all_read(items@, v@, read),
            None => !all_fit(items@, fits),
        },
{
    let mut out: Vec<T> = Vec::new();
    let mut i: usize = 0;
    while i < items.len()
        invariant
            i <= items.len(),
            out@.len() == i,
            forall|k: int| 0 <= k < i ==> read(#[trigger] items@[k], out@[k]),
            forall|j: &Json| #[trigger] f.requires((j,)),
            forall|j: &Json, x: Option<T>| #[trigger] f.ensures((j,), x) ==> match x {
                Some(v) => read(*j, v),
                None => !fits(*j),
            },
        decreases items.len() - i,
    {
        match f(&items[i]) {
            Some(x) => out.push(x),
            None => return None,
        }
        i = i + 1;
    }
    Some(out)
}

pub open spec fn room_fits(j: Json) -> bool {
    uint_member(j, "id"@) is Some && str_member(j, "name"@) is Some
}

pub open spec fn read_room(j: Json, r: Room) -> bool {
    uint_member(j, "id"@) == Some(r.id as int) && str_member(j, "name"@) == Some(r.name@)
}

pub open spec fn subject_fits(j: Json) -> bool {
    uint_member(j, "id"@) is Some && str_member(j, "abbreviation"@) is Some && str_member(j, "name"@) is Some
}

pub open spec fn read_subject(j: Json, s: Subject) -> bool {
    &&& uint_member(j, "id"@) == Some(s.id as int)
    &&& str_member(j, "abbreviation"@) == Some(s.abbreviation@)
    &&& str_member(j, "name"@) == Some(s.name@)
}

pub open spec fn teacher_fits(j: Json) -> bool {
    &&& uint_member(j, "id"@) is Some
    &&& str_member(j, "abbreviation"@) is Some
    &&& opt_str_member(j, "firstname"@) is Some
    &&& opt_str_member(j, "lastname"@) is Some
}

pub open spec fn read_teacher(j: Json, t: Teacher) -> bool {
    &&& uint_member(j, "id"@) == Some(t.id as int)
    &&& str_member(j, "abbreviation"@) == Some(t.abbreviation@)
    &&& opt_str_member(j, "firstname"@) == Some(opt_view(t.firstname))
    &&& opt_str_member(j, "lastname"@) == Some(opt_view(t.lastname))
}

pub open spec fn class_fits(j: Json) -> bool {
    uint_member(j, "id"@) is Some && str_member(j, "name"@) is Some
}

pub open spec fn read_class(j: Json, c: Class) -> bool {
    uint_member(j, "id"@) == Some(c.id as int) && str_member(j, "name"@) == Some(c.name@)
}

pub open spec fn group_fits(j: Json) -> bool {
    uint_member(j, "id"@) is Some && str_member(j, "name"@) is Some && opt_uint_member(j, "classId"@) is Some
}

pub open spec fn read_group(j: Json, g: StudentGroup) -> bool {
    &&& uint_member(j, "id"@) == Some(g.id as int)
    &&& str_member(j, "name"@) == Some(g.name@)
    &&& opt_uint_member(j, "classId"@) == Some(opt_uint_view(g.class_id))
}

pub open spec fn class_hour_fits(j: Json) -> bool {
    uint_member(j, "id"@) is Some && str_member(j, "number"@) is Some
}

pub open spec fn read_class_hour(j: Json, c: ClassHour) -> bool {
    uint_member(j, "id"@) == Some(c.id as int) && str_member(j, "number"@) == Some(c.number@)
}

/// The members that events and both kinds of lesson share: who teaches and who attends.
pub open spec fn people_fit(j: Json) -> bool {
    &&& list_fits(j, "teachers"@, |t: Json| teacher_fits(t))
    &&& list_fits(j, "classes"@, |c: Json| class_fits(c))
    &&& list_fits(j, "studentGroups"@, |g: Json| group_fits(g))
}

pub open spec fn read_people(j: Json, teachers: Seq<Teacher>, classes: Seq<Class>, groups: Seq<StudentGroup>) -> bool {
    &&& list_read(j, "teachers"@, teachers, |t: Json, x: Teacher| read_teacher(t, x))
    &&& list_read(j, "classes"@, classes, |c: Json, x: Class| read_class(c, x))
    &&& list_read(j, "studentGroups"@, groups, |g: Json, x: StudentGroup| read_group(g, x))
}

pub open spec fn event_fits(j: Json) -> bool {
    str_member(j, "text"@) is Some && people_fit(j) && uint_member(j, "absenceId"@) is Some
}

pub open spec fn read_event(j: Json, e: Event) -> bool {
    &&& str_member(j, "text"@) == Some(e.text@)
    &&& read_people(j, e.teachers@, e.classes@, e.student_groups@)
    &&& uint_member(j, "absenceId"@) == Some(e.absence_id as int)
}

pub open spec fn actual_lesson_fits(j: Json) -> bool {
    &&& obj_fits(j, "room"@, |o: Json| room_fits(o))
    &&& obj_fits(j, "subject"@, |o: Json| subject_fits(o))
    &&& people_fit(j)
    &&& opt_str_member(j, "comment"@) is Some
    &&& str_member(j, "subjectLabel"@) is Some
    &&& opt_uint_member(j, "lessonId"@) is Some
    &&& opt_uint_member(j, "substitutionId"@) is Some
}

pub open spec fn read_actual_lesson(j: Json, l: ActualLesson) -> bool {
    &&& obj_read(j, "room"@, l.room, |o: Json, x: Room| read_room(o, x))
    &&& obj_read(j, "subject"@, l.subject, |o: Json, x: Subject| read_subject(o, x))
    &&& read_people(j, l.teachers@, l.classes@, l.student_groups@)
    &&& opt_str_member(j, "comment"@) == Some(opt_view(l.comment))
    &&& str_member(j, "subjectLabel"@) == Some(l.subject_label@)
    &&& opt_uint_member(j, "lessonId"@) == Some(opt_uint_view(l.lesson_id))
    &&& opt_uint_member(j, "substitutionId"@) == Some(opt_uint_view(l.substitution_id))
}

pub open spec fn original_lesson_fits(j: Json) -> bool {
    &&& obj_fits(j, "room"@, |o: Json| room_fits(o))
    &&& obj_fits(j, "subject"@, |o: Json| subject_fits(o))
    &&& people_fit(j)
    &&& opt_str_member(j, "comment"@) is Some
    &&& str_member(j, "subjectLabel"@) is Some
    &&& uint_member(j, "lessonId"@) is Some
}

pub open spec fn read_original_lesson(j: Json, l: OriginalLesson) -> bool {
    &&& obj_read(j, "room"@, l.room, |o: Json, x: Room| read_room(o, x))
    &&& obj_read(j, "subject"@, l.subject, |o: Json, x: Subject| read_subject(o, x))
    &&& read_people(j, l.teachers@, l.classes@, l.student_groups@)
    &&& opt_str_member(j, "comment"@) == Some(opt_view(l.comment))
    &&& str_member(j, "subjectLabel"@) == Some(l.subject_label@)
    &&& uint_member(j, "lessonId"@) == Some(l.lesson_id as int)
}

pub open spec fn datum_fits(j: Json) -> bool {
    &&& str_member(j, "date"@) is Some
    &&& obj_fits(j, "classHour"@, |o: Json| class_hour_fits(o))
    &&& opt_obj_fits(j, "actualLesson"@, |o: Json| actual_lesson_fits(o))
    &&& opt_str_member(j, "comment"@) is Some
    &&& opt_list_fits(j, "originalLessons"@, |o: Json| original_lesson_fits(o))
    &&& opt_obj_fits(j, "event"@, |o: Json| event_fits(o))
    &&& opt_bool_member(j, "isSubstitution"@) is Some
    &&& opt_bool_member(j, "isCancelled"@) is Some
    &&& opt_bool_member(j, "isNew"@) is Some
}

pub open spec fn read_datum(j: Json, d: Datum) -> bool {
    &&& str_member(j, "date"@) == Some(d.date@)
    &&& obj_read(j, "classHour"@, d.class_hour, |o: Json, x: ClassHour| read_class_hour(o, x))
    &&& opt_obj_read(j, "actualLesson"@, d.actual_lesson, |o: Json, x: ActualLesson| read_actual_lesson(o, x))
    &&& opt_str_member(j, "comment"@) == Some(opt_view(d.comment))
    &&& opt_list_read(j, "originalLessons"@, d.original_lessons, |o: Json, x: OriginalLesson| read_original_lesson(o, x))
    &&& opt_obj_read(j, "event"@, d.event, |o: Json, x: Event| read_event(o, x))
    &&& opt_bool_member(j, "isSubstitution"@) == Some(d.is_substitution)
    &&& opt_bool_member(j, "isCancelled"@) == Some(d.is_cancelled)
    &&& opt_bool_member(j, "isNew"@) == Some(d.is_new)
}

impl Room {
    pub fn from_json(j: &Json) -> (r: Option<Room>)
        ensures
            match r {
                Some(x) => read_room(*j, x),
                None => !room_fits(*j),
            },
    {
        let id = read_uint(j, "id")?;
        let name = read_str(j, "name")?;
        Some(Room { id, name })
    }
}

impl Subject {
    pub fn from_json(j: &Json) -> (r: Option<Subject>)
        ensures
            match r {
                Some(x) => read_subject(*j, x),
                None => !subject_fits(*j),
            },
    {
        let id = read_uint(j, "id")?;
        let abbreviation = read_str(j, "abbreviation")?;
        let name = read_str(j, "name")?;
        Some(Subject { id, abbreviation, name })
    }
}

impl Teacher {
    pub fn from_json(j: &Json) -> (r: Option<Teacher>)
        ensures
            match r {
                Some(x) => read_teacher(*j, x),
                None => !teacher_fits(*j),
            },
    {
        let id = read_uint(j, "id")?;
        let abbreviation = read_str(j, "abbreviation")?;
        let firstname = read_opt_str(j, "firstname")?;
        let lastname = read_opt_str(j, "lastname")?;
        Some(Teacher { id, abbreviation, firstname, lastname })
    }
}

impl Class {
    pub fn from_json(j: &Json) -> (r: Option<Class>)
        ensures
            match r {
                Some(x) => read_class(*j, x),
                None => !class_fits(*j),
            },
    {
        let id = read_uint(j, "id")?;
        let name = read_str(j, "name")?;
        Some(Class { id, name })
    }
}

impl StudentGroup {
    pub fn from_json(j: &Json) -> (r: Option<StudentGroup>)
        ensures
            match r {
                Some(x) => read_group(*j, x),
                None => !group_fits(*j),
            },
    {
        let id = read_uint(j, "id")?;
        let name = read_str(j, "name")?;
        let class_id = read_opt_uint(j, "classId")?;
        Some(StudentGroup { id, name, class_id })
    }
}

impl ClassHour {
    pub fn from_json(j: &Json) -> (r: Option<ClassHour>)
        ensures
            match r {
                Some(x) => read_class_hour(*j, x),
                None => !class_hour_fits(*j),
            },
    {
        let id = read_uint(j, "id")?;
        let number = read_str(j, "number")?;
        Some(ClassHour { id, number })
    }
}

/// Reads who teaches and who attends.
fn read_people_of(j: &Json) -> (r: Option<(Vec<Teacher>, Vec<Class>, Vec<StudentGroup>)>)
    ensures
        match r {
            Some((t, c, g)) => read_people(*j, t@, c@, g@),
            None => !people_fit(*j),
        },
{
    let teachers = parse_list(
        read_array(j, "teachers")?,
        Teacher::from_json,
        Ghost(|t: Json| teacher_fits(t)),
        Ghost(|t: Json, x: Teacher| read_teacher(t, x)),
    )?;
    let classes = parse_list(
        read_array(j, "classes")?,
        Class::from_json,
        Ghost(|c: Json| class_fits(c)),
        Ghost(|c: Json, x: Class| read_class(c, x)),
    )?;
    let groups = parse_list(
        read_array(j, "studentGroups")?,
        StudentGroup::from_json,
        Ghost(|g: Json| group_fits(g)),
        Ghost(|g: Json, x: StudentGroup| read_group(g, x)),
    )?;
    Some((teachers, classes, groups))
}

impl Event {
    pub fn from_json(j: &Json) -> (r: Option<Event>)
        ensures
            match r {
                Some(x) => read_event(*j, x),
                None => !event_fits(*j),
            },
    {
        let text = read_str(j, "text")?;
        let (teachers, classes, student_groups) = read_people_of(j)?;
        let absence_id = read_uint(j, "absenceId")?;
        Some(Event { text, teachers, classes, student_groups, absence_id })
    }
}

impl ActualLesson {
    pub fn from_json(j: &Json) -> (r: Option<ActualLesson>)
        ensures
            match r {
                Some(x) => read_actual_lesson(*j, x),
                None => !actual_lesson_fits(*j),
            },
    {
        let room = Room::from_json(get_member(j, "room")?)?;
        let subject = Subject::from_json(get_member(j, "subject")?)?;
        let (teachers, classes, student_groups) = read_people_of(j)?;
        let comment = read_opt_str(j, "comment")?;
        let subject_label = read_str(j, "subjectLabel")?;
        let lesson_id = read_opt_uint(j, "lessonId")?;
        let substitution_id = read_opt_uint(j, "substitutionId")?;
        Some(ActualLesson {
            room,
            subject,
            teachers,
            classes,
            student_groups,
            comment,
            subject_label,
            lesson_id,
            substitution_id,
        })
    }
}

impl OriginalLesson {
    pub fn from_json(j: &Json) -> (r: Option<OriginalLesson>)
        ensures
            match r {
                Some(x) => read_original_lesson(*j, x),
                None => !original_lesson_fits(*j),
            },
    {
        let room = Room::from_json(get_member(j, "room")?)?;
        let subject = Subject::from_json(get_member(j, "subject")?)?;
        let (teachers, classes, student_groups) = read_people_of(j)?;
        let comment = read_opt_str(j, "comment")?;
        let subject_label = read_str(j, "subjectLabel")?;
        let lesson_id = read_uint(j, "lessonId")?;
        Some(OriginalLesson { room, subject, teachers, classes, student_groups, comment, subject_label, lesson_id })
    }
}

impl Datum {
    pub fn from_json(j: &Json) -> (r: Option<Datum>)
        ensures
            match r {
                Some(x) => read_datum(*j, x),
                None => !datum_fits(*j),
            },
    {
        let date = read_str(j, "date")?;
        let class_hour = ClassHour::from_json(get_member(j, "classHour")?)?;
        let actual_lesson = match get_member(j, "actualLesson") {
            None => None,
            Some(Json::Null) => None,
            Some(o) => Some(ActualLesson::from_json(o)?),
        };
        let comment = read_opt_str(j, "comment")?;
        let original_lessons = match read_opt_array(j, "originalLessons")? {
            None => None,
            Some(items) => Some(
                parse_list(
                    items,
                    OriginalLesson::from_json,
                    Ghost(|o: Json| original_lesson_fits(o)),
                    Ghost(|o: Json, x: OriginalLesson| read_original_lesson(o, x)),
                )?,
            ),
        };
        let event = match get_member(j, "event") {
            None => None,
            Some(Json::Null) => None,
            Some(o) => Some(Event::from_json(o)?),
        };
        let is_substitution = read_opt_bool(j, "isSubstitution")?;
        let is_cancelled = read_opt_bool(j, "isCancelled")?;
        let is_new = read_opt_bool(j, "isNew")?;
        Some(Datum {
            date,
            class_hour,
            actual_lesson,
            comment,
            original_lessons,
            event,
            is_substitution,
            is_cancelled,
            is_new,
        })
    }

    /// Reads a list of records, or `None` when one of them does not fit.
    pub fn list_from_json(items: &Vec<Json>) -> (r: Option<Vec<Datum>>)
        ensures
            match r {
                Some(v) => all_read(items@, v@, |o: Json, x: Datum| read_datum(o, x)),
                None => !all_fit(items@, |o: Json| datum_fits(o)),
            },
    {
        parse_list(items, Datum::from_json, Ghost(|o: Json| datum_fits(o)), Ghost(|o: Json, x: Datum| read_datum(o, x)))
    }
}

/// A status member that fits a `u16`.
pub open spec fn status_member(j: Json) -> Option<int> {
    match member(j, "status"@) {
        Some(Json::UInt(n)) => if n <= u16::MAX {
            Some(n as int)
        } else {
            None
        },
        _ => None,
    }
}

pub fn read_status(j: &Json) -> (r: Option<u16>)
    ensures
        match r {
            Some(s) => status_member(*j) == Some(s as int),
            None => status_member(*j) is None,
        },
{
    match crate::json::get_member(j, "status") {
        Some(Json::UInt(n)) => if *n <= u16::MAX as u64 {
            Some(*n as u16)
        } else {
            None
        },
        _ => None,
    }
}

/// Every item is a record that can be read.
pub open spec fn datums_fit(j: Json, key: Seq<char>) -> bool {
    array_member(j, key) matches Some(items) && all_fit(items, |o: Json| datum_fits(o))
}

pub open spec fn results_fit(j: Json) -> bool {
    status_member(j) is Some && datums_fit(j, "data"@)
}

pub open spec fn read_results(j: Json, r: Results) -> bool {
    &&& status_member(j) == Some(r.status as int)
    &&& array_member(j, "data"@) matches Some(items)
    &&& all_read(items, r.data@, |o: Json, x: Datum| read_datum(o, x))
}

/// A timetable response: one result per call, and advisory messages.
#[derive(Debug)]
pub struct Response {
    pub results: Vec<Results>,
    pub system_status_messages: Vec<Json>,
}

pub open spec fn response_fits(j: Json) -> bool {
    &&& array_member(j, "results"@) matches Some(items)
    &&& all_fit(items, |o: Json| results_fit(o))
    &&& array_member(j, "systemStatusMessages"@) is Some
}

pub open spec fn read_response(j: Json, r: Response) -> bool {
    &&& array_member(j, "results"@) matches Some(items)
    &&& all_read(items, r.results@, |o: Json, x: Results| read_results(o, x))
    &&& array_member(j, "systemStatusMessages"@) == Some(r.system_status_messages@)
}

impl Results {
    pub fn from_json(j: &Json) -> (r: Option<Results>)
        ensures
            match r {
                Some(x) => read_results(*j, x),
                None => !results_fit(*j),
            },
    {
        let status = read_status(j)?;
        let data = Datum::list_from_json(read_array(j, "data")?)?;
        Some(Results { status, data })
    }
}

impl Response {
    pub fn from_json(j: Json) -> (r: Option<Response>)
        ensures
            match r {
                Some(x) => read_response(j, x),
                None => !response_fits(j),
            },
    {
        let results = parse_list(
            read_array(&j, "results")?,
            Results::from_json,
            Ghost(|o: Json| results_fit(o)),
            Ghost(|o: Json, x: Results| read_results(o, x)),
        )?;
        let messages = take_member(j, "systemStatusMessages")?;
        match messages {
            Json::Array(system_status_messages) => Some(Response { results, system_status_messages }),
            _ => None,
        }
    }
}

/// The student a login belongs to.
#[derive(Debug)]
pub struct Student {
    pub id: usize,
    pub firstname: Option<String>,
    pub lastname: Option<String>,
    pub sex: Option<String>,
    pub class_id: usize,
}

/// The user of a login.
#[derive(Debug)]
pub struct User {
    pub email: Option<String>,
    pub username: Option<String>,
    pub local_username: Option<String>,
    pub id: usize,
    pub has_administrator_rights: bool,
    pub last_seen_notification_timestamp: Option<String>,
    pub firstname: Option<String>,
    pub lastname: Option<String>,
    pub associated_student: Student,
}

/// The answer to a login-status request.
#[derive(Debug)]
pub struct Status {
    pub is_authenticated: bool,
    pub user: Option<User>,
}

pub open spec fn student_fits(j: Json) -> bool {
    &&& uint_member(j, "id"@) is Some
    &&& opt_str_member(j, "firstname"@) is Some
    &&& opt_str_member(j, "lastname"@) is Some
    &&& opt_str_member(j, "sex"@) is Some
    &&& uint_member(j, "classId"@) is Some
}

pub open spec fn read_student(j: Json, s: Student) -> bool {
    &&& uint_member(j, "id"@) == Some(s.id as int)
    &&& opt_str_member(j, "firstname"@) == Some(opt_view(s.firstname))
    &&& opt_str_member(j, "lastname"@) == Some(opt_view(s.lastname))
    &&& opt_str_member(j, "sex"@) == Some(opt_view(s.sex))
    &&& uint_member(j, "classId"@) == Some(s.class_id as int)
}

pub open spec fn user_fits(j: Json) -> bool {
    &&& opt_str_member(j, "email"@) is Some
    &&& opt_str_member(j, "username"@) is Some
    &&& opt_str_member(j, "localUsername"@) is Some
    &&& uint_member(j, "id"@) is Some
    &&& bool_member(j, "hasAdministratorRights"@) is Some
    &&& opt_str_member(j, "lastSeenNotificationTimestamp"@) is Some
    &&& opt_str_member(j, "firstname"@) is Some
    &&& opt_str_member(j, "lastname"@) is Some
    &&& obj_fits(j, "associatedStudent"@, |o: Json| student_fits(o))
}

pub open spec fn read_user(j: Json, u: User) -> bool {
    &&& opt_str_member(j, "email"@) == Some(opt_view(u.email))
    &&& opt_str_member(j, "username"@) == Some(opt_view(u.username))
    &&& opt_str_member(j, "localUsername"@) == Some(opt_view(u.local_username))
    &&& uint_member(j, "id"@) == Some(u.id as int)
    &&& bool_member(j, "hasAdministratorRights"@) == Some(u.has_administrator_rights)
    &&& opt_str_member(j, "lastSeenNotificationTimestamp"@) == Some(opt_view(u.last_seen_notification_timestamp))
    &&& opt_str_member(j, "firstname"@) == Some(opt_view(u.firstname))
    &&& opt_str_member(j, "lastname"@) == Some(opt_view(u.lastname))
    &&& obj_read(j, "associatedStudent"@, u.associated_student, |o: Json, x: Student| read_student(o, x))
}

pub open spec fn status_fits(j: Json) -> bool {
    bool_member(j, "isAuthenticated"@) is Some && opt_obj_fits(j, "user"@, |o: Json| user_fits(o))
}

pub open spec fn read_login_status(j: Json, s: Status) -> bool {
    &&& bool_member(j, "isAuthenticated"@) == Some(s.is_authenticated)
    &&& opt_obj_read(j, "user"@, s.user, |o: Json, x: User| read_user(o, x))
}

impl Student {
    pub fn from_json(j: &Json) -> (r: Option<Student>)
        ensures
            match r {
                Some(x) => read_student(*j, x),
                None => !student_fits(*j),
            },
    {
        let id = read_uint(j, "id")?;
        let firstname = read_opt_str(j, "firstname")?;
        let lastname = read_opt_str(j, "lastname")?;
        let sex = read_opt_str(j, "sex")?;
        let class_id = read_uint(j, "classId")?;
        Some(Student { id, firstname, lastname, sex, class_id })
    }
}

impl User {
    pub fn from_json(j: &Json) -> (r: Option<User>)
        ensures
            match r {
                Some(x) => read_user(*j, x),
                None => !user_fits(*j),
            },
    {
        let email = read_opt_str(j, "email")?;
        let username = read_opt_str(j, "username")?;
        let local_username = read_opt_str(j, "localUsername")?;
        let id = read_uint(j, "id")?;
        let has_administrator_rights = read_bool(j, "hasAdministratorRights")?;
        let last_seen_notification_timestamp = read_opt_str(j, "lastSeenNotificationTimestamp")?;
        let firstname = read_opt_str(j, "firstname")?;
        let lastname = read_opt_str(j, "lastname")?;
        let associated_student = Student::from_json(get_member(j, "associatedStudent")?)?;
        Some(User {
            email,
            username,
            local_username,
            id,
            has_administrator_rights,
            last_seen_notification_timestamp,
            firstname,
            lastname,
            associated_student,
        })
    }
}

impl Status {
    pub fn from_json(j: &Json) -> (r: Option<Status>)
        ensures
            match r {
                Some(x) => read_login_status(*j, x),
                None => !status_fits(*j),
            },
    {
        let is_authenticated = read_bool(j, "isAuthenticated")?;
        let user = match get_member(j, "user") {
            None => None,
            Some(Json::Null) => None,
            Some(o) => Some(User::from_json(o)?),
        };
        Some(Status { is_authenticated, user })
    }

    /// The student id and class id of an authenticated login; an
    /// unauthenticated login is `Unauthenticated`, one without a user
    /// `UnknownAuth`.
    pub fn student_ids(&self) -> (r: Result<(usize, usize), SmError>)
        ensures
            match r {
                Ok((id, class_id)) => self.is_authenticated && (self.user matches Some(u)
                    && id == u.associated_student.id && class_id == u.associated_student.class_id),
                Err(e) => if !self.is_authenticated {
                    e == SmError::Unauthenticated
                } else {
                    self.user is None && e == SmError::UnknownAuth
                },
            },
    {
        if !self.is_authenticated {
            return Err(SmError::Unauthenticated);
        }
        match &self.user {
            Some(u) => Ok((u.associated_student.id, u.associated_student.class_id)),
            None => Err(SmError::UnknownAuth),
        }
    }
}

} // verus!
