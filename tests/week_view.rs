use schulmanager::errors::SmError;
use schulmanager::sm_req::{
    ActualLesson, Class, ClassHour, Datum, Event, OriginalLesson, Results, Room, StudentGroup, Subject, Teacher,
};
use schulmanager::timetable::{
    SmEvent, SmLesson, SmLessonStatus, SmSubject, SmSubstitutedLesson, SmTeacher, SmWeek,
};

fn teacher(abbr: &str) -> Teacher {
    Teacher { id: 1, abbreviation: abbr.to_string(), firstname: None, lastname: Some("Lee".to_string()) }
}

fn actual(subject: &str) -> ActualLesson {
    ActualLesson {
        room: Room { id: 1, name: "A1".to_string() },
        subject: Subject { id: 2, abbreviation: "S".to_string(), name: subject.to_string() },
        teachers: vec![teacher("T1")],
        classes: vec![Class { id: 3, name: "7c".to_string() }],
        student_groups: vec![StudentGroup { id: 4, name: "Choir".to_string(), class_id: None }],
        comment: None,
        subject_label: subject.to_string(),
        lesson_id: None,
        substitution_id: Some(9),
    }
}

fn original(subject: &str) -> OriginalLesson {
    OriginalLesson {
        room: Room { id: 5, name: "B2".to_string() },
        subject: Subject { id: 6, abbreviation: "O".to_string(), name: subject.to_string() },
        teachers: vec![teacher("T2")],
        classes: vec![],
        student_groups: vec![],
        comment: None,
        subject_label: subject.to_string(),
        lesson_id: 10,
    }
}

fn datum(date: &str, period: &str) -> Datum {
    Datum {
        date: date.to_string(),
        class_hour: ClassHour { id: 1, number: period.to_string() },
        actual_lesson: None,
        comment: None,
        original_lessons: None,
        event: None,
        is_substitution: None,
        is_cancelled: None,
        is_new: None,
    }
}

#[test]
fn week_view_keeps_last_lesson_per_period() {
    let mut first = datum("2024-09-04", "2");
    first.actual_lesson = Some(actual("Math"));
    let mut second = datum("2024-09-04", "2");
    second.actual_lesson = Some(actual("Art"));
    second.comment = Some("room change".to_string());
    let mut sat = datum("2024-09-07", "2");
    sat.actual_lesson = Some(actual("Sport"));
    let week = SmWeek::from_interna(Results { status: 200, data: vec![first, second, sat] }).unwrap();
    let l = week.wednesday.get(&2).unwrap();
    assert_eq!(l.subject.name, "Art");
    assert_eq!(l.comment, Some("room change".to_string()));
    assert!(matches!(l.status, SmLessonStatus::Lesson));
    assert_eq!(week.wednesday.len(), 1);
    assert_eq!(week.weekend_records, 1);
    assert!(week.monday.is_empty());
}

#[test]
fn week_view_statuses() {
    let mut s = datum("2024-09-02", "1");
    s.is_substitution = Some(true);
    s.actual_lesson = Some(actual("Math"));
    s.original_lessons = Some(vec![original("Latin"), original("Greek")]);
    let mut c = datum("2024-09-03", "1");
    c.is_cancelled = Some(true);
    c.original_lessons = Some(vec![original("Music")]);
    let mut n = datum("2024-09-05", "1");
    n.is_new = Some(true);
    n.actual_lesson = Some(actual("Drama"));
    let week = SmWeek::from_interna(Results { status: 200, data: vec![s, c, n] }).unwrap();
    match &week.monday.get(&1).unwrap().status {
        SmLessonStatus::Substitution(o) => {
            assert_eq!(o.subject.name, "Greek");
            assert_eq!(o.room, "B2");
        }
        other => panic!("expected a substitution, got {:?}", other),
    }
    let cancelled = week.tuesday.get(&1).unwrap();
    assert!(matches!(cancelled.status, SmLessonStatus::Cancelled));
    assert_eq!(cancelled.subject.name, "Music");
    assert_eq!(week.thursday.get(&1).unwrap().subject.name, "Drama");
}

#[test]
fn week_view_errors() {
    let mut c = datum("2024-09-03", "1");
    c.is_cancelled = Some(true);
    assert_eq!(SmWeek::from_interna(Results { status: 200, data: vec![c] }).unwrap_err(), SmError::MalformedRecord);
    let mut d = datum("2024-9-3x", "1");
    d.actual_lesson = Some(actual("Math"));
    assert_eq!(SmWeek::from_interna(Results { status: 200, data: vec![d] }).unwrap_err(), SmError::DateParseError);
}

#[test]
fn week_view_builders() {
    let subject = SmSubject::new(Subject { id: 1, abbreviation: "M".to_string(), name: "Math".to_string() });
    assert_eq!((subject.abbreviation.as_str(), subject.name.as_str()), ("M", "Math"));
    let teachers = SmTeacher::new_vec(vec![teacher("A"), teacher("B")]);
    assert_eq!(teachers.len(), 2);
    assert_eq!(teachers[1].abbreviation, "B");
    assert_eq!(teachers[1].lastname, Some("Lee".to_string()));
    assert_eq!(SmTeacher::new(teacher("C")).abbreviation, "C");
    let l = SmLesson::from_orig(original("Latin"), SmLessonStatus::Cancelled, Some("x".to_string()));
    assert_eq!(l.room, "B2");
    assert_eq!(l.comment, Some("x".to_string()));
    assert!(SmLesson::from_orig_vec(vec![], SmLessonStatus::Lesson, None).is_none());
    let s = SmSubstitutedLesson::from_orig_vec(vec![original("A"), original("B")], None).unwrap();
    assert_eq!(s.subject.name, "B");
    assert!(SmSubstitutedLesson::from_orig_vec(vec![], None).is_none());
    let e = SmEvent::from_orig(Event {
        text: "Fair".to_string(),
        teachers: vec![],
        classes: vec![Class { id: 1, name: "9a".to_string() }],
        student_groups: vec![],
        absence_id: 3,
    });
    assert_eq!(e.text, "Fair");
    assert_eq!(e.classes, vec!["9a".to_string()]);
    let a = SmLesson::from_actual(actual("Bio"), SmLessonStatus::Lesson, None);
    assert_eq!(a.student_groups, vec!["Choir".to_string()]);
}
