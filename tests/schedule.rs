use schulmanager::date::{week_bounds, CalendarDate};
use schulmanager::decimal::parse_decimal;
use schulmanager::errors::SmError;
use schulmanager::sm_req::{
    ActualLesson, Class, ClassHour, Datum, Event as RawEvent, OriginalLesson, Results, Room, StudentGroup,
    Subject as RawSubject, Teacher as RawTeacher,
};
use schulmanager::transformers::smartv2::{
    check_treemap, classify, DayMap, Lesson, TimetableElement, Weekdays,
};
use std::collections::BTreeMap;

fn teacher(abbr: &str) -> RawTeacher {
    RawTeacher { id: 7, abbreviation: abbr.to_string(), firstname: Some("Ada".to_string()), lastname: None }
}

fn actual(subject: &str, comment: Option<&str>) -> ActualLesson {
    ActualLesson {
        room: Room { id: 1, name: "R101".to_string() },
        subject: RawSubject { id: 2, abbreviation: subject[..1].to_string(), name: subject.to_string() },
        teachers: vec![teacher("ABC")],
        classes: vec![Class { id: 3, name: "5a".to_string() }],
        student_groups: vec![StudentGroup { id: 4, name: "G1".to_string(), class_id: Some(3) }],
        comment: comment.map(|c| c.to_string()),
        subject_label: format!("{} label", subject),
        lesson_id: Some(11),
        substitution_id: None,
    }
}

fn original(subject: &str, room: &str) -> OriginalLesson {
    OriginalLesson {
        room: Room { id: 5, name: room.to_string() },
        subject: RawSubject { id: 6, abbreviation: subject[..1].to_string(), name: subject.to_string() },
        teachers: vec![teacher("XYZ"), teacher("QRS")],
        classes: vec![Class { id: 3, name: "5a".to_string() }, Class { id: 8, name: "5b".to_string() }],
        student_groups: vec![],
        comment: Some("template comment".to_string()),
        subject_label: subject.to_string(),
        lesson_id: 12,
    }
}

fn datum(date: &str, period: &str) -> Datum {
    Datum {
        date: date.to_string(),
        class_hour: ClassHour { id: 9, number: period.to_string() },
        actual_lesson: None,
        comment: None,
        original_lessons: None,
        event: None,
        is_substitution: None,
        is_cancelled: None,
        is_new: None,
    }
}

fn regular(date: &str, period: &str, subject: &str) -> Datum {
    let mut d = datum(date, period);
    d.actual_lesson = Some(actual(subject, None));
    d
}

fn subject_name(e: &TimetableElement) -> String {
    match e {
        TimetableElement::Lesson(l) => l.subject.name.clone(),
        TimetableElement::Cancelled(l) => l.subject.name.clone(),
        TimetableElement::Substitution(l, _) => l.subject.name.clone(),
        TimetableElement::Event(e) => e.text.clone(),
    }
}

fn bucket(m: &BTreeMap<usize, Vec<TimetableElement>>, p: usize) -> Vec<String> {
    m.get(&p).map(|v| v.iter().map(subject_name).collect()).unwrap_or_default()
}

#[test]
fn monday_regular_lesson_lands_in_monday_bucket() {
    let table = Results { status: 200, data: vec![regular("2024-09-02", "3", "Math")] };
    let week = Weekdays::from_interna(table).unwrap();
    assert_eq!(week.monday.len(), 1);
    let slot = week.monday.get(&3).unwrap();
    assert_eq!(slot.len(), 1);
    match &slot[0] {
        TimetableElement::Lesson(l) => {
            assert_eq!(l.subject.name, "Math");
            assert_eq!(l.room, "R101");
            assert_eq!(l.classes, vec!["5a".to_string()]);
            assert_eq!(l.student_groups, vec!["G1".to_string()]);
            assert_eq!(l.teachers.len(), 1);
            assert_eq!(l.teachers[0].abbreviation, "ABC");
            assert_eq!(l.teachers[0].firstname, Some("Ada".to_string()));
            assert_eq!(l.subject_label, "Math label");
        }
        other => panic!("expected a regular lesson, got {:?}", other),
    }
    assert!(week.tuesday.is_empty() && week.wednesday.is_empty());
    assert!(week.thursday.is_empty() && week.friday.is_empty());
    assert_eq!(week.weekend_records, 0);
}

#[test]
fn cancelled_keeps_last_original_lesson() {
    let mut d = datum("2024-09-02", "3");
    d.is_cancelled = Some(true);
    d.comment = Some("day comment".to_string());
    d.original_lessons = Some(vec![original("Physics", "P1"), original("Chemistry", "C2")]);
    match classify(d).unwrap() {
        TimetableElement::Cancelled(l) => {
            assert_eq!(l.subject.name, "Chemistry");
            assert_eq!(l.room, "C2");
            assert_eq!(l.teachers.len(), 2);
            assert_eq!(l.classes, vec!["5a".to_string(), "5b".to_string()]);
            assert_eq!(l.comment, Some("day comment".to_string()));
        }
        other => panic!("expected a cancellation, got {:?}", other),
    }
}

#[test]
fn each_marker_alone_selects_its_variant() {
    let mut s = datum("2024-09-02", "1");
    s.is_substitution = Some(true);
    s.actual_lesson = Some(actual("Art", None));
    s.original_lessons = Some(vec![original("Music", "M1")]);
    assert!(matches!(classify(s), Ok(TimetableElement::Substitution(_, _))));

    let mut c = datum("2024-09-02", "1");
    c.is_cancelled = Some(false);
    c.original_lessons = Some(vec![original("Music", "M1")]);
    assert!(matches!(classify(c), Ok(TimetableElement::Cancelled(_))));

    let mut n = datum("2024-09-02", "1");
    n.is_new = Some(true);
    n.event = Some(RawEvent {
        text: "Trip".to_string(),
        teachers: vec![teacher("ABC")],
        classes: vec![],
        student_groups: vec![],
        absence_id: 1,
    });
    match classify(n) {
        Ok(TimetableElement::Event(e)) => {
            assert_eq!(e.text, "Trip");
            assert_eq!(e.teachers[0].abbreviation, "ABC");
        }
        other => panic!("expected an event, got {:?}", other),
    }

    assert!(matches!(classify(regular("2024-09-02", "1", "Art")), Ok(TimetableElement::Lesson(_))));
}

#[test]
fn missing_required_data_is_malformed() {
    let mut s = datum("2024-09-02", "1");
    s.is_substitution = Some(true);
    s.original_lessons = Some(vec![original("Music", "M1")]);
    assert_eq!(classify(s).unwrap_err(), SmError::MalformedRecord);

    let mut s2 = datum("2024-09-02", "1");
    s2.is_substitution = Some(true);
    s2.actual_lesson = Some(actual("Art", None));
    s2.original_lessons = Some(vec![]);
    assert_eq!(classify(s2).unwrap_err(), SmError::MalformedRecord);

    let mut c = datum("2024-09-02", "1");
    c.is_cancelled = Some(true);
    assert_eq!(classify(c).unwrap_err(), SmError::MalformedRecord);

    let mut n = datum("2024-09-02", "1");
    n.is_new = Some(true);
    assert_eq!(classify(n).unwrap_err(), SmError::MalformedRecord);

    assert_eq!(classify(datum("2024-09-02", "1")).unwrap_err(), SmError::MalformedRecord);
}

#[test]
fn substitution_marker_wins_over_the_others() {
    let mut s = datum("2024-09-02", "1");
    s.is_substitution = Some(true);
    s.is_cancelled = Some(true);
    s.is_new = Some(true);
    s.comment = Some("moved".to_string());
    s.actual_lesson = Some(actual("Art", Some("lesson comment")));
    s.original_lessons = Some(vec![original("Music", "M1"), original("History", "H1")]);
    match classify(s).unwrap() {
        TimetableElement::Substitution(a, o) => {
            assert_eq!(a.subject.name, "Art");
            assert_eq!(a.comment, Some("moved".to_string()));
            assert_eq!(o.subject.name, "History");
            assert_eq!(o.comment, Some("moved".to_string()));
        }
        other => panic!("expected a substitution, got {:?}", other),
    }
}

#[test]
fn comment_of_record_replaces_lesson_comment() {
    let mut d = datum("2024-09-02", "2");
    d.actual_lesson = Some(actual("Art", Some("lesson comment")));
    match classify(d).unwrap() {
        TimetableElement::Lesson(l) => assert_eq!(l.comment, None),
        other => panic!("expected a regular lesson, got {:?}", other),
    }
}

#[test]
fn weekend_records_only_in_date_map() {
    let data = || {
        vec![
            regular("2024-09-07", "2", "Sport"),
            regular("2024-09-06", "2", "Math"),
            regular("2024-09-08", "1", "Chess"),
        ]
    };
    let week = Weekdays::from_interna(Results { status: 200, data: data() }).unwrap();
    assert_eq!(week.weekend_records, 2);
    assert_eq!(bucket(&week.friday, 2), vec!["Math".to_string()]);
    assert!(week.monday.is_empty());
    let days = DayMap::from_interna(Results { status: 200, data: data() }).unwrap();
    assert_eq!(bucket(days.map.get(&(2024, (9, 7))).unwrap(), 2), vec!["Sport".to_string()]);
    assert_eq!(bucket(days.map.get(&(2024, (9, 8))).unwrap(), 1), vec!["Chess".to_string()]);
    assert_eq!(bucket(days.map.get(&(2024, (9, 6))).unwrap(), 2), vec!["Math".to_string()]);
    assert_eq!(days.map.len(), 3);
}

#[test]
fn shared_period_keeps_arrival_order() {
    let data = vec![
        regular("2024-09-03", "4", "First"),
        regular("2024-09-03", "5", "Other"),
        regular("2024-09-03", "04", "Second"),
        regular("2024-09-10", "4", "NextWeek"),
    ];
    let days = DayMap::from_interna(Results { status: 200, data }).unwrap();
    let tuesday = days.map.get(&(2024, (9, 3))).unwrap();
    assert_eq!(bucket(tuesday, 4), vec!["First".to_string(), "Second".to_string()]);
    assert_eq!(bucket(tuesday, 5), vec!["Other".to_string()]);
    let data = vec![
        regular("2024-09-03", "4", "First"),
        regular("2024-09-03", "+4", "Second"),
        regular("2024-09-10", "4", "NextWeek"),
    ];
    let week = Weekdays::from_interna(Results { status: 200, data }).unwrap();
    assert_eq!(bucket(&week.tuesday, 4), vec!["First".to_string(), "Second".to_string(), "NextWeek".to_string()]);
}

#[test]
fn unreadable_date_or_period_fails_the_build() {
    let bad_date = vec![regular("2024-09-02", "1", "Ok"), regular("2024-13-02", "1", "Bad")];
    assert_eq!(DayMap::from_interna(Results { status: 200, data: bad_date }).unwrap_err(), SmError::DateParseError);
    let bad_period = vec![regular("2024-09-02", "x1", "Bad")];
    assert_eq!(Weekdays::from_interna(Results { status: 200, data: bad_period }).unwrap_err(), SmError::PeriodParseError);
    let weekend_bad_period = vec![regular("2024-09-07", "", "Bad")];
    assert_eq!(
        Weekdays::from_interna(Results { status: 200, data: weekend_bad_period }).unwrap_err(),
        SmError::PeriodParseError
    );
    let malformed_first = vec![datum("2024-99-02", "x")];
    assert_eq!(DayMap::from_interna(Results { status: 200, data: malformed_first }).unwrap_err(), SmError::MalformedRecord);
}

#[test]
fn empty_table_gives_empty_calendars() {
    let week = Weekdays::from_interna(Results { status: 200, data: vec![] }).unwrap();
    assert!(week.monday.is_empty() && week.friday.is_empty());
    assert_eq!(week.weekend_records, 0);
    let days = DayMap::from_interna(Results { status: 200, data: vec![] }).unwrap();
    assert!(days.map.is_empty());
}

#[test]
fn treemap_appends_or_creates() {
    let mut map: BTreeMap<usize, Vec<TimetableElement>> = BTreeMap::new();
    let lesson = |name: &str| {
        TimetableElement::Lesson(Lesson::from_actual(actual(name, None), None))
    };
    check_treemap(&mut map, 2, lesson("A"));
    check_treemap(&mut map, 2, lesson("B"));
    check_treemap(&mut map, 3, lesson("C"));
    assert_eq!(bucket(&map, 2), vec!["A".to_string(), "B".to_string()]);
    assert_eq!(bucket(&map, 3), vec!["C".to_string()]);
    assert_eq!(map.len(), 2);
}

#[test]
fn from_orig_vec_takes_last_or_none() {
    assert!(Lesson::from_orig_vec(vec![], None).is_none());
    let l = Lesson::from_orig_vec(vec![original("A", "1"), original("B", "2"), original("C", "3")], None).unwrap();
    assert_eq!(l.subject.name, "C");
    assert_eq!(l.comment, None);
}

#[test]
fn decimal_numbers() {
    assert_eq!(parse_decimal(&"3".to_string()), Some(3));
    assert_eq!(parse_decimal(&"+12".to_string()), Some(12));
    assert_eq!(parse_decimal(&"007".to_string()), Some(7));
    assert_eq!(parse_decimal(&"".to_string()), None);
    assert_eq!(parse_decimal(&"+".to_string()), None);
    assert_eq!(parse_decimal(&"-1".to_string()), None);
    assert_eq!(parse_decimal(&"1 ".to_string()), None);
    assert_eq!(parse_decimal(&"18446744073709551615".to_string()), Some(usize::MAX));
    assert_eq!(parse_decimal(&"18446744073709551616".to_string()), None);
}

#[test]
fn dates_and_weekdays() {
    let d = CalendarDate::parse("2024-09-02").unwrap();
    assert_eq!((d.year, d.month, d.day), (2024, 9, 2));
    assert_eq!(d.weekday(), 0);
    assert_eq!(CalendarDate::parse("1970-01-01").unwrap().weekday(), 3);
    assert_eq!(CalendarDate::parse("2024-09-08").unwrap().weekday(), 6);
    assert!(CalendarDate::parse("2023-02-29").is_none());
    assert!(CalendarDate::parse("not a date").is_none());
    assert_eq!(d.to_iso_string(), "2024-09-02");
    assert!(CalendarDate::new(2024, 2, 29).is_some());
    assert!(CalendarDate::new(2023, 2, 29).is_none());
    assert!(CalendarDate::new(2023, 4, 31).is_none());
}

#[test]
fn iso_week_bounds() {
    let (mon, sun) = week_bounds(1, 2015).unwrap();
    assert_eq!(mon.to_iso_string(), "2014-12-29");
    assert_eq!(sun.to_iso_string(), "2015-01-04");
    let (mon, sun) = week_bounds(36, 2024).unwrap();
    assert_eq!(mon.to_iso_string(), "2024-09-02");
    assert_eq!(sun.to_iso_string(), "2024-09-08");
    assert!(week_bounds(53, 2015).is_some());
    assert!(week_bounds(53, 2014).is_none());
    assert!(week_bounds(0, 2024).is_none());
    assert!(week_bounds(1, i32::MAX).is_none());
}
