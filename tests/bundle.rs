use schulmanager::errors::SmError;
use schulmanager::json::Json;
use schulmanager::sm::{
    CallResult, Hours, ModRequest, RequestBody, RequestManager, ResultBody, ResultSlot, Timetable,
    TimetableBodyParams,
};
use schulmanager::sm_req::{Datum, Status};
use schulmanager::SmTimetable;

fn s(text: &str) -> Json {
    Json::Str(text.to_string())
}

fn obj(members: Vec<(&str, Json)>) -> Json {
    Json::Object(members.into_iter().map(|(k, v)| (k.to_string(), v)).collect())
}

fn member<'a>(j: &'a Json, key: &str) -> Option<&'a Json> {
    match j {
        Json::Object(fields) => fields.iter().find(|(k, _)| k == key).map(|(_, v)| v),
        _ => None,
    }
}

fn named(id: u64, name: &str) -> Json {
    obj(vec![("id", Json::UInt(id)), ("name", s(name))])
}

fn lesson_json(subject: &str) -> Json {
    obj(vec![
        ("room", named(1, "R101")),
        ("subject", obj(vec![("id", Json::UInt(2)), ("abbreviation", s("M")), ("name", s(subject))])),
        (
            "teachers",
            Json::Array(vec![obj(vec![
                ("id", Json::UInt(3)),
                ("abbreviation", s("ABC")),
                ("firstname", Json::Null),
            ])]),
        ),
        ("classes", Json::Array(vec![named(4, "5a")])),
        ("studentGroups", Json::Array(vec![])),
        ("subjectLabel", s(subject)),
        ("lessonId", Json::UInt(5)),
    ])
}

fn datum_json(date: &str, period: &str, subject: &str) -> Json {
    obj(vec![
        ("date", s(date)),
        ("classHour", obj(vec![("id", Json::UInt(9)), ("number", s(period))])),
        ("actualLesson", lesson_json(subject)),
        ("comment", Json::Null),
    ])
}

fn hours_json() -> Json {
    obj(vec![
        ("status", Json::UInt(200)),
        (
            "data",
            Json::Array(vec![obj(vec![
                ("number", s("1")),
                ("from", s("08:00:00")),
                ("until", s("08:45:00")),
                ("fromByDay", Json::Array(vec![s("08:00:00")])),
                ("untilByDay", Json::Array(vec![s("08:45:00")])),
                ("id", Json::UInt(77)),
            ])]),
        ),
    ])
}

fn manager() -> RequestManager {
    let mut m = RequestManager::new();
    m.add_timetable(Timetable::new(10, 20, 36, Some(2024)).unwrap()).unwrap();
    m.add_hours(Hours::new()).unwrap();
    m
}

fn result(status: u16, data: Json) -> CallResult {
    CallResult { status, data }
}

fn unsettled(m: &mut RequestManager) -> bool {
    m._state.iter_mut().all(|r| match r {
        ModRequest::Timetable(t) => t.get().unwrap_err() == SmError::UninitializedData,
        ModRequest::Hours(h) => h.get().is_err(),
    })
}

#[test]
fn results_settle_at_their_own_index() {
    let mut m = manager();
    let body = ResultBody {
        results: vec![
            result(200, Json::Array(vec![datum_json("2024-09-02", "3", "Math"), datum_json("2024-09-03", "1", "Art")])),
            result(201, hours_json()),
        ],
        system_status_messages: vec![],
    };
    assert_eq!(m.get_results(body), Ok(()));
    let mut state = m._state;
    match &mut state[0] {
        ModRequest::Timetable(t) => {
            let data: Vec<Datum> = t.get().unwrap();
            assert_eq!(data.len(), 2);
            assert_eq!(data[0].date, "2024-09-02");
            assert_eq!(data[0].class_hour.number, "3");
            assert_eq!(data[0].actual_lesson.as_ref().unwrap().subject.name, "Math");
            assert_eq!(data[1].actual_lesson.as_ref().unwrap().subject.name, "Art");
            assert_eq!(t.get().unwrap_err(), SmError::UninitializedData);
        }
        _ => panic!("the timetable call moved"),
    }
    match &mut state[1] {
        ModRequest::Hours(h) => {
            let hours = h.get().unwrap();
            assert_eq!(hours.status, 200);
            assert_eq!(hours.data.len(), 1);
            assert_eq!(hours.data[0].number, 1);
            assert_eq!(hours.data[0].from_by_day, vec!["08:00:00".to_string()]);
            assert_eq!(hours.data[0].id, 77);
        }
        _ => panic!("the hours call moved"),
    }
}

#[test]
fn no_calls_correlate_with_no_results() {
    let mut m = RequestManager::new();
    let body = ResultBody { results: vec![], system_status_messages: vec![] };
    assert_eq!(m.get_results(body), Ok(()));
}

#[test]
fn one_bad_status_settles_nothing() {
    let mut m = manager();
    let body = ResultBody {
        results: vec![result(200, Json::Array(vec![datum_json("2024-09-02", "3", "Math")])), result(500, hours_json())],
        system_status_messages: vec![],
    };
    assert_eq!(m.get_results(body), Err(SmError::NonvalidStatusCode { statuscode: 500 }));
    assert!(unsettled(&mut m));
    let body = ResultBody {
        results: vec![result(199, Json::Array(vec![])), result(200, hours_json())],
        system_status_messages: vec![],
    };
    assert_eq!(m.get_results(body), Err(SmError::NonvalidStatusCode { statuscode: 199 }));
    let body = ResultBody {
        results: vec![result(300, Json::Array(vec![])), result(200, hours_json())],
        system_status_messages: vec![],
    };
    assert_eq!(m.get_results(body), Err(SmError::NonvalidStatusCode { statuscode: 300 }));
    assert!(unsettled(&mut m));
}

#[test]
fn fewer_results_than_calls_is_missing_result() {
    let mut m = manager();
    let body = ResultBody {
        results: vec![result(200, Json::Array(vec![datum_json("2024-09-02", "3", "Math")]))],
        system_status_messages: vec![],
    };
    assert_eq!(m.get_results(body), Err(SmError::MissingResult));
    assert!(unsettled(&mut m));
}

#[test]
fn misshapen_data_names_the_endpoint() {
    let mut m = manager();
    let body = ResultBody {
        results: vec![result(200, Json::Array(vec![])), result(200, obj(vec![("status", Json::UInt(200))]))],
        system_status_messages: vec![],
    };
    assert_eq!(m.get_results(body), Err(SmError::ResultParseError { endpoint: "poqa".to_string() }));
    assert!(unsettled(&mut m));
    let mut m = manager();
    let body = ResultBody {
        results: vec![result(200, Json::Array(vec![obj(vec![("date", s("2024-09-02"))])])), result(200, hours_json())],
        system_status_messages: vec![],
    };
    assert_eq!(m.get_results(body), Err(SmError::ResultParseError { endpoint: "get-actual-lessons".to_string() }));
}

#[test]
fn request_body_round_trip() {
    let m = manager();
    let body = m.get_request();
    assert_eq!(body.bundle_version, "fee1dead");
    assert_eq!(body.requests.len(), 2);
    assert_eq!(body.requests[0].module_name, "schedules");
    assert_eq!(body.requests[0].endpoint_name, "get-actual-lessons");
    assert_eq!(body.requests[1].endpoint_name, "poqa");
    let params = &body.requests[0].parameters;
    assert_eq!(member(params, "start"), Some(&s("2024-09-02")));
    assert_eq!(member(params, "end"), Some(&s("2024-09-08")));
    let student = member(params, "student").unwrap();
    assert_eq!(member(student, "id"), Some(&Json::UInt(10)));
    assert_eq!(member(student, "classId"), Some(&Json::UInt(20)));
    match params {
        Json::Object(fields) => {
            let keys: Vec<&str> = fields.iter().map(|(k, _)| k.as_str()).collect();
            assert_eq!(keys, vec!["student", "start", "end"]);
        }
        _ => panic!("parameters are no object"),
    }
    let hours = RequestBody::new_hours_body();
    let expected = obj(vec![(
        "action",
        obj(vec![
            ("model", s("main/class-hour")),
            ("action", s("findAll")),
            (
                "parameters",
                Json::Array(vec![obj(vec![(
                    "attributes",
                    Json::Array(vec![s("number"), s("from"), s("until"), s("fromByDay"), s("untilByDay")]),
                )])]),
            ),
        ]),
    )]);
    assert_eq!(hours.requests[0].parameters, expected);
    let action = member(&body.requests[1].parameters, "action").unwrap();
    assert_eq!(member(action, "model"), Some(&s("main/class-hour")));
    assert_eq!(member(action, "action"), Some(&s("findAll")));

    let wire = body.to_json();
    let requests = member(&wire, "requests").unwrap();
    match requests {
        Json::Array(items) => {
            assert_eq!(member(&items[1], "moduleName"), Some(&s("schedules")));
            assert_eq!(member(&items[1], "endpointName"), Some(&s("poqa")));
        }
        _ => panic!("requests is no array"),
    }
    let again = RequestBody::from_json(wire).unwrap();
    let fresh = m.get_request();
    assert_eq!(again.bundle_version, fresh.bundle_version);
    assert_eq!(again.requests.len(), fresh.requests.len());
    for (a, b) in again.requests.iter().zip(fresh.requests.iter()) {
        assert_eq!(a.module_name, b.module_name);
        assert_eq!(a.endpoint_name, b.endpoint_name);
        assert_eq!(a.parameters, b.parameters);
    }
}

#[test]
fn result_body_reads_envelope() {
    let j = obj(vec![
        ("results", Json::Array(vec![obj(vec![("status", Json::UInt(200)), ("data", Json::Array(vec![]))])])),
    ]);
    let body = ResultBody::from_json(j).unwrap();
    assert_eq!(body.results.len(), 1);
    assert_eq!(body.results[0].status, 200);
    assert!(body.system_status_messages.is_empty());
    let bad = obj(vec![("results", Json::Array(vec![obj(vec![("status", Json::UInt(70000)), ("data", Json::Null)])]))]);
    assert!(ResultBody::from_json(bad).is_none());
    assert!(ResultBody::from_json(Json::Null).is_none());
}

#[test]
fn unsettled_result_cannot_be_read() {
    let mut t = Timetable::new(1, 2, 1, Some(2015)).unwrap();
    assert!(matches!(t.result, ResultSlot::Empty));
    assert_eq!(t.get().unwrap_err(), SmError::UninitializedData);
    assert_eq!(t.params.start, "2014-12-29");
    assert_eq!(t.params.end, "2015-01-04");
    assert_eq!(Timetable::new(1, 2, 54, Some(2015)).unwrap_err(), SmError::InvalidWeek);
    assert_eq!(TimetableBodyParams::for_year(1, 2, 0, 2024).unwrap_err(), SmError::InvalidWeek);
}

#[test]
fn timetable_response_success_and_calendars() {
    let j = obj(vec![
        (
            "results",
            Json::Array(vec![obj(vec![
                ("status", Json::UInt(200)),
                ("data", Json::Array(vec![datum_json("2024-09-02", "3", "Math")])),
            ])]),
        ),
        ("systemStatusMessages", Json::Array(vec![])),
    ]);
    let t = SmTimetable::from_json(j).unwrap();
    assert!(t.is_success());
    let weeks = t.to_smart_v2_weekdays().unwrap();
    assert_eq!(weeks.len(), 1);
    assert_eq!(weeks[0].monday.get(&3).unwrap().len(), 1);
    let bad = obj(vec![
        ("results", Json::Array(vec![obj(vec![("status", Json::UInt(404)), ("data", Json::Array(vec![]))])])),
        ("systemStatusMessages", Json::Array(vec![])),
    ]);
    let t = SmTimetable::from_json(bad).unwrap();
    assert!(!t.is_success());
    assert!(t.to_smart_v2_daymap().unwrap()[0].map.is_empty());
}

fn login_json(authenticated: bool, user: Json) -> Json {
    obj(vec![("isAuthenticated", Json::Bool(authenticated)), ("user", user)])
}

fn user_json() -> Json {
    obj(vec![
        ("email", s("a@b.c")),
        ("id", Json::UInt(5)),
        ("hasAdministratorRights", Json::Bool(false)),
        (
            "associatedStudent",
            obj(vec![("id", Json::UInt(42)), ("firstname", s("Kim")), ("classId", Json::UInt(7))]),
        ),
    ])
}

#[test]
fn login_status_gives_student_ids() {
    let status = Status::from_json(&login_json(true, user_json())).unwrap();
    assert_eq!(status.student_ids(), Ok((42, 7)));
    let user = status.user.unwrap();
    assert_eq!(user.email, Some("a@b.c".to_string()));
    assert_eq!(user.associated_student.firstname, Some("Kim".to_string()));
    let anonymous = Status::from_json(&login_json(false, Json::Null)).unwrap();
    assert_eq!(anonymous.student_ids(), Err(SmError::Unauthenticated));
    let no_user = Status::from_json(&obj(vec![("isAuthenticated", Json::Bool(true))])).unwrap();
    assert_eq!(no_user.student_ids(), Err(SmError::UnknownAuth));
    assert!(Status::from_json(&login_json(true, obj(vec![("id", Json::UInt(5))]))).is_none());
}

fn table_json(statuses: &[u64]) -> Json {
    obj(vec![
        (
            "results",
            Json::Array(
                statuses
                    .iter()
                    .map(|st| {
                        obj(vec![
                            ("status", Json::UInt(*st)),
                            (
                                "data",
                                Json::Array(vec![
                                    datum_json("2024-09-02", "1", "Math"),
                                    datum_json("2024-09-02", "1", "Art"),
                                    datum_json("2024-09-07", "2", "Sport"),
                                ]),
                            ),
                        ])
                    })
                    .collect(),
            ),
        ),
        ("systemStatusMessages", Json::Array(vec![s("advisory")])),
    ])
}

#[test]
fn timetable_parser_test() {
    let timetable = SmTimetable::from_json(table_json(&[200])).unwrap();
    assert!(timetable.is_success());
}

#[test]
fn timetable_parser_and_smart_test() {
    let timetable = SmTimetable::from_json(table_json(&[200, 204])).unwrap();
    let smart = timetable.to_smart_v2_daymap().unwrap();
    assert_eq!(smart.len(), 2);
    let monday = smart[0].map.get(&(2024, (9, 2))).unwrap();
    assert_eq!(monday.get(&1).unwrap().len(), 2);
    assert_eq!(smart[1].map.get(&(2024, (9, 7))).unwrap().get(&2).unwrap().len(), 1);
}

#[test]
fn hours_parser_test() {
    let j = obj(vec![
        ("results", Json::Array(vec![obj(vec![("status", Json::UInt(200)), ("data", hours_json())])])),
        ("systemStatusMessages", Json::Array(vec![])),
    ]);
    let timetable = schulmanager::SmHours::from_json(j).unwrap();
    assert!(timetable.is_success());
    let parsed = timetable.parse().unwrap();
    assert_eq!(parsed.get(&1).unwrap().len(), 1);
    assert_eq!(parsed.get(&1).unwrap()[0].0.hour, 8);
}

#[test]
fn current_year_is_used_without_a_year() {
    let params = TimetableBodyParams::new(3, 4, 1, None).unwrap();
    assert_eq!(params.student.id, 3);
    assert_eq!(params.student.class_id, 4);
    assert_eq!(params.start.len(), 10);
    assert_ne!(params.start, params.end);
    let body = RequestBody::new_timetable_body(3, 4, 10, Some(2024)).unwrap();
    assert_eq!(member(&body.requests[0].parameters, "start"), Some(&s("2024-03-04")));
    assert_eq!(RequestBody::new_timetable_body(3, 4, 60, Some(2024)).unwrap_err(), SmError::InvalidWeek);
    let hours = RequestBody::new_hours_body();
    assert_eq!(hours.requests.len(), 1);
    assert_eq!(hours.requests[0].endpoint_name, "poqa");
    assert_eq!(hours.requests[0].module_name, "schedules");
}
