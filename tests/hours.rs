use schulmanager::client::{HoursResponse, HoursResults};
use schulmanager::date::ClockTime;
use schulmanager::errors::SmError;
use schulmanager::sm::{HoursResult, LessonHours};
use schulmanager::SmHours;

fn hour(number: usize, from: &[&str], until: &[&str]) -> LessonHours {
    LessonHours {
        number,
        from: from.first().unwrap_or(&"").to_string(),
        until: until.first().unwrap_or(&"").to_string(),
        from_by_day: from.iter().map(|s| s.to_string()).collect(),
        until_by_day: until.iter().map(|s| s.to_string()).collect(),
        id: number + 100,
    }
}

fn hours(statuses: &[u16], data: Vec<LessonHours>) -> SmHours {
    let mut data = Some(data);
    SmHours {
        interna_response: HoursResponse {
            results: statuses
                .iter()
                .map(|s| HoursResults { status: *s, data: HoursResult { status: *s, data: data.take().unwrap_or_default() } })
                .collect(),
            system_status_messages: vec![],
        },
    }
}

fn hms(t: &ClockTime) -> (u32, u32, u32) {
    (t.hour, t.minute, t.second)
}

#[test]
fn clock_times_parse() {
    let t = ClockTime::parse("08:45:30").unwrap();
    assert_eq!(hms(&t), (8, 45, 30));
    assert!(ClockTime::parse("24:00:00").is_none());
    assert!(ClockTime::parse("8:45").is_none());
}

#[test]
fn hours_map_by_number() {
    let h = hours(
        &[200],
        vec![
            hour(1, &["08:00:00", "08:10:00"], &["08:45:00", "08:55:00"]),
            hour(2, &["09:00:00"], &["09:45:00", "10:00:00"]),
        ],
    );
    assert!(h.is_success());
    let map = h.parse().unwrap();
    assert_eq!(map.len(), 2);
    let first = map.get(&1).unwrap();
    assert_eq!(first.len(), 2);
    assert_eq!(hms(&first[1].0), (8, 10, 0));
    assert_eq!(hms(&first[1].1), (8, 55, 0));
    assert_eq!(map.get(&2).unwrap().len(), 1);
}

#[test]
fn later_hour_with_same_number_wins() {
    let h = hours(&[200], vec![hour(3, &["10:00:00"], &["10:45:00"]), hour(3, &["11:00:00"], &["11:45:00"])]);
    let map = h.parse().unwrap();
    assert_eq!(map.len(), 1);
    assert_eq!(hms(&map.get(&3).unwrap()[0].0), (11, 0, 0));
}

#[test]
fn hours_errors() {
    assert_eq!(hours(&[], vec![]).parse().unwrap_err(), SmError::NoData);
    let bad_time = hours(&[200], vec![hour(1, &["8 o'clock"], &["08:45:00"])]);
    assert_eq!(bad_time.parse().unwrap_err(), SmError::TimeParseError);
    let short = hours(&[200], vec![hour(1, &["08:00:00", "08:10:00"], &["08:45:00"])]);
    assert_eq!(short.parse().unwrap_err(), SmError::MalformedRecord);
    assert!(!hours(&[200, 404], vec![]).is_success());
    assert!(hours(&[200], vec![]).parse().unwrap().is_empty());
}
