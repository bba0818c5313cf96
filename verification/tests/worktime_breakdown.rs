use worktime::time::Duration;
use worktime::time::WorkTime;

#[test]
fn create_work_time() {
    // arrange
    let duration = Duration::minutes(90);

    // act
    let time = WorkTime::new(duration);

    // assert
    assert_eq!(time, WorkTime { days: 0, hours: 1, minutes: 30 });
}

#[test]
fn create_work_day() {
    // arrange
    let duration = Duration::days(1);

    // act
    let time = WorkTime::new(duration);

    // assert
    assert_eq!(time, WorkTime { days: 1, hours: 0, minutes: 0 });
}

#[test]
fn work_week_should_have_40_hours() {
    // arrange
    let duration = Duration::days(5);

    // act
    let time = WorkTime::new(duration);

    // assert
    assert_eq!(time.total_hours(), 40);
}

#[test]
fn create_more_than_work_day() {
    // arrange
    let duration = Duration::hours(9);

    // act
    let time = WorkTime::new(duration);

    // assert
    assert_eq!(time, WorkTime { days: 1, hours: 1, minutes: 0 });
}

#[test]
fn create_empty_work_time() {
    // arrange
    let duration = Duration::seconds(20);

    // act
    let time = WorkTime::new(duration);

    // assert
    assert_eq!(time, WorkTime { days: 0, hours: 0, minutes: 0 });
}

#[test]
fn from_seconds_matches_new() {
    let time = WorkTime::from_seconds(9 * 3600);

    assert_eq!(time, WorkTime { days: 1, hours: 1, minutes: 0 });
}

#[test]
fn total_hours_expands_days() {
    let time = WorkTime { days: 2, hours: 3, minutes: 15 };

    assert_eq!(time.total_hours(), 19);
}

#[test]
fn display_shows_total_hours_and_minutes() {
    let time = WorkTime::new(Duration::minutes(90));
    assert_eq!(time.display_string(), "1 hours 30 minutes");

    let week = WorkTime::new(Duration::days(5));
    assert_eq!(week.display_string(), "40 hours 0 minutes");
}

#[test]
fn shorter_workday_fills_days_sooner() {
    let time = WorkTime::with_workday(Duration::hours(9), 6);

    assert_eq!(time, WorkTime { days: 1, hours: 3, minutes: 0 });
}
