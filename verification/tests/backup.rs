use chrono::{Datelike, NaiveDate};
use tmux_backup::backup::{Backup, BackupStatus};
use tmux_backup::calendar::Moment;

fn datetime(year: i32, month: u32, day: u32, hour: u32, min: u32, sec: u32) -> Moment {
    let date = NaiveDate::from_ymd_opt(year, month, day).unwrap();
    Moment { day: date.num_days_from_ce(), second: hour * 3600 + min * 60 + sec }
}

fn backup_at(year: i32, month: u32, day: u32, hour: u32, min: u32, sec: u32) -> Backup {
    Backup {
        filepath: String::from("/tmp/backup.tar.zst"),
        creation_date: datetime(year, month, day, hour, min, sec),
    }
}

#[test]
fn fresh_backup_shows_seconds() {
    let backup = backup_at(2024, 6, 15, 10, 30, 0);
    let now = datetime(2024, 6, 15, 10, 30, 45);

    assert_eq!(backup.age(now), "45 seconds");
}

#[test]
fn zero_seconds_is_still_seconds() {
    let backup = backup_at(2024, 6, 15, 10, 30, 0);
    let now = datetime(2024, 6, 15, 10, 30, 0);

    assert_eq!(backup.age(now), "0 seconds");
}

#[test]
fn exactly_one_minute() {
    let backup = backup_at(2024, 6, 15, 10, 30, 0);
    let now = datetime(2024, 6, 15, 10, 31, 0);

    assert_eq!(backup.age(now), "1 minute");
}

#[test]
fn two_minutes_uses_plural() {
    let backup = backup_at(2024, 6, 15, 10, 30, 0);
    let now = datetime(2024, 6, 15, 10, 32, 0);

    assert_eq!(backup.age(now), "2 minutes");
}

#[test]
fn fifty_nine_minutes_before_hour_threshold() {
    let backup = backup_at(2024, 6, 15, 10, 0, 0);
    let now = datetime(2024, 6, 15, 10, 59, 59);

    assert_eq!(backup.age(now), "59 minutes");
}

#[test]
fn exactly_one_hour() {
    let backup = backup_at(2024, 6, 15, 10, 0, 0);
    let now = datetime(2024, 6, 15, 11, 0, 0);

    assert_eq!(backup.age(now), "1 hour");
}

#[test]
fn just_under_two_hours_is_still_one_hour() {
    let backup = backup_at(2024, 6, 15, 10, 0, 0);
    let now = datetime(2024, 6, 15, 11, 59, 59);

    assert_eq!(backup.age(now), "1 hour");
}

#[test]
fn two_hours_uses_plural() {
    let backup = backup_at(2024, 6, 15, 10, 0, 0);
    let now = datetime(2024, 6, 15, 12, 0, 0);

    assert_eq!(backup.age(now), "2 hours");
}

#[test]
fn twenty_three_hours_before_day_threshold() {
    let backup = backup_at(2024, 6, 15, 0, 0, 0);
    let now = datetime(2024, 6, 15, 23, 59, 59);

    assert_eq!(backup.age(now), "23 hours");
}

#[test]
fn exactly_one_day() {
    let backup = backup_at(2024, 6, 15, 10, 0, 0);
    let now = datetime(2024, 6, 16, 10, 0, 0);

    assert_eq!(backup.age(now), "1 day");
}

#[test]
fn six_days_before_week_threshold() {
    let backup = backup_at(2024, 6, 15, 10, 0, 0);
    let now = datetime(2024, 6, 21, 9, 59, 59);

    assert_eq!(backup.age(now), "5 days");
}

#[test]
fn exactly_one_week() {
    let backup = backup_at(2024, 6, 15, 10, 0, 0);
    let now = datetime(2024, 6, 22, 10, 0, 0);

    assert_eq!(backup.age(now), "1 week");
}

#[test]
fn two_weeks() {
    let backup = backup_at(2024, 6, 1, 10, 0, 0);
    let now = datetime(2024, 6, 15, 10, 0, 0);

    assert_eq!(backup.age(now), "2 weeks");
}

#[test]
fn three_weeks_exactly() {
    let backup = backup_at(2024, 6, 1, 10, 0, 0);
    let now = datetime(2024, 6, 22, 10, 0, 0);

    assert_eq!(backup.age(now), "3 weeks");
}

#[test]
fn just_under_four_weeks_still_shows_weeks() {
    let backup = backup_at(2024, 6, 1, 10, 0, 0);
    let now = datetime(2024, 6, 29, 9, 59, 59);

    assert_eq!(backup.age(now), "3 weeks");
}

#[test]
fn exactly_one_month_four_weeks() {
    let backup = backup_at(2024, 6, 1, 10, 0, 0);
    let now = datetime(2024, 6, 29, 10, 0, 0);

    assert_eq!(backup.age(now), "1 month");
}

#[test]
fn two_months() {
    let backup = backup_at(2024, 1, 1, 10, 0, 0);
    let now = datetime(2024, 3, 1, 10, 0, 0);

    assert_eq!(backup.age(now), "2 months");
}

#[test]
fn many_months_ago() {
    let backup = backup_at(2024, 1, 1, 0, 0, 0);
    let now = datetime(2024, 12, 1, 0, 0, 0);

    let age = backup.age(now);
    assert!(age.ends_with("months"), "Expected months, got: {age}");
    assert_eq!(age, "11 months");
}

#[test]
fn age_of_a_backup_from_the_future() {
    let backup = backup_at(2024, 6, 15, 10, 30, 45);
    let now = datetime(2024, 6, 15, 10, 30, 0);

    assert_eq!(backup.age(now), "-45 seconds");
}

#[test]
fn retainable_is_padded_to_12_chars() {
    let status = BackupStatus::Retainable;
    assert_eq!(status.to_string(), "retainable  ");
}

#[test]
fn purgeable_is_padded_to_12_chars() {
    let status = BackupStatus::Purgeable;
    assert_eq!(status.to_string(), "purgeable   ");
}

#[test]
fn same_path_and_date_are_equal() {
    let a = backup_at(2024, 6, 15, 10, 30, 0);
    let b = backup_at(2024, 6, 15, 10, 30, 0);

    assert_eq!(a, b);
}

#[test]
fn different_dates_are_not_equal() {
    let a = backup_at(2024, 6, 15, 10, 30, 0);
    let b = backup_at(2024, 6, 15, 10, 30, 1);

    assert_ne!(a, b);
}

#[test]
fn different_paths_are_not_equal() {
    let a = Backup {
        filepath: String::from("/tmp/backup1.tar.zst"),
        creation_date: datetime(2024, 6, 15, 10, 30, 0),
    };
    let b = Backup {
        filepath: String::from("/tmp/backup2.tar.zst"),
        creation_date: datetime(2024, 6, 15, 10, 30, 0),
    };

    assert_ne!(a, b);
}

#[test]
fn backup_from_a_filepath() {
    let path = "/home/user/.local/state/tmux-backup/backup-20220910T172024.141993.tar.zst";
    let backup = Backup::from_filepath(path).unwrap();

    assert_eq!(backup.filepath, path);
    assert_eq!(backup.creation_date, datetime(2022, 9, 10, 17, 20, 24));
    assert_eq!(backup.creation_date.hour(), 17);
}

#[test]
fn no_backup_from_other_files() {
    assert_eq!(Backup::from_filepath("backup-20220910T172024.tar.zst"), None);
    assert_eq!(Backup::from_filepath("snapshot-20220910T172024.141993.tar.zst"), None);
    assert_eq!(Backup::from_filepath("backup-20221310T172024.141993.tar.zst"), None);
    assert_eq!(Backup::from_filepath("backup-20220910T252024.141993.tar.zst"), None);
    assert_eq!(Backup::from_filepath(""), None);
}

#[test]
fn backup_with_a_given_stamp() {
    let backup = Backup::with_stamp("/b/x", Some(String::from("20240229T120000"))).unwrap();
    assert_eq!(backup.creation_date, datetime(2024, 2, 29, 12, 0, 0));
    assert_eq!(Backup::with_stamp("/b/x", Some(String::from("20230229T120000"))), None);
    assert_eq!(Backup::with_stamp("/b/x", None), None);
    assert_eq!(Backup::made_at("/b/x", None), None);
}

#[test]
fn moment_in_seconds() {
    assert_eq!(Moment { day: 2, second: 5 }.seconds(), 172805);
    assert_eq!(Moment { day: -1, second: 0 }.seconds(), -86400);
    assert_eq!(Moment { day: 0, second: 7199 }.hour(), 1);
}

#[test]
fn just_under_two_minutes_is_still_one_minute() {
    let backup = backup_at(2024, 6, 15, 10, 30, 0);
    let now = datetime(2024, 6, 15, 10, 31, 59);

    assert_eq!(backup.age(now), "1 minute");
}
