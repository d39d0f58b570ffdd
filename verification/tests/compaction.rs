use chrono::{Datelike, NaiveDate};
use tmux_backup::backup::{Backup, BackupStatus};
use tmux_backup::calendar::Moment;
use tmux_backup::compaction::Strategy;

fn moment(year: i32, month: u32, day: u32, hour: u32, min: u32, sec: u32) -> Moment {
    let date = NaiveDate::from_ymd_opt(year, month, day).unwrap();
    Moment { day: date.num_days_from_ce(), second: hour * 3600 + min * 60 + sec }
}

fn backup_at(year: i32, month: u32, day: u32, hour: u32, min: u32, sec: u32) -> Backup {
    Backup {
        filepath: format!(
            "/backups/backup-{:04}{:02}{:02}T{:02}{:02}{:02}.tar.zst",
            year, month, day, hour, min, sec
        ),
        creation_date: moment(year, month, day, hour, min, sec),
    }
}

fn generate_hourly_backups(count: usize) -> Vec<Backup> {
    (0..count)
        .map(|i| {
            let hour = i % 24;
            let day = 1 + (i / 24);
            backup_at(2024, 6, day as u32, hour as u32, 0, 0)
        })
        .collect()
}

#[test]
fn empty_catalog_produces_empty_plan() {
    let strategy = Strategy::most_recent(5);
    let backups: Vec<Backup> = vec![];

    let plan = strategy.plan(&backups);

    assert!(plan.purgeable.is_empty());
    assert!(plan.retainable.is_empty());
    assert!(plan.statuses.is_empty());
}

#[test]
fn single_backup_when_k_is_one() {
    let strategy = Strategy::most_recent(1);
    let backups = vec![backup_at(2024, 6, 15, 10, 0, 0)];

    let plan = strategy.plan(&backups);

    assert!(plan.purgeable.is_empty());
    assert_eq!(plan.retainable.len(), 1);
}

#[test]
fn single_backup_when_k_exceeds_count() {
    let strategy = Strategy::most_recent(10);
    let backups = vec![backup_at(2024, 6, 15, 10, 0, 0)];

    let plan = strategy.plan(&backups);

    assert!(plan.purgeable.is_empty());
    assert_eq!(plan.retainable.len(), 1);
}

#[test]
fn keeps_exactly_k_most_recent() {
    let strategy = Strategy::most_recent(3);
    let backups = vec![
        backup_at(2024, 6, 15, 8, 0, 0),
        backup_at(2024, 6, 15, 9, 0, 0),
        backup_at(2024, 6, 15, 10, 0, 0),
        backup_at(2024, 6, 15, 11, 0, 0),
        backup_at(2024, 6, 15, 12, 0, 0),
    ];

    let plan = strategy.plan(&backups);

    assert_eq!(plan.purgeable.len(), 2);
    assert_eq!(plan.retainable.len(), 3);

    assert_eq!(plan.purgeable[0].creation_date.hour(), 8);
    assert_eq!(plan.purgeable[1].creation_date.hour(), 9);

    assert_eq!(plan.retainable[0].creation_date.hour(), 10);
    assert_eq!(plan.retainable[1].creation_date.hour(), 11);
    assert_eq!(plan.retainable[2].creation_date.hour(), 12);

    assert_eq!(plan.purgeable, vec![&backups[0], &backups[1]]);
    assert_eq!(plan.retainable, vec![&backups[2], &backups[3], &backups[4]]);
}

#[test]
fn statuses_preserve_original_order() {
    let strategy = Strategy::most_recent(2);
    let backups = vec![
        backup_at(2024, 6, 15, 8, 0, 0),
        backup_at(2024, 6, 15, 9, 0, 0),
        backup_at(2024, 6, 15, 10, 0, 0),
        backup_at(2024, 6, 15, 11, 0, 0),
    ];

    let plan = strategy.plan(&backups);

    assert_eq!(plan.statuses.len(), 4);
    assert!(matches!(plan.statuses[0].1, BackupStatus::Purgeable));
    assert!(matches!(plan.statuses[1].1, BackupStatus::Purgeable));
    assert!(matches!(plan.statuses[2].1, BackupStatus::Retainable));
    assert!(matches!(plan.statuses[3].1, BackupStatus::Retainable));
    for (i, status) in plan.statuses.iter().enumerate() {
        assert_eq!(status.0, &backups[i]);
    }
}

#[test]
fn k_equals_count_keeps_all() {
    let strategy = Strategy::most_recent(3);
    let backups = vec![
        backup_at(2024, 6, 15, 8, 0, 0),
        backup_at(2024, 6, 15, 9, 0, 0),
        backup_at(2024, 6, 15, 10, 0, 0),
    ];

    let plan = strategy.plan(&backups);

    assert!(plan.purgeable.is_empty());
    assert_eq!(plan.retainable.len(), 3);
}

#[test]
fn k_zero_purges_all() {
    let strategy = Strategy::most_recent(0);
    let backups = vec![backup_at(2024, 6, 15, 8, 0, 0), backup_at(2024, 6, 15, 9, 0, 0)];

    let plan = strategy.plan(&backups);

    assert_eq!(plan.purgeable.len(), 2);
    assert!(plan.retainable.is_empty());
}

#[test]
fn handles_large_catalog() {
    let strategy = Strategy::most_recent(10);
    let backups = generate_hourly_backups(100);

    let plan = strategy.plan(&backups);

    assert_eq!(plan.purgeable.len(), 90);
    assert_eq!(plan.retainable.len(), 10);

    for retained in &plan.retainable {
        assert!(backups[90..].contains(retained));
    }
}

#[test]
fn keep_most_recent_shows_count() {
    let strategy = Strategy::most_recent(42);
    assert_eq!(strategy.to_string(), "KeepMostRecent: 42");
}

#[test]
fn classic_shows_name() {
    let strategy = Strategy::Classic;
    assert_eq!(strategy.to_string(), "Classic");
}

#[test]
fn most_recent_stores_k() {
    let strategy = Strategy::most_recent(7);
    match strategy {
        Strategy::KeepMostRecent { k } => assert_eq!(k, 7),
        _ => panic!("Expected KeepMostRecent variant"),
    }
}

#[test]
fn keeping_more_than_there_are_purges_nothing() {
    let backups = generate_hourly_backups(7);
    for k in 7..12 {
        let plan = Strategy::most_recent(k).plan(&backups);
        assert!(plan.purgeable.is_empty());
        assert_eq!(plan.retainable.len(), 7);
    }
}

#[test]
fn classic_keeps_the_latest_of_each_hour() {
    let now = moment(2024, 6, 15, 12, 30, 0);
    let backups = vec![
        backup_at(2024, 6, 15, 10, 5, 0),
        backup_at(2024, 6, 15, 10, 45, 0),
        backup_at(2024, 6, 15, 11, 10, 0),
        backup_at(2024, 6, 15, 12, 0, 0),
        backup_at(2024, 6, 15, 12, 29, 59),
    ];

    let plan = Strategy::Classic.plan_at(&backups, now);

    assert_eq!(plan.retainable, vec![&backups[1], &backups[2], &backups[4]]);
    assert_eq!(plan.purgeable, vec![&backups[0], &backups[3]]);
    assert_eq!(plan.statuses.len(), 5);
    assert_eq!(plan.statuses[0].1, BackupStatus::Purgeable);
    assert_eq!(plan.statuses[1].1, BackupStatus::Retainable);
}

#[test]
fn classic_keeps_the_latest_of_each_day_week_and_month() {
    let now = moment(2024, 6, 15, 12, 0, 0);
    let backups = vec![
        backup_at(2023, 6, 1, 9, 0, 0),   // older than 365 days
        backup_at(2024, 3, 3, 9, 0, 0),   // March
        backup_at(2024, 3, 20, 9, 0, 0),  // March, latest
        backup_at(2024, 4, 2, 9, 0, 0),   // April
        backup_at(2024, 5, 20, 9, 0, 0),  // week 21
        backup_at(2024, 5, 22, 9, 0, 0),  // week 21, latest
        backup_at(2024, 5, 28, 9, 0, 0),  // week 22
        backup_at(2024, 6, 10, 8, 0, 0),  // June 10
        backup_at(2024, 6, 10, 20, 0, 0), // June 10, latest
        backup_at(2024, 6, 13, 7, 0, 0),  // June 13
        backup_at(2024, 6, 15, 11, 0, 0), // today
    ];

    let plan = Strategy::Classic.plan_at(&backups, now);

    assert_eq!(
        plan.retainable,
        vec![
            &backups[2],
            &backups[3],
            &backups[5],
            &backups[6],
            &backups[8],
            &backups[9],
            &backups[10]
        ]
    );
    assert_eq!(plan.purgeable, vec![&backups[0], &backups[1], &backups[4], &backups[7]]);
}

#[test]
fn classic_period_bounds() {
    let now = moment(2024, 6, 15, 12, 0, 0);
    let backups = vec![
        backup_at(2023, 6, 16, 12, 0, 0), // exactly 365 days old: too old
        backup_at(2023, 6, 16, 12, 0, 1), // just inside the year
        backup_at(2024, 6, 15, 12, 0, 0), // made now
        backup_at(2024, 6, 15, 12, 0, 1), // in the future
    ];

    let plan = Strategy::Classic.plan_at(&backups, now);

    assert_eq!(plan.retainable, vec![&backups[1], &backups[2]]);
    assert_eq!(plan.purgeable, vec![&backups[0], &backups[3]]);
}

#[test]
fn classic_on_a_dense_year_keeps_few() {
    let now = moment(2024, 6, 15, 12, 30, 0);
    let first = NaiveDate::from_ymd_opt(2023, 6, 1).unwrap().num_days_from_ce();
    let mut backups = Vec::new();
    for day in first..=now.day {
        for minute in (0..1440).step_by(10) {
            let creation_date = Moment { day, second: minute * 60 };
            backups.push(Backup { filepath: format!("/b/{day}-{minute}"), creation_date });
        }
    }

    let plan = Strategy::Classic.plan_at(&backups, now);

    assert!(plan.retainable.len() <= 392);
    assert_eq!(plan.retainable.len(), 48);
    assert_eq!(plan.retainable.len() + plan.purgeable.len(), backups.len());
    assert_eq!(plan.statuses.len(), backups.len());
}

#[test]
fn classic_plan_reads_the_clock() {
    let backups = vec![backup_at(2000, 1, 1, 0, 0, 0)];
    let plan = Strategy::Classic.plan(&backups);
    assert_eq!(plan.purgeable, vec![&backups[0]]);
    assert!(plan.retainable.is_empty());
}
