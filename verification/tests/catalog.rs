use tmux_backup::backup::BackupStatus;
use tmux_backup::calendar::Moment;
use tmux_backup::catalog::{backups_among, sort_backups, Catalog};
use tmux_backup::compaction::Strategy;

fn paths() -> Vec<String> {
    vec![
        "/b/backup-20220910T172024.141993.tar.zst".to_string(),
        "/b/notes.txt".to_string(),
        "/b/backup-20220908T080000.000001.tar.zst".to_string(),
        "/b/backup-20220910T172024.tar.zst".to_string(),
        "/b/backup-20220909T235959.999999.tar.zst".to_string(),
    ]
}

#[test]
fn catalog_lists_backups_from_oldest_to_newest() {
    let catalog = Catalog::new("/b", Strategy::most_recent(2), &paths());

    assert_eq!(catalog.dirpath, "/b");
    assert_eq!(catalog.len(), 3);
    assert!(!catalog.is_empty());
    let names: Vec<&str> = catalog.backups.iter().map(|b| b.filepath.as_str()).collect();
    assert_eq!(
        names,
        vec![
            "/b/backup-20220908T080000.000001.tar.zst",
            "/b/backup-20220909T235959.999999.tar.zst",
            "/b/backup-20220910T172024.141993.tar.zst",
        ]
    );
    assert_eq!(catalog.latest(), Some(&catalog.backups[2]));
}

#[test]
fn empty_catalog() {
    let catalog = Catalog::new("/b", Strategy::Classic, &vec!["/b/readme".to_string()]);
    assert_eq!(catalog.len(), 0);
    assert!(catalog.is_empty());
    assert_eq!(catalog.latest(), None);
    assert!(catalog.plan().statuses.is_empty());
}

#[test]
fn backups_keep_the_order_of_the_paths() {
    let found = backups_among(&paths());
    let names: Vec<&str> = found.iter().map(|b| b.filepath.as_str()).collect();
    assert_eq!(
        names,
        vec![
            "/b/backup-20220910T172024.141993.tar.zst",
            "/b/backup-20220908T080000.000001.tar.zst",
            "/b/backup-20220909T235959.999999.tar.zst",
        ]
    );
    let sorted = sort_backups(found.clone());
    assert_eq!(sorted, vec![found[1].clone(), found[2].clone(), found[0].clone()]);
}

#[test]
fn catalog_plan_and_listing() {
    let catalog = Catalog::new("/b", Strategy::most_recent(2), &paths());
    let now = Moment { day: 800000, second: 0 };

    let plan = catalog.plan();
    assert_eq!(plan.purgeable, vec![&catalog.backups[0]]);
    assert_eq!(plan.retainable, vec![&catalog.backups[1], &catalog.backups[2]]);

    assert_eq!(
        catalog.listed_at(Some(BackupStatus::Purgeable), now),
        vec!["/b/backup-20220908T080000.000001.tar.zst"]
    );
    assert_eq!(
        catalog.listed_at(Some(BackupStatus::Retainable), now),
        vec![
            "/b/backup-20220909T235959.999999.tar.zst",
            "/b/backup-20220910T172024.141993.tar.zst"
        ]
    );
    assert_eq!(catalog.listed_at(None, now).len(), 3);
}
