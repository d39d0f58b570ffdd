use tmux_backup::backup::BackupStatus;
use tmux_backup::compaction::Strategy;
use tmux_backup::config::{
    default_backup_dirpath, CatalogSubcommand, StrategyConfig, StrategyValues,
};

#[test]
fn default_strategy_is_most_recent_with_10() {
    let config = StrategyConfig { strategy: StrategyValues::MostRecent, num_backups: 10 };
    match config.strategy() {
        Strategy::KeepMostRecent { k } => assert_eq!(k, 10),
        _ => panic!("Expected KeepMostRecent strategy"),
    }
}

#[test]
fn most_recent_with_custom_count() {
    let config = StrategyConfig { strategy: StrategyValues::MostRecent, num_backups: 25 };
    match config.strategy() {
        Strategy::KeepMostRecent { k } => assert_eq!(k, 25),
        _ => panic!("Expected KeepMostRecent strategy"),
    }
}

#[test]
fn classic_strategy() {
    let config = StrategyConfig { strategy: StrategyValues::Classic, num_backups: 10 };
    assert!(matches!(config.strategy(), Strategy::Classic));
}

#[test]
fn num_backups_ignored_for_classic() {
    let config = StrategyConfig { strategy: StrategyValues::Classic, num_backups: 5 };
    assert!(matches!(config.strategy(), Strategy::Classic));
}

#[test]
fn catalog_subcommands() {
    let list = CatalogSubcommand::List {
        details_flag: false,
        only_backup_status: Some(BackupStatus::Purgeable),
        filepaths_flag: true,
    };
    assert_ne!(list, CatalogSubcommand::Compact);
}

#[test]
fn explicit_most_recent_strategy() {
    let config = StrategyConfig { strategy: StrategyValues::MostRecent, num_backups: 10 };
    assert!(matches!(config.strategy(), Strategy::KeepMostRecent { k: 10 }));
}

#[test]
fn long_form_arguments_work() {
    let config = StrategyConfig { strategy: StrategyValues::MostRecent, num_backups: 15 };
    match config.strategy() {
        Strategy::KeepMostRecent { k } => assert_eq!(k, 15),
        _ => panic!("Expected KeepMostRecent strategy"),
    }
}

#[test]
fn default_directory_for_backups() {
    assert_eq!(
        default_backup_dirpath(Some("/x/state"), Some("/home/me")),
        Some("/x/state/tmux-backup".to_string())
    );
    assert_eq!(
        default_backup_dirpath(None, Some("/home/me")),
        Some("/home/me/.local/state/tmux-backup".to_string())
    );
    assert_eq!(default_backup_dirpath(None, None), None);
}
