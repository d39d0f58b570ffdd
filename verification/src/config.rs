//! Choices that the user makes on the command line.

use crate::archive::{path_in, spec_path_in};
use crate::backup::BackupStatus;
use crate::compaction::Strategy;
use vstd::prelude::*;

verus! {

/// The strategies that can be chosen.
#[derive(Debug, Clone, Copy, PartialEq, Eq)]
pub enum StrategyValues {
    /// Keep only the most recent backups.
    MostRecent,
    /// Keep fewer backups the older they are.
    Classic,
}

/// The chosen strategy and its parameter.
#[derive(Debug, Clone, Copy, PartialEq, Eq)]
pub struct StrategyConfig {
    /// The strategy.
    pub strategy: StrategyValues,
    /// Number of recent backups to keep; the classic strategy ignores it.
    pub num_backups: u16,
}

impl StrategyConfig {
    /// The compaction strategy that the choices stand for.
    pub fn strategy(&self) -> (r: Strategy)
        ensures
            r == match self.strategy {
                StrategyValues::MostRecent => Strategy::KeepMostRecent {
                    k: self.num_backups as usize,
                },
                StrategyValues::Classic => Strategy::Classic,
            },
    {
        match self.strategy {
            StrategyValues::MostRecent => Strategy::most_recent(self.num_backups as usize),
            StrategyValues::Classic => Strategy::Classic,
        }
    }
}

/// The directory for backups when none is chosen, given the state
/// directory and the home directory of the user as far as the environment
/// states them.
pub open spec fn spec_default_backup_dirpath(
    state_home: Option<Seq<char>>,
    home: Option<Seq<char>>,
) -> Option<Seq<char>> {
    match state_home {
        Some(dir) => Some(spec_path_in(dir, "tmux-backup"@)),
        None => match home {
            Some(dir) => Some(
                spec_path_in(
                    spec_path_in(spec_path_in(dir, ".local"@), "state"@),
                    "tmux-backup"@,
                ),
            ),
            None => None,
        },
    }
}

/// The directory for backups when none is chosen: `tmux-backup` in the
/// state directory `state_home`, or without one in `.local/state` of the
/// home directory `home`. Without either there is none.
pub fn default_backup_dirpath(state_home: Option<&str>, home: Option<&str>) -> (r: Option<String>)
    ensures
        match spec_default_backup_dirpath(
            match state_home {
                Some(dir) => Some(dir@),
                None => None,
            },
            match home {
                Some(dir) => Some(dir@),
                None => None,
            },
        ) {
            Some(path) => r is Some && r.unwrap()@ == path,
            None => r is None,
        },
{
    match state_home {
        Some(dir) => Some(path_in(dir, "tmux-backup")),
        None => match home {
            Some(dir) => {
                let local = path_in(dir, ".local");
                let state = path_in(local.as_str(), "state");
                Some(path_in(state.as_str(), "tmux-backup"))
            },
            None => None,
        },
    }
}

/// What to do with the catalog.
#[derive(Debug, Clone, PartialEq, Eq)]
pub enum CatalogSubcommand {
    /// List the backups.
    List {
        /// Show what each backup holds.
        details_flag: bool,
        /// List only the backups with this status.
        only_backup_status: Option<BackupStatus>,
        /// Print paths instead of a table.
        filepaths_flag: bool,
    },
    /// Delete the backups that the strategy does not keep.
    Compact,
}

} // verus!
