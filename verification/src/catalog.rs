//! The catalog of all backups in a directory.

use crate::backup::{spec_first_group, Backup, BackupStatus};
use crate::archive::BACKUP_FILEPATH_PATTERN;
use crate::calendar::{spec_moment_of_text, Moment};
use crate::compaction::{is_plan, purged, refers_to, retained, Plan, Strategy};
use vstd::multiset::Multiset;
use vstd::prelude::*;
use vstd::seq_lib::{to_multiset_build, to_multiset_insert};

verus! {

/// The backups of a directory, from oldest to newest, and the strategy
/// that decides which of them to keep.
pub struct Catalog {
    /// Location of the catalog.
    pub dirpath: String,
    /// Compaction strategy.
    pub strategy: Strategy,
    /// All backups, from oldest to newest.
    pub backups: Vec<Backup>,
}

/// Whether `a` is not later than `b`: an earlier day, or the same day and
/// not a later time.
pub open spec fn not_later(a: Moment, b: Moment) -> bool {
    a.day < b.day || (a.day == b.day && a.second <= b.second)
}

/// Whether the backups are ordered from oldest to newest.
pub open spec fn is_sorted(backups: Seq<Backup>) -> bool {
    forall|i: int, j: int|
        0 <= i < j < backups.len() ==> not_later(
            (#[trigger] backups[i]).creation_date,
            (#[trigger] backups[j]).creation_date,
        )
}

/// The moment that the name of the file at `filepath` states, if it is
/// the name of a backup.
pub open spec fn stated_moment(filepath: Seq<char>) -> Option<Moment> {
    match spec_first_group(BACKUP_FILEPATH_PATTERN@, filepath) {
        Some(stamp) => spec_moment_of_text(stamp),
        None => None,
    }
}

/// Positions, among the first `n` paths, of those that name a backup, in
/// increasing order.
pub open spec fn backup_positions(filepaths: Seq<String>, n: int) -> Seq<int>
    decreases n,
{
    if n <= 0 {
        Seq::empty()
    } else if stated_moment(filepaths[n - 1]@) is Some {
        backup_positions(filepaths, n - 1).push(n - 1)
    } else {
        backup_positions(filepaths, n - 1)
    }
}

/// Whether `backups` describe the files at `positions` of `filepaths`.
pub open spec fn describe(backups: Seq<Backup>, filepaths: Seq<String>, positions: Seq<int>) -> bool {
    &&& backups.len() == positions.len()
    &&& forall|j: int|
        0 <= j < backups.len() ==> 0 <= #[trigger] positions[j] < filepaths.len()
            && backups[j].filepath@ == filepaths[positions[j]]@ && Some(backups[j].creation_date)
            == stated_moment(filepaths[positions[j]]@)
}

/// The backups among the files at `filepaths`, in the order of the
/// paths: files with another name are left out.
pub fn backups_among(filepaths: &Vec<String>) -> (r: Vec<Backup>)
    ensures
        describe(r@, filepaths@, backup_positions(filepaths@, filepaths.len() as int)),
{
    let mut found: Vec<Backup> = Vec::new();
    let mut i: usize = 0;
    while i < filepaths.len()
        invariant
            i <= filepaths.len(),
            describe(found@, filepaths@, backup_positions(filepaths@, i as int)),
        decreases filepaths.len() - i,
    {
        match Backup::from_filepath(filepaths[i].as_str()) {
            Some(backup) => {
                found.push(backup);
            },
            None => {},
        }
        i = i + 1;
    }
    found
}

fn is_not_later(a: &Moment, b: &Moment) -> (r: bool)
    ensures
        r == not_later(*a, *b),
{
    a.day < b.day || (a.day == b.day && a.second <= b.second)
}

/// Order the backups from oldest to newest. Backups made at the same
/// moment come in any order.
pub fn sort_backups(backups: Vec<Backup>) -> (r: Vec<Backup>)
    ensures
        is_sorted(r@),
        r@.to_multiset() == backups@.to_multiset(),
{
    let mut rest = backups;
    let mut out: Vec<Backup> = Vec::new();
    assert(out@.to_multiset().add(rest@.to_multiset()) =~= backups@.to_multiset()) by {
        assert(out@.to_multiset() =~= Multiset::<Backup>::empty()) by {
            out@.to_multiset_ensures();
        }
    }
    while rest.len() > 0
        invariant
            is_sorted(out@),
            out@.to_multiset().add(rest@.to_multiset()) == backups@.to_multiset(),
        decreases rest.len(),
    {
        let ghost before = rest@;
        let backup = rest.pop().unwrap();
        proof {
            assert(before =~= rest@.push(backup));
            to_multiset_build(rest@, backup);
        }
        let mut pos: usize = 0;
        while pos < out.len() && is_not_later(&out[pos].creation_date, &backup.creation_date)
            invariant
                pos <= out.len(),
                forall|k: int|
                    0 <= k < pos ==> not_later(
                        (#[trigger] out[k]).creation_date,
                        backup.creation_date,
                    ),
            decreases out.len() - pos,
        {
            pos = pos + 1;
        }
        let ghost sorted = out@;
        out.insert(pos, backup);
        proof {
            to_multiset_insert(sorted, pos as int, backup);
            assert(out@.to_multiset().add(rest@.to_multiset()) =~= sorted.to_multiset().add(
                before.to_multiset(),
            ));
            assert forall|i: int, j: int| 0 <= i < j < out@.len() implies not_later(
                (#[trigger] out@[i]).creation_date,
                (#[trigger] out@[j]).creation_date,
            ) by {
                if j < pos {
                    assert(out@[i] == sorted[i] && out@[j] == sorted[j]);
                } else if j == pos {
                    assert(out@[i] == sorted[i]);
                } else if i < pos {
                    assert(out@[i] == sorted[i] && out@[j] == sorted[j - 1]);
                    if pos < j - 1 {
                        assert(not_later(sorted[pos as int].creation_date, sorted[j - 1].creation_date));
                    }
                } else if i == pos {
                    assert(out@[j] == sorted[j - 1]);
                    if pos < j - 1 {
                        assert(not_later(sorted[pos as int].creation_date, sorted[j - 1].creation_date));
                    }
                } else {
                    assert(out@[i] == sorted[i - 1] && out@[j] == sorted[j - 1]);
                }
            }
        }
    }
    proof {
        assert(rest@.to_multiset() =~= Multiset::<Backup>::empty()) by {
            rest@.to_multiset_ensures();
        }
        assert(out@.to_multiset() =~= out@.to_multiset().add(rest@.to_multiset()));
    }
    out
}

impl Catalog {
    /// The catalog of the directory `dirpath`, which holds the files at
    /// `filepaths`: the backups among them, from oldest to newest.
    pub fn new(dirpath: &str, strategy: Strategy, filepaths: &Vec<String>) -> (r: Catalog)
        ensures
            r.dirpath@ == dirpath@,
            r.strategy == strategy,
            is_sorted(r.backups@),
            exists|found: Seq<Backup>|
                describe(
                    found,
                    filepaths@,
                    #[trigger] backup_positions(filepaths@, filepaths.len() as int),
                ) && r.backups@.to_multiset() == found.to_multiset(),
    {
        let found = backups_among(filepaths);
        Catalog { dirpath: dirpath.to_owned(), strategy, backups: sort_backups(found) }
    }

    /// Total number of backups in the catalog.
    pub fn len(&self) -> (r: usize)
        ensures
            r == self.backups@.len(),
    {
        self.backups.len()
    }

    /// Whether the catalog has no backups.
    pub fn is_empty(&self) -> (r: bool)
        ensures
            r == (self.backups@.len() == 0),
    {
        self.backups.len() == 0
    }

    /// The most recent backup: the last of the catalog.
    pub fn latest(&self) -> (r: Option<&Backup>)
        ensures
            match r {
                Some(backup) => self.backups@.len() > 0 && *backup == self.backups@.last(),
                None => self.backups@.len() == 0,
            },
    {
        if self.backups.len() == 0 {
            None
        } else {
            Some(&self.backups[self.backups.len() - 1])
        }
    }

    /// What compacting the catalog would do at the moment `now`.
    pub fn plan_at(&self, now: Moment) -> (plan: Plan<'_>)
        ensures
            is_plan(plan, self.backups@, retained(self.strategy, self.backups@, now)),
    {
        self.strategy.plan_at(self.backups.as_slice(), now)
    }

    /// What compacting the catalog would do now.
    pub fn plan(&self) -> (plan: Plan<'_>)
        ensures
            exists|now: Moment|
                is_plan(plan, self.backups@, #[trigger] retained(self.strategy, self.backups@, now)),
    {
        self.strategy.plan(self.backups.as_slice())
    }

    /// Positions of the backups that a listing by path shows, seen from
    /// `now`: those with the status `only_status`, or all.
    pub open spec fn listed_positions(&self, only_status: Option<BackupStatus>, now: Moment) -> Seq<
        int,
    > {
        let kept = retained(self.strategy, self.backups@, now);
        match only_status {
            Some(BackupStatus::Purgeable) => purged(kept, self.backups@.len() as int),
            Some(BackupStatus::Retainable) => kept,
            None => Seq::new(self.backups@.len(), |i: int| i),
        }
    }

    /// The paths that a listing by path shows, seen from `now`: those of
    /// the backups with the status `only_status`, or of all backups.
    pub fn listed_at(&self, only_status: Option<BackupStatus>, now: Moment) -> (r: Vec<&str>)
        ensures
            r@.len() == self.listed_positions(only_status, now).len(),
            forall|j: int|
                0 <= j < r@.len() ==> 0 <= #[trigger] self.listed_positions(only_status, now)[j]
                    < self.backups@.len() && r@[j]@ == self.backups@[self.listed_positions(
                    only_status,
                    now,
                )[j]].filepath@,
    {
        let mut paths: Vec<&str> = Vec::new();
        match only_status {
            Some(status) => {
                let plan = self.plan_at(now);
                let chosen = match status {
                    BackupStatus::Purgeable => plan.purgeable,
                    BackupStatus::Retainable => plan.retainable,
                };
                let ghost positions = self.listed_positions(only_status, now);
                let mut i: usize = 0;
                while i < chosen.len()
                    invariant
                        i <= chosen.len(),
                        refers_to(chosen@, self.backups@, positions),
                        paths@.len() == i,
                        forall|j: int|
                            0 <= j < i ==> (#[trigger] paths@[j])@
                                == self.backups@[positions[j]].filepath@,
                    decreases chosen.len() - i,
                {
                    let backup: &Backup = chosen[i];
                    assert(*backup == self.backups@[positions[i as int]]);
                    paths.push(backup.filepath.as_str());
                    i = i + 1;
                }
            },
            None => {
                let mut i: usize = 0;
                while i < self.backups.len()
                    invariant
                        i <= self.backups.len(),
                        paths@.len() == i,
                        forall|j: int|
                            0 <= j < i ==> (#[trigger] paths@[j])@ == self.backups@[j].filepath@,
                    decreases self.backups.len() - i,
                {
                    paths.push(self.backups[i].filepath.as_str());
                    i = i + 1;
                }
            },
        }
        paths
    }
}

} // verus!
