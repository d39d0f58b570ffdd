//! Keeping the number of backups under control.
//!
//! A [`Strategy`] splits a list of backups, ordered from oldest to newest,
//! into those to keep and those to delete.

use crate::backup::{Backup, BackupStatus};
use crate::calendar::{
    day_of_month, iso_week, local_now, month, spec_day_of_month, spec_iso_week, spec_month, Moment,
};
use crate::text::{decimal_chars, join, number_text};
use vstd::prelude::*;

verus! {

/// How to choose the backups to keep.
#[derive(Debug, Clone)]
pub enum Strategy {
    /// Keep the `k` most recent backups.
    KeepMostRecent {
        /// Number of recent backups to keep.
        k: usize,
    },
    /// Keep fewer backups the older they are: the latest of each hour of
    /// the past day, of each day of the past week, of each ISO week of the
    /// past four weeks and of each month of the past year.
    Classic,
}

/// What a strategy would do to a list of backups.
pub struct Plan<'a> {
    /// Backups to delete, in the order of the list.
    pub purgeable: Vec<&'a Backup>,
    /// Backups to keep.
    pub retainable: Vec<&'a Backup>,
    /// Every backup of the list with its status, in the order of the list.
    pub statuses: Vec<(&'a Backup, BackupStatus)>,
}

/// The four periods of the classic strategy, from the most recent.
#[derive(Debug, Clone, Copy)]
pub enum Period {
    /// The past 24 hours, one backup per hour of the day.
    Hours,
    /// The six days before that, one backup per day of the month.
    Days,
    /// The three weeks before that, one backup per ISO week.
    Weeks,
    /// The rest of the past 365 days, one backup per month.
    Months,
}

/// Whether a backup made at `made` falls into `period`, seen from `now`.
///
/// With `age` the time from `made` to `now`, the periods are
/// `0 <= age < 24h`, `24h <= age < 7d`, `7d <= age < 28d` and
/// `28d <= age < 365d`: they do not overlap.
pub open spec fn in_period(period: Period, made: Moment, now: Moment) -> bool {
    let age = now.offset() - made.offset();
    match period {
        Period::Hours => 0 <= age < 86400,
        Period::Days => 86400 <= age < 7 * 86400,
        Period::Weeks => 7 * 86400 <= age < 28 * 86400,
        Period::Months => 28 * 86400 <= age < 365 * 86400,
    }
}

/// Whether two moments fall into the same slot of `period`: the same hour
/// of the day, day of the month, ISO week, or month.
pub open spec fn same_slot(period: Period, a: Moment, b: Moment) -> bool {
    match period {
        Period::Hours => a.second / 3600 == b.second / 3600,
        Period::Days => spec_day_of_month(a.day as int) == spec_day_of_month(b.day as int),
        Period::Weeks => spec_iso_week(a.day as int) == spec_iso_week(b.day as int),
        Period::Months => spec_month(a.day as int) == spec_month(b.day as int),
    }
}

/// Positions of the backups kept for `period` among the first `n` of
/// `backups`.
///
/// The backups of the period are taken in the order of the list. One that
/// falls into the same slot as the one before it replaces it, so that of
/// each run of backups in one slot the last is kept.
pub open spec fn kept_in_period(backups: Seq<Backup>, now: Moment, period: Period, n: int) -> Seq<
    int,
>
    decreases n,
{
    if n <= 0 {
        Seq::empty()
    } else {
        let before = kept_in_period(backups, now, period, n - 1);
        let made = backups[n - 1].creation_date;
        if !in_period(period, made, now) {
            before
        } else if before.len() > 0 && same_slot(
            period,
            backups[before.last()].creation_date,
            made,
        ) {
            before.drop_last().push(n - 1)
        } else {
            before.push(n - 1)
        }
    }
}

/// Positions of the backups that `strategy` keeps, in the order in which
/// the plan lists them.
///
/// The classic strategy lists the backups kept for the oldest period first.
pub open spec fn retained(strategy: Strategy, backups: Seq<Backup>, now: Moment) -> Seq<int> {
    match strategy {
        Strategy::KeepMostRecent { k } => {
            let kept = if k as int <= backups.len() {
                k as int
            } else {
                backups.len() as int
            };
            Seq::new(kept as nat, |j: int| backups.len() - kept + j)
        },
        Strategy::Classic => {
            let n = backups.len() as int;
            kept_in_period(backups, now, Period::Months, n) + kept_in_period(
                backups,
                now,
                Period::Weeks,
                n,
            ) + kept_in_period(backups, now, Period::Days, n) + kept_in_period(
                backups,
                now,
                Period::Hours,
                n,
            )
        },
    }
}

/// Positions below `n` that are not among `kept`, in increasing order.
pub open spec fn purged(kept: Seq<int>, n: int) -> Seq<int>
    decreases n,
{
    if n <= 0 {
        Seq::empty()
    } else if kept.contains(n - 1) {
        purged(kept, n - 1)
    } else {
        purged(kept, n - 1).push(n - 1)
    }
}

/// Whether `refs` are the backups at `positions` of `backups`.
pub open spec fn refers_to(refs: Seq<&Backup>, backups: Seq<Backup>, positions: Seq<int>) -> bool {
    &&& refs.len() == positions.len()
    &&& forall|j: int|
        0 <= j < refs.len() ==> 0 <= #[trigger] positions[j] < backups.len() && *refs[j]
            == backups[positions[j]]
}

/// Whether `plan` keeps exactly the backups at the positions `kept`, in
/// that order, deletes all others, and lists every backup with its status.
pub open spec fn is_plan(plan: Plan, backups: Seq<Backup>, kept: Seq<int>) -> bool {
    &&& refers_to(plan.retainable@, backups, kept)
    &&& refers_to(plan.purgeable@, backups, purged(kept, backups.len() as int))
    &&& plan.statuses@.len() == backups.len()
    &&& forall|i: int|
        0 <= i < backups.len() ==> *(#[trigger] plan.statuses@[i]).0 == backups[i]
            && plan.statuses@[i].1 == if kept.contains(i) {
            BackupStatus::Retainable
        } else {
            BackupStatus::Purgeable
        }
}

/// Positions as mathematical integers.
pub open spec fn as_ints(positions: Seq<usize>) -> Seq<int> {
    positions.map_values(|i: usize| i as int)
}

fn in_period_exec(period: Period, made: &Moment, now: &Moment) -> (r: bool)
    ensures
        r == in_period(period, *made, *now),
{
    let age: i64 = now.seconds() - made.seconds();
    match period {
        Period::Hours => 0 <= age && age < 86400,
        Period::Days => 86400 <= age && age < 604800,
        Period::Weeks => 604800 <= age && age < 2419200,
        Period::Months => 2419200 <= age && age < 31536000,
    }
}

fn same_slot_exec(period: Period, a: &Moment, b: &Moment) -> (r: bool)
    ensures
        r == same_slot(period, *a, *b),
{
    match period {
        Period::Hours => a.hour() == b.hour(),
        Period::Days => match (day_of_month(a.day), day_of_month(b.day)) {
            (Some(x), Some(y)) => x == y,
            (None, None) => true,
            _ => false,
        },
        Period::Weeks => match (iso_week(a.day), iso_week(b.day)) {
            (Some(x), Some(y)) => x.0 == y.0 && x.1 == y.1,
            (None, None) => true,
            _ => false,
        },
        Period::Months => match (month(a.day), month(b.day)) {
            (Some(x), Some(y)) => x == y,
            (None, None) => true,
            _ => false,
        },
    }
}

fn keep_in_period(backups: &[Backup], now: &Moment, period: Period, kept: &mut Vec<usize>)
    ensures
        as_ints(final(kept)@) == as_ints(old(kept)@) + kept_in_period(
            backups@,
            *now,
            period,
            backups.len() as int,
        ),
{
    let ghost start = kept@;
    let base: usize = kept.len();
    let mut i: usize = 0;
    while i < backups.len()
        invariant
            0 <= i <= backups.len(),
            base == start.len(),
            as_ints(kept@) == as_ints(start) + kept_in_period(backups@, *now, period, i as int),
            forall|j: int|
                0 <= j < kept_in_period(backups@, *now, period, i as int).len()
                    ==> 0 <= #[trigger] kept_in_period(backups@, *now, period, i as int)[j] < i,
        decreases backups.len() - i,
    {
        let ghost before = kept_in_period(backups@, *now, period, i as int);
        assert(kept@.len() == as_ints(kept@).len());
        if in_period_exec(period, &backups[i].creation_date, now) {
            let replace: bool = if kept.len() > base {
                let last: usize = kept[kept.len() - 1];
                assert(as_ints(kept@)[kept.len() - 1] == last);
                assert(last == before.last());
                same_slot_exec(period, &backups[last].creation_date, &backups[i].creation_date)
            } else {
                false
            };
            let ghost prior = kept@;
            if replace {
                kept.pop();
                assert(kept@ =~= prior.drop_last());
                assert(as_ints(kept@) =~= as_ints(prior).drop_last());
                assert(as_ints(prior).drop_last() =~= as_ints(start) + before.drop_last());
            }
            let ghost popped = kept@;
            kept.push(i);
            proof {
                assert(as_ints(kept@) =~= as_ints(popped).push(i as int));
                if replace {
                    assert(as_ints(kept@) =~= as_ints(start) + before.drop_last().push(i as int));
                } else {
                    assert(as_ints(kept@) =~= as_ints(start) + before.push(i as int));
                }
            }
        }
        i = i + 1;
    }
}

fn assemble<'a>(backups: &'a [Backup], kept: &Vec<usize>) -> (plan: Plan<'a>)
    requires
        forall|j: int| 0 <= j < kept.len() ==> #[trigger] kept[j] < backups.len(),
    ensures
        is_plan(plan, backups@, as_ints(kept@)),
{
    let n: usize = backups.len();
    let mut flags: Vec<bool> = Vec::new();
    let mut i: usize = 0;
    while i < n
        invariant
            i <= n,
            flags.len() == i,
            forall|j: int| 0 <= j < i ==> !(#[trigger] flags[j]),
        decreases n - i,
    {
        flags.push(false);
        i = i + 1;
    }
    let mut retainable: Vec<&'a Backup> = Vec::new();
    let mut j: usize = 0;
    while j < kept.len()
        invariant
            n == backups.len(),
            j <= kept.len(),
            flags.len() == n,
            forall|m: int| 0 <= m < kept.len() ==> #[trigger] kept[m] < backups.len(),
            forall|p: int|
                0 <= p < n ==> (#[trigger] flags[p] <==> as_ints(kept@.take(j as int)).contains(p)),
            retainable.len() == j,
            forall|m: int|
                0 <= m < j ==> *(#[trigger] retainable[m]) == backups[as_ints(kept@)[m]],
        decreases kept.len() - j,
    {
        let position: usize = kept[j];
        proof {
            let done = as_ints(kept@.take(j as int));
            let next = as_ints(kept@.take(j + 1));
            assert(next =~= done.push(position as int));
            assert forall|p: int| 0 <= p < n implies (next.contains(p) <==> (done.contains(p) || p
                == position)) by {
                if done.contains(p) {
                    let w = choose|w: int| 0 <= w < done.len() && done[w] == p;
                    assert(next[w] == p);
                }
                if p == position {
                    assert(next[j as int] == p);
                }
            }
        }
        flags.set(position, true);
        retainable.push(&backups[position]);
        j = j + 1;
    }
    assert(kept@.take(kept.len() as int) =~= kept@);
    let mut purgeable: Vec<&'a Backup> = Vec::new();
    let mut statuses: Vec<(&'a Backup, BackupStatus)> = Vec::new();
    let ghost positions = as_ints(kept@);
    let mut i: usize = 0;
    while i < n
        invariant
            n == backups.len(),
            i <= n,
            flags.len() == n,
            positions == as_ints(kept@),
            forall|p: int| 0 <= p < n ==> (#[trigger] flags[p] <==> positions.contains(p)),
            refers_to(purgeable@, backups@, purged(positions, i as int)),
            statuses.len() == i,
            forall|m: int|
                0 <= m < i ==> *(#[trigger] statuses@[m]).0 == backups[m] && statuses@[m].1
                    == if positions.contains(m) {
                    BackupStatus::Retainable
                } else {
                    BackupStatus::Purgeable
                },
        decreases n - i,
    {
        if flags[i] {
            statuses.push((&backups[i], BackupStatus::Retainable));
        } else {
            purgeable.push(&backups[i]);
            statuses.push((&backups[i], BackupStatus::Purgeable));
        }
        i = i + 1;
    }
    Plan { purgeable, retainable, statuses }
}

impl Strategy {
    /// The strategy in words.
    pub open spec fn spec_text(self) -> Seq<char> {
        match self {
            Strategy::KeepMostRecent { k } => "KeepMostRecent: "@ + decimal_chars(k as nat),
            Strategy::Classic => "Classic"@,
        }
    }

    /// The strategy in words, such as `KeepMostRecent: 10`.
    pub fn to_string(&self) -> (r: String)
        ensures
            r@ == self.spec_text(),
    {
        match self {
            Strategy::KeepMostRecent { k } => {
                let number = number_text(*k as u64);
                join("KeepMostRecent: ", number.as_str())
            },
            Strategy::Classic => "Classic".to_owned(),
        }
    }

    /// The strategy that keeps the `k` most recent backups.
    pub fn most_recent(k: usize) -> (r: Strategy)
        ensures
            r == (Strategy::KeepMostRecent { k }),
    {
        Strategy::KeepMostRecent { k }
    }

    /// Decide which backups to keep and which to delete, `now` being the
    /// present moment. The backups are ordered from oldest to newest.
    pub fn plan_at<'a>(&self, backups: &'a [Backup], now: Moment) -> (plan: Plan<'a>)
        ensures
            is_plan(plan, backups@, retained(*self, backups@, now)),
    {
        let mut kept: Vec<usize> = Vec::new();
        match self {
            Strategy::KeepMostRecent { k } => {
                let n: usize = backups.len();
                let count: usize = if *k <= n {
                    *k
                } else {
                    n
                };
                let mut i: usize = n - count;
                while i < n
                    invariant
                        n == backups.len(),
                        n - count <= i <= n,
                        kept.len() == i - (n - count),
                        forall|j: int| 0 <= j < kept.len() ==> #[trigger] kept[j] == n - count + j,
                    decreases n - i,
                {
                    kept.push(i);
                    i = i + 1;
                }
                assert(as_ints(kept@) =~= retained(*self, backups@, now));
            },
            Strategy::Classic => {
                assert(as_ints(kept@) =~= Seq::<int>::empty());
                keep_in_period(backups, &now, Period::Months, &mut kept);
                keep_in_period(backups, &now, Period::Weeks, &mut kept);
                keep_in_period(backups, &now, Period::Days, &mut kept);
                keep_in_period(backups, &now, Period::Hours, &mut kept);
                assert(as_ints(kept@) =~= retained(*self, backups@, now));
            },
        }
        proof {
            lemma_retained_in_range(*self, backups@, now);
            assert forall|j: int| 0 <= j < kept.len() implies #[trigger] kept[j] < backups.len() by {
                assert(as_ints(kept@)[j] == kept[j]);
            }
        }
        assemble(backups, &kept)
    }

    /// Decide which backups to keep and which to delete at the present
    /// moment. The backups are ordered from oldest to newest.
    ///
    /// Keeping the most recent backups does not depend on the time. The
    /// classic strategy reads the clock, so its plan is that of
    /// [`Strategy::plan_at`] for some moment.
    pub fn plan<'a>(&self, backups: &'a [Backup]) -> (plan: Plan<'a>)
        ensures
            exists|now: Moment| is_plan(plan, backups@, #[trigger] retained(*self, backups@, now)),
    {
        let now = local_now();
        self.plan_at(backups, now)
    }
}

/// Whatever is kept, every position of the list is either kept or
/// purged, never both: the position `i` is purged if and only if it lies
/// below `n` and is not kept.
pub proof fn lemma_purged_is_the_rest(kept: Seq<int>, n: int, i: int)
    ensures
        purged(kept, n).contains(i) <==> (0 <= i < n && !kept.contains(i)),
    decreases n,
{
    let here = purged(kept, n);
    if n > 0 {
        lemma_purged_is_the_rest(kept, n - 1, i);
        let before = purged(kept, n - 1);
        if !kept.contains(n - 1) {
            if here.contains(i) {
                let w = choose|w: int| 0 <= w < here.len() && here[w] == i;
                if w < before.len() {
                    assert(before[w] == i);
                }
            }
            if i == n - 1 {
                assert(here[before.len() as int] == i);
            } else if before.contains(i) {
                let w = choose|w: int| 0 <= w < before.len() && before[w] == i;
                assert(here[w] == i);
            }
        }
    }
}

/// Where the positions from `split` on are kept and no others, the
/// positions below `split` are purged, in increasing order.
pub proof fn lemma_head_purged(kept: Seq<int>, split: int, n: int)
    requires
        0 <= split,
        0 <= n,
        forall|i: int| 0 <= i < n ==> (kept.contains(i) <==> split <= i),
    ensures
        purged(kept, n) == Seq::new(
            if n <= split {
                n as nat
            } else {
                split as nat
            },
            |j: int| j,
        ),
    decreases n,
{
    if n > 0 {
        lemma_head_purged(kept, split, n - 1);
        let count = if n <= split {
            n as nat
        } else {
            split as nat
        };
        assert(purged(kept, n) =~= Seq::new(count, |j: int| j));
    } else {
        assert(purged(kept, n) =~= Seq::new(0nat, |j: int| j));
    }
}

/// Keeping the `k` most recent of the backups purges those before the
/// last `k`, in their order, and keeps the last `k`, in their order; with
/// fewer than `k` backups all are kept.
pub proof fn lemma_most_recent_splits(backups: Seq<Backup>, k: usize, now: Moment)
    ensures
        ({
            let kept = retained(Strategy::KeepMostRecent { k }, backups, now);
            let split = if k as int <= backups.len() {
                backups.len() - k
            } else {
                0
            };
            &&& kept == Seq::new((backups.len() - split) as nat, |j: int| split + j)
            &&& purged(kept, backups.len() as int) == Seq::new(split as nat, |j: int| j)
        }),
{
    let kept = retained(Strategy::KeepMostRecent { k }, backups, now);
    let n = backups.len() as int;
    let split = if k as int <= n {
        n - k
    } else {
        0
    };
    assert(kept =~= Seq::new((n - split) as nat, |j: int| split + j));
    assert forall|i: int| 0 <= i < n implies (kept.contains(i) <==> split <= i) by {
        if split <= i {
            assert(kept[i - split] == i);
        }
    }
    lemma_head_purged(kept, split, n);
}

/// Keeping at least as many of the most recent backups as there are
/// purges none: every plan for it has no purgeable backup.
pub proof fn lemma_keep_all(plan: Plan, backups: Seq<Backup>, k: usize, now: Moment)
    requires
        k >= backups.len(),
        is_plan(plan, backups, retained(Strategy::KeepMostRecent { k }, backups, now)),
    ensures
        plan.purgeable@.len() == 0,
        plan.retainable@.len() == backups.len(),
{
    lemma_most_recent_splits(backups, k, now);
}

/// Whether the backups are ordered from oldest to newest, each made at a
/// time of day below 24 hours.
pub open spec fn is_chronological(backups: Seq<Backup>) -> bool {
    &&& forall|i: int| 0 <= i < backups.len() ==> (#[trigger] backups[i]).creation_date.second < 86400
    &&& forall|i: int, j: int|
        0 <= i < j < backups.len() ==> (#[trigger] backups[i]).creation_date.offset()
            <= (#[trigger] backups[j]).creation_date.offset()
}

/// The stretch of time that holds a moment and within which the slot of
/// `period` cannot change: its hour for the hours, its day for the others.
pub open spec fn stretch(period: Period, m: Moment) -> int {
    match period {
        Period::Hours => m.day * 24 + m.second as int / 3600,
        _ => m.day as int,
    }
}

/// The most backups that one period can keep: one more than the number of
/// times that the stretch can change within the period.
pub open spec fn period_cap(period: Period) -> int {
    match period {
        Period::Hours => 25,
        Period::Days => 7,
        Period::Weeks => 22,
        Period::Months => 338,
    }
}

/// Whether the positions in `kept` are positions among the first `n`
/// backups of the period, with later ones in later stretches.
pub open spec fn is_rising(backups: Seq<Backup>, now: Moment, period: Period, kept: Seq<int>, n: int) -> bool {
    &&& forall|j: int|
        0 <= j < kept.len() ==> 0 <= #[trigger] kept[j] < n && in_period(
            period,
            backups[kept[j]].creation_date,
            now,
        )
    &&& forall|i: int, j: int|
        0 <= i < j < kept.len() ==> stretch(period, backups[#[trigger] kept[i]].creation_date)
            < stretch(period, backups[#[trigger] kept[j]].creation_date)
}

/// Of chronological backups, those kept in a period lie in stretches of
/// their own, later ones in later stretches.
pub proof fn lemma_kept_rising(backups: Seq<Backup>, now: Moment, period: Period, n: int)
    requires
        is_chronological(backups),
        0 <= n <= backups.len(),
    ensures
        is_rising(backups, now, period, kept_in_period(backups, now, period, n), n),
    decreases n,
{
    if n > 0 {
        lemma_kept_rising(backups, now, period, n - 1);
        let before = kept_in_period(backups, now, period, n - 1);
        let here = kept_in_period(backups, now, period, n);
        let made = backups[n - 1].creation_date;
        if in_period(period, made, now) {
            assert forall|j: int| 0 <= j < before.len() implies stretch(
                period,
                backups[#[trigger] before[j]].creation_date,
            ) <= stretch(period, made) by {
                let old = backups[before[j]].creation_date;
                assert(old.offset() <= made.offset());
            }
            if before.len() > 0 && same_slot(period, backups[before.last()].creation_date, made) {
                assert forall|i: int, j: int| 0 <= i < j < here.len() implies stretch(
                    period,
                    backups[#[trigger] here[i]].creation_date,
                ) < stretch(period, backups[#[trigger] here[j]].creation_date) by {
                    assert(here[i] == before[i]);
                    if j < here.len() - 1 {
                        assert(here[j] == before[j]);
                    } else {
                        let last = before.len() - 1;
                        assert(stretch(period, backups[before[i]].creation_date) < stretch(
                            period,
                            backups[before[last]].creation_date,
                        ));
                    }
                }
                assert forall|j: int| 0 <= j < here.len() implies 0 <= #[trigger] here[j] < n
                    && in_period(period, backups[here[j]].creation_date, now) by {
                    if j < here.len() - 1 {
                        assert(here[j] == before[j]);
                    }
                }
            } else {
                assert forall|i: int, j: int| 0 <= i < j < here.len() implies stretch(
                    period,
                    backups[#[trigger] here[i]].creation_date,
                ) < stretch(period, backups[#[trigger] here[j]].creation_date) by {
                    assert(here[i] == before[i]);
                    if j < here.len() - 1 {
                        assert(here[j] == before[j]);
                    } else {
                        let last = before.len() - 1;
                        let old = backups[before[last]].creation_date;
                        assert(stretch(period, backups[before[i]].creation_date) <= stretch(
                            period,
                            old,
                        ));
                        assert(!same_slot(period, old, made));
                        assert(stretch(period, old) <= stretch(period, made));
                        assert(stretch(period, old) != stretch(period, made));
                    }
                }
                assert forall|j: int| 0 <= j < here.len() implies 0 <= #[trigger] here[j] < n
                    && in_period(period, backups[here[j]].creation_date, now) by {
                    if j < here.len() - 1 {
                        assert(here[j] == before[j]);
                    }
                }
            }
        } else {
            assert forall|j: int| 0 <= j < here.len() implies 0 <= #[trigger] here[j] < n
                && in_period(period, backups[here[j]].creation_date, now) by {
                assert(here[j] == before[j]);
            }
        }
    }
}

/// Positions in stretches of their own, later ones in later stretches,
/// are at least as many stretches apart as positions.
pub proof fn lemma_rising_apart(backups: Seq<Backup>, now: Moment, period: Period, kept: Seq<int>, n: int, j: int)
    requires
        is_rising(backups, now, period, kept, n),
        0 <= j < kept.len(),
    ensures
        stretch(period, backups[kept[j]].creation_date) >= stretch(
            period,
            backups[kept[0]].creation_date,
        ) + j,
    decreases j,
{
    if j > 0 {
        lemma_rising_apart(backups, now, period, kept, n, j - 1);
        assert(stretch(period, backups[kept[j - 1]].creation_date) < stretch(
            period,
            backups[kept[j]].creation_date,
        ));
    }
}

/// Of chronological backups, a period keeps no more than its cap,
/// however many backups there are.
pub proof fn lemma_period_cap(backups: Seq<Backup>, now: Moment, period: Period)
    requires
        is_chronological(backups),
    ensures
        kept_in_period(backups, now, period, backups.len() as int).len() <= period_cap(period),
{
    let n = backups.len() as int;
    let kept = kept_in_period(backups, now, period, n);
    lemma_kept_rising(backups, now, period, n);
    if kept.len() > 0 {
        let last = kept.len() - 1;
        lemma_rising_apart(backups, now, period, kept, n, last);
        let first_made = backups[kept[0]].creation_date;
        let last_made = backups[kept[last]].creation_date;
        assert(in_period(period, first_made, now));
        assert(in_period(period, last_made, now));
        assert(first_made.second < 86400);
        assert(last_made.second < 86400);
        assert(stretch(period, last_made) - stretch(period, first_made) < period_cap(period));
    }
}

/// Of chronological backups, the classic strategy keeps at most 392,
/// however many there are: 25 for the hours, 7 for the days, 22 for the
/// weeks and 338 for the months.
pub proof fn lemma_classic_cap(plan: Plan, backups: Seq<Backup>, now: Moment)
    requires
        is_chronological(backups),
        is_plan(plan, backups, retained(Strategy::Classic, backups, now)),
    ensures
        plan.retainable@.len() <= 392,
{
    lemma_period_cap(backups, now, Period::Hours);
    lemma_period_cap(backups, now, Period::Days);
    lemma_period_cap(backups, now, Period::Weeks);
    lemma_period_cap(backups, now, Period::Months);
}

/// The positions kept in a period are positions of the list.
pub proof fn lemma_kept_in_period_in_range(
    backups: Seq<Backup>,
    now: Moment,
    period: Period,
    n: int,
)
    requires
        n <= backups.len(),
    ensures
        forall|j: int|
            0 <= j < kept_in_period(backups, now, period, n).len() ==> 0
                <= #[trigger] kept_in_period(backups, now, period, n)[j] < n,
    decreases n,
{
    if n > 0 {
        lemma_kept_in_period_in_range(backups, now, period, n - 1);
        let before = kept_in_period(backups, now, period, n - 1);
        let here = kept_in_period(backups, now, period, n);
        assert forall|j: int| 0 <= j < here.len() implies 0 <= #[trigger] here[j] < n by {
            if j < here.len() - 1 {
                assert(here[j] == before[j]);
            } else if here != before {
                assert(here[j] == n - 1);
            }
        }
    }
}

/// The positions that a strategy keeps are positions of the list.
pub proof fn lemma_retained_in_range(strategy: Strategy, backups: Seq<Backup>, now: Moment)
    ensures
        forall|j: int|
            0 <= j < retained(strategy, backups, now).len() ==> 0 <= #[trigger] retained(
                strategy,
                backups,
                now,
            )[j] < backups.len(),
{
    let n = backups.len() as int;
    lemma_kept_in_period_in_range(backups, now, Period::Months, n);
    lemma_kept_in_period_in_range(backups, now, Period::Weeks, n);
    lemma_kept_in_period_in_range(backups, now, Period::Days, n);
    lemma_kept_in_period_in_range(backups, now, Period::Hours, n);
}

} // verus!
