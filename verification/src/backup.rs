//! What the name of a backup file tells about it.

use crate::archive::{backup_filepath_pattern, BACKUP_FILEPATH_PATTERN};
use crate::calendar::{moment_of_text, spec_moment_of_text, Moment};
use crate::text::{integer_chars, integer_text, join};
use vstd::prelude::*;

verus! {

/// A backup file, as far as its name describes it.
///
/// This is enough to list backups and to decide which to keep, without
/// opening any of them.
#[derive(Debug, Clone, PartialEq, Eq, Hash)]
pub struct Backup {
    /// Path to the backup file.
    pub filepath: String,
    /// When the backup was made.
    pub creation_date: Moment,
}

/// The text of the first group of `pattern` where it first matches in
/// `text`, as the crate `regex` finds it; `None` where the pattern does
/// not match, has no such group, or is no pattern.
pub uninterp spec fn spec_first_group(pattern: Seq<char>, text: Seq<char>) -> Option<Seq<char>>;

/// Calls `regex::Regex::new`, then `Regex::captures` on `text` and
/// `Captures::get` for group 1. Claims only that the result depends on
/// the pattern and the text alone.
#[verifier::external_body]
pub(crate) fn first_group(pattern: &str, text: &str) -> (r: Option<String>)
    ensures
        match spec_first_group(pattern@, text@) {
            Some(group) => r is Some && r.unwrap()@ == group,
            None => r is None,
        },
{
    match regex::Regex::new(pattern) {
        Ok(re) => match re.captures(text) {
            Some(groups) => match groups.get(1) {
                Some(group) => Some(group.as_str().to_string()),
                None => None,
            },
            None => None,
        },
        Err(_) => None,
    }
}

/// The age in words of something made `secs` seconds ago: in months of
/// four weeks from the first month on, else in weeks, days, hours,
/// minutes or seconds, whichever is the largest unit that fits.
pub open spec fn spec_age(secs: int) -> Seq<char> {
    if secs >= 2 * 2419200 {
        integer_chars(secs / 2419200) + " months"@
    } else if secs >= 2419200 {
        "1 month"@
    } else if secs >= 2 * 604800 {
        integer_chars(secs / 604800) + " weeks"@
    } else if secs >= 604800 {
        "1 week"@
    } else if secs >= 2 * 86400 {
        integer_chars(secs / 86400) + " days"@
    } else if secs >= 86400 {
        "1 day"@
    } else if secs >= 2 * 3600 {
        integer_chars(secs / 3600) + " hours"@
    } else if secs >= 3600 {
        "1 hour"@
    } else if secs >= 2 * 60 {
        integer_chars(secs / 60) + " minutes"@
    } else if secs >= 60 {
        "1 minute"@
    } else {
        integer_chars(secs) + " seconds"@
    }
}

fn counted(count: i64, unit: &str) -> (r: String)
    requires
        count > i64::MIN,
    ensures
        r@ == integer_chars(count as int) + unit@,
{
    let number = integer_text(count);
    join(number.as_str(), unit)
}

impl Backup {
    /// Describe the file at `filepath`, if its name is that of a backup:
    /// it must match [`backup_filepath_pattern`], and the date and time in
    /// it must exist.
    pub fn from_filepath(filepath: &str) -> (r: Option<Backup>)
        ensures
            match spec_first_group(BACKUP_FILEPATH_PATTERN@, filepath@) {
                Some(stamp) => match spec_moment_of_text(stamp) {
                    Some(moment) => r is Some && r.unwrap().filepath@ == filepath@
                        && r.unwrap().creation_date == moment,
                    None => r is None,
                },
                None => r is None,
            },
    {
        let stamp = first_group(backup_filepath_pattern(), filepath);
        Backup::with_stamp(filepath, stamp)
    }

    /// Describe the file at `filepath`, given the date and time found in
    /// its name: `None` if none was found, or if it is no date and time.
    pub fn with_stamp(filepath: &str, stamp: Option<String>) -> (r: Option<Backup>)
        ensures
            match stamp {
                Some(text) => match spec_moment_of_text(text@) {
                    Some(moment) => r is Some && r.unwrap().filepath@ == filepath@
                        && r.unwrap().creation_date == moment,
                    None => r is None,
                },
                None => r is None,
            },
    {
        match stamp {
            Some(text) => Backup::made_at(filepath, moment_of_text(text.as_str())),
            None => None,
        }
    }

    /// Describe the file at `filepath`, given the moment that its name
    /// states, if it states one.
    pub fn made_at(filepath: &str, moment: Option<Moment>) -> (r: Option<Backup>)
        ensures
            match moment {
                Some(m) => r is Some && r.unwrap().filepath@ == filepath@
                    && r.unwrap().creation_date == m,
                None => r is None,
            },
    {
        match moment {
            Some(creation_date) => Some(Backup { filepath: filepath.to_owned(), creation_date }),
            None => None,
        }
    }

    /// How long ago the backup was made, seen from `now`, in words such
    /// as `3 days`.
    pub fn age(&self, now: Moment) -> (r: String)
        ensures
            r@ == spec_age(now.offset() - self.creation_date.offset()),
    {
        let secs: i64 = now.seconds() - self.creation_date.seconds();
        if secs >= 4838400 {
            counted(secs / 2419200, " months")
        } else if secs >= 2419200 {
            "1 month".to_owned()
        } else if secs >= 1209600 {
            counted(secs / 604800, " weeks")
        } else if secs >= 604800 {
            "1 week".to_owned()
        } else if secs >= 172800 {
            counted(secs / 86400, " days")
        } else if secs >= 86400 {
            "1 day".to_owned()
        } else if secs >= 7200 {
            counted(secs / 3600, " hours")
        } else if secs >= 3600 {
            "1 hour".to_owned()
        } else if secs >= 120 {
            counted(secs / 60, " minutes")
        } else if secs >= 60 {
            "1 minute".to_owned()
        } else {
            counted(secs, " seconds")
        }
    }
}

/// Whether a backup is kept or deleted when the catalog is compacted.
#[derive(Debug, Clone, Copy, PartialEq, Eq)]
pub enum BackupStatus {
    /// The backup is kept.
    Retainable,
    /// The backup is deleted.
    Purgeable,
}

impl BackupStatus {
    /// The status in words, padded with spaces to twelve characters.
    pub fn to_string(&self) -> (r: String)
        ensures
            r@ == match *self {
                BackupStatus::Retainable => "retainable  "@,
                BackupStatus::Purgeable => "purgeable   "@,
            },
    {
        match self {
            BackupStatus::Retainable => "retainable  ".to_owned(),
            BackupStatus::Purgeable => "purgeable   ".to_owned(),
        }
    }
}

} // verus!
