//! What a backup archive holds: version 1 of the format.
//!
//! An archive is a container with a file that names the version of the
//! format, a file with the metadata of the sessions, windows and panes, and
//! a directory with the content of each pane.

use crate::client::Client;
use crate::error::Error;
use crate::ids::PaneId;
use crate::pane::Pane;
use crate::session::Session;
use crate::text::{decimal_chars, join, number_text, same_text};
use crate::window::{are_pane_ids, Window};
use vstd::prelude::*;

verus! {

/// Version of the archive format.
pub const FORMAT_VERSION: &'static str = "1.0";

/// Name of the file that holds the version of the archive format.
pub const VERSION_FILENAME: &'static str = "version";

/// Name of the directory that holds the content of the panes.
pub const PANES_DIR_NAME: &'static str = "panes-content";

/// Name of the file that holds the metadata.
pub const METADATA_FILENAME: &'static str = "metadata.json";

/// Pattern that the paths of backup files match. Its first group is the
/// date and time at which the backup was made.
pub const BACKUP_FILEPATH_PATTERN: &'static str = r".*backup-(\d{8}T\d{6})\.\d{6}\.tar\.zst";

/// Pattern that the paths of backup files match: in a file name such as
/// `backup-20220731T222948.123456.tar.zst` its first group is the date
/// and time at which the backup was made.
pub fn backup_filepath_pattern() -> (r: &'static str)
    ensures
        r@ == BACKUP_FILEPATH_PATTERN@,
{
    BACKUP_FILEPATH_PATTERN
}

/// The path of the file `name` in the directory `dirpath`, as
/// `std::path::Path::join` makes it.
pub uninterp spec fn spec_path_in(dirpath: Seq<char>, name: Seq<char>) -> Seq<char>;

/// Calls `std::path::Path::join` on `dirpath` with `name` and hands the
/// path out as text. Claims only that the result depends on the two
/// texts alone.
#[verifier::external_body]
pub(crate) fn path_in(dirpath: &str, name: &str) -> (r: String)
    ensures
        r@ == spec_path_in(dirpath@, name@),
{
    std::path::Path::new(dirpath).join(name).to_string_lossy().into_owned()
}

/// Calls `chrono::Local::now` and `DateTime::format` with
/// `%Y%m%dT%H%M%S%.6f`: the present moment, to the microsecond. Nothing
/// is claimed of the result.
#[verifier::external_body]
pub(crate) fn local_stamp() -> String {
    chrono::Local::now().format("%Y%m%dT%H%M%S%.6f").to_string()
}

/// Name of the backup file made at the moment that `stamp` states.
pub fn backup_filename(stamp: &str) -> (r: String)
    ensures
        r@ == "backup-"@ + stamp@ + ".tar.zst"@,
{
    let name = join("backup-", stamp);
    join(name.as_str(), ".tar.zst")
}

/// Path of the backup file made in `dirpath` at the moment that `stamp`
/// states.
pub fn backup_filepath(dirpath: &str, stamp: &str) -> (r: String)
    ensures
        r@ == spec_path_in(dirpath@, "backup-"@ + stamp@ + ".tar.zst"@),
{
    let name = backup_filename(stamp);
    path_in(dirpath, name.as_str())
}

/// Path for a new backup file in `dirpath`, named after the present
/// moment: the path that [`backup_filepath`] gives for some moment.
pub fn new_backup_filepath(dirpath: &str) -> (r: String)
    ensures
        exists|stamp: Seq<char>|
            r@ == #[trigger] spec_path_in(dirpath@, "backup-"@ + stamp + ".tar.zst"@),
{
    let stamp = local_stamp();
    backup_filepath(dirpath, stamp.as_str())
}

/// Number of sessions, windows and panes in an archive.
#[derive(Debug, Clone, PartialEq, Eq)]
pub struct Overview {
    /// Version of the archive format.
    pub version: String,
    /// Number of sessions in the archive.
    pub num_sessions: u16,
    /// Number of windows in the archive.
    pub num_windows: u16,
    /// Number of panes in the archive.
    pub num_panes: u16,
}

impl Overview {
    /// The three counts in words.
    pub open spec fn spec_text(self) -> Seq<char> {
        decimal_chars(self.num_sessions as nat) + " sessions "@ + decimal_chars(
            self.num_windows as nat,
        ) + " windows "@ + decimal_chars(self.num_panes as nat) + " panes"@
    }

    /// The three counts in words, such as `3 sessions 12 windows 47 panes`.
    pub fn to_string(&self) -> (r: String)
        ensures
            r@ == self.spec_text(),
    {
        let sessions = number_text(self.num_sessions as u64);
        let windows = number_text(self.num_windows as u64);
        let panes = number_text(self.num_panes as u64);
        let a = join(sessions.as_str(), " sessions ");
        let b = join(a.as_str(), windows.as_str());
        let c = join(b.as_str(), " windows ");
        let d = join(c.as_str(), panes.as_str());
        join(d.as_str(), " panes")
    }
}

/// Number of sessions, windows and panes, as shown after a command.
#[derive(Debug, Clone, PartialEq, Eq)]
pub struct Report {
    /// Number of sessions.
    pub num_sessions: u16,
    /// Number of windows.
    pub num_windows: u16,
    /// Number of panes.
    pub num_panes: u16,
}

impl Report {
    /// The three counts in words.
    pub open spec fn spec_text(self) -> Seq<char> {
        decimal_chars(self.num_sessions as nat) + " sessions ("@ + decimal_chars(
            self.num_windows as nat,
        ) + " windows, "@ + decimal_chars(self.num_panes as nat) + " panes)"@
    }

    /// The three counts in words, such as `3 sessions (12 windows, 47 panes)`.
    pub fn to_string(&self) -> (r: String)
        ensures
            r@ == self.spec_text(),
    {
        let sessions = number_text(self.num_sessions as u64);
        let windows = number_text(self.num_windows as u64);
        let panes = number_text(self.num_panes as u64);
        let a = join(sessions.as_str(), " sessions (");
        let b = join(a.as_str(), windows.as_str());
        let c = join(b.as_str(), " windows, ");
        let d = join(c.as_str(), panes.as_str());
        join(d.as_str(), " panes)")
    }
}

/// The sessions, windows and panes of a tmux environment at one moment:
/// enough to create them again.
#[derive(Debug, Clone, PartialEq, Eq)]
pub struct Metadata {
    /// Version of the archive format.
    pub version: String,
    /// Where the attention of the client was.
    pub client: Client,
    /// The sessions.
    pub sessions: Vec<Session>,
    /// The windows of all sessions.
    pub windows: Vec<Window>,
    /// The panes of all windows.
    pub panes: Vec<Pane>,
}

/// Whether `name` is among `names`.
pub open spec fn names_contain(names: Seq<String>, name: Seq<char>) -> bool {
    exists|i: int| 0 <= i < names.len() && (#[trigger] names[i])@ == name
}

/// Whether an id with the text of `id` is among `ids`.
pub open spec fn ids_contain(ids: Seq<PaneId>, id: PaneId) -> bool {
    exists|i: int| 0 <= i < ids.len() && (#[trigger] ids[i]).0@ == id.0@
}

/// Positions, among the first `n` windows, of those linked to the session
/// called `name`, in increasing order.
pub open spec fn related_windows(windows: Seq<Window>, name: Seq<char>, n: int) -> Seq<int>
    decreases n,
{
    if n <= 0 {
        Seq::empty()
    } else if names_contain(windows[n - 1].sessions@, name) {
        related_windows(windows, name, n - 1).push(n - 1)
    } else {
        related_windows(windows, name, n - 1)
    }
}

/// Positions, among the first `n` panes, of those whose id is among `ids`,
/// in increasing order.
pub open spec fn related_panes(panes: Seq<Pane>, ids: Seq<PaneId>, n: int) -> Seq<int>
    decreases n,
{
    if n <= 0 {
        Seq::empty()
    } else if ids_contain(ids, panes[n - 1].id) {
        related_panes(panes, ids, n - 1).push(n - 1)
    } else {
        related_panes(panes, ids, n - 1)
    }
}

/// Whether `refs` are the items at `positions` of `items`.
pub open spec fn picks<T>(refs: Seq<&T>, items: Seq<T>, positions: Seq<int>) -> bool {
    &&& refs.len() == positions.len()
    &&& forall|j: int|
        0 <= j < refs.len() ==> 0 <= #[trigger] positions[j] < items.len() && *refs[j]
            == items[positions[j]]
}

/// Whether `name` is among `names`.
pub fn contains_name(names: &Vec<String>, name: &str) -> (r: bool)
    ensures
        r == names_contain(names@, name@),
{
    let mut i: usize = 0;
    while i < names.len()
        invariant
            i <= names.len(),
            forall|j: int| 0 <= j < i ==> (#[trigger] names[j])@ != name@,
        decreases names.len() - i,
    {
        if same_text(names[i].as_str(), name) {
            return true;
        }
        i = i + 1;
    }
    false
}

/// Whether an id with the text of `id` is among `ids`.
pub fn contains_id(ids: &Vec<PaneId>, id: &PaneId) -> (r: bool)
    ensures
        r == ids_contain(ids@, *id),
{
    let mut i: usize = 0;
    while i < ids.len()
        invariant
            i <= ids.len(),
            forall|j: int| 0 <= j < i ==> (#[trigger] ids[j]).0@ != id.0@,
        decreases ids.len() - i,
    {
        if ids[i].same(id) {
            return true;
        }
        i = i + 1;
    }
    false
}

/// Position of the first pane, among the first `n`, whose id reads `id`.
pub open spec fn position_of(panes: Seq<Pane>, id: Seq<char>, n: int) -> Option<int>
    decreases n,
{
    if n <= 0 {
        None
    } else {
        match position_of(panes, id, n - 1) {
            Some(i) => Some(i),
            None => if panes[n - 1].id.0@ == id {
                Some(n - 1)
            } else {
                None
            },
        }
    }
}

/// For each of the first `n` ids, the position of the first pane with that
/// id; `None` if one of them names no pane.
pub open spec fn positions_of(panes: Seq<Pane>, ids: Seq<PaneId>, n: int) -> Option<Seq<int>>
    decreases n,
{
    if n <= 0 {
        Some(Seq::empty())
    } else {
        match (
            positions_of(panes, ids, n - 1),
            position_of(panes, ids[n - 1].0@, panes.len() as int),
        ) {
            (Some(before), Some(i)) => Some(before.push(i)),
            _ => None,
        }
    }
}

/// Whether `found` are the panes of `window` among `panes`, in the order
/// of its layout: for each pane id of the layout, the first pane with that
/// id.
pub open spec fn in_layout_order(found: Seq<&Pane>, panes: Seq<Pane>, window: Window) -> bool {
    window.has_layout() && exists|ids: Seq<PaneId>|
        are_pane_ids(ids, window.layout_leaves()) && (#[trigger] positions_of(
            panes,
            ids,
            ids.len() as int,
        )) is Some && picks(found, panes, positions_of(panes, ids, ids.len() as int).unwrap())
}

/// Whether the layout of `window` names a pane that is not among `panes`.
pub open spec fn lacks_pane(panes: Seq<Pane>, window: Window) -> bool {
    window.has_layout() && exists|ids: Seq<PaneId>|
        are_pane_ids(ids, window.layout_leaves()) && (#[trigger] positions_of(
            panes,
            ids,
            ids.len() as int,
        )) is None
}

/// Whether a session called `name` is among `sessions`.
pub open spec fn sessions_contain(sessions: Seq<Session>, name: Seq<char>) -> bool {
    exists|i: int| 0 <= i < sessions.len() && (#[trigger] sessions[i]).name@ == name
}

/// Whether every session that `window` is linked to is among `sessions`.
pub open spec fn links_are_known(sessions: Seq<Session>, window: Window) -> bool {
    forall|k: int|
        0 <= k < window.sessions@.len() ==> sessions_contain(
            sessions,
            (#[trigger] window.sessions@[k])@,
        )
}

/// Whether `window` fits into the snapshot: it is linked to sessions of
/// the snapshot only, its layout can be decoded, and every pane that its
/// layout names is in the snapshot.
pub open spec fn window_fits(metadata: Metadata, window: Window) -> bool {
    &&& links_are_known(metadata.sessions@, window)
    &&& window.has_layout()
    &&& !lacks_pane(metadata.panes@, window)
}

/// Check the version that an archive names: it must be the version of
/// the format that this library reads.
pub fn check_version(version: &str) -> (r: Result<(), Error>)
    ensures
        match r {
            Ok(_) => version@ == FORMAT_VERSION@,
            Err(Error::ArchiveVersion(message)) => version@ != FORMAT_VERSION@ && message@
                == if version@.len() == 0 {
                "could not read the format version"@
            } else {
                "Unsupported format version: `"@ + version@ + "`"@
            },
            Err(_) => false,
        },
{
    if same_text(version, FORMAT_VERSION) {
        Ok(())
    } else if version.is_empty() {
        Err(Error::ArchiveVersion("could not read the format version".to_owned()))
    } else {
        let message = join("Unsupported format version: `", version);
        Err(Error::ArchiveVersion(join(message.as_str(), "`")))
    }
}

/// Check the metadata read from the archive at `backup_filepath`: it must
/// not be empty.
pub fn check_metadata(bytes: &[u8], backup_filepath: &str) -> (r: Result<(), Error>)
    ensures
        match r {
            Ok(_) => bytes@.len() > 0,
            Err(Error::MissingMetadata(message)) => bytes@.len() == 0 && message@
                == "missing metadata in `"@ + backup_filepath@ + "`"@,
            Err(_) => false,
        },
{
    if bytes.len() == 0 {
        let message = join("missing metadata in `", backup_filepath);
        Err(Error::MissingMetadata(join(message.as_str(), "`")))
    } else {
        Ok(())
    }
}

/// A count as the overview shows it: its lowest 16 bits.
fn shown_count(n: usize) -> (r: u16)
    ensures
        r == n % 65536,
{
    (n % 65536) as u16
}

impl Metadata {
    /// Whether the snapshot is whole: every window fits into it.
    pub open spec fn is_consistent(&self) -> bool {
        forall|w: int|
            0 <= w < self.windows@.len() ==> window_fits(*self, #[trigger] self.windows@[w])
    }

    fn has_session(&self, name: &str) -> (r: bool)
        ensures
            r == sessions_contain(self.sessions@, name@),
    {
        let mut i: usize = 0;
        while i < self.sessions.len()
            invariant
                i <= self.sessions.len(),
                forall|j: int| 0 <= j < i ==> (#[trigger] self.sessions[j]).name@ != name@,
            decreases self.sessions.len() - i,
        {
            if same_text(self.sessions[i].name.as_str(), name) {
                return true;
            }
            i = i + 1;
        }
        false
    }

    fn check_window(&self, window: &Window) -> (r: Result<(), Error>)
        ensures
            r is Ok <==> window_fits(*self, *window),
    {
        let mut k: usize = 0;
        while k < window.sessions.len()
            invariant
                k <= window.sessions.len(),
                forall|j: int|
                    0 <= j < k ==> sessions_contain(
                        self.sessions@,
                        (#[trigger] window.sessions@[j])@,
                    ),
            decreases window.sessions.len() - k,
        {
            if !self.has_session(window.sessions[k].as_str()) {
                return Err(Error::UnknownSession(window.sessions[k].clone()));
            }
            k = k + 1;
        }
        match self.panes_in_layout_order(window) {
            Ok(found) => {
                proof {
                    lemma_found_lacks_none(found@, self.panes@, *window);
                }
                Ok(())
            },
            Err(e) => Err(e),
        }
    }

    /// Check that the snapshot is whole: every window must be linked to
    /// sessions of the snapshot only, its layout must be a layout
    /// descriptor, and every pane that its layout names must be in the
    /// snapshot.
    pub fn validate(&self) -> (r: Result<(), Error>)
        ensures
            r is Ok <==> self.is_consistent(),
    {
        let mut w: usize = 0;
        while w < self.windows.len()
            invariant
                w <= self.windows.len(),
                forall|v: int| 0 <= v < w ==> window_fits(*self, #[trigger] self.windows@[v]),
            decreases self.windows.len() - w,
        {
            match self.check_window(&self.windows[w]) {
                Ok(_) => {},
                Err(e) => {
                    assert(!window_fits(*self, self.windows@[w as int]));
                    return Err(e);
                },
            }
            w = w + 1;
        }
        Ok(())
    }

    /// The number of sessions, windows and panes. A count above 65535
    /// shows as its lowest 16 bits.
    pub fn overview(&self) -> (r: Overview)
        ensures
            r.version@ == self.version@,
            r.num_sessions == self.sessions.len() % 65536,
            r.num_windows == self.windows.len() % 65536,
            r.num_panes == self.panes.len() % 65536,
    {
        Overview {
            version: self.version.clone(),
            num_sessions: shown_count(self.sessions.len()),
            num_windows: shown_count(self.windows.len()),
            num_panes: shown_count(self.panes.len()),
        }
    }

    /// The number of sessions and windows; panes are not counted.
    pub fn get_report(&self) -> (r: Report)
        ensures
            r.num_sessions == self.sessions.len() % 65536,
            r.num_windows == self.windows.len() % 65536,
            r.num_panes == 0,
    {
        Report {
            num_sessions: shown_count(self.sessions.len()),
            num_windows: shown_count(self.windows.len()),
            num_panes: 0,
        }
    }

    /// The windows linked to `session`, in the order of the metadata.
    pub fn windows_related_to<'a>(&'a self, session: &Session) -> (r: Vec<&'a Window>)
        ensures
            picks(
                r@,
                self.windows@,
                related_windows(self.windows@, session.name@, self.windows.len() as int),
            ),
    {
        let mut found: Vec<&'a Window> = Vec::new();
        let mut i: usize = 0;
        while i < self.windows.len()
            invariant
                i <= self.windows.len(),
                picks(found@, self.windows@, related_windows(self.windows@, session.name@, i as int)),
            decreases self.windows.len() - i,
        {
            if contains_name(&self.windows[i].sessions, session.name.as_str()) {
                found.push(&self.windows[i]);
            }
            i = i + 1;
        }
        found
    }

    /// The panes of `window`, in the order of the metadata: those whose id
    /// the layout of the window names.
    pub fn panes_related_to<'a>(&'a self, window: &Window) -> (r: Vec<&'a Pane>)
        requires
            window.has_layout(),
        ensures
            exists|ids: Seq<PaneId>|
                are_pane_ids(ids, window.layout_leaves()) && picks(
                    r@,
                    self.panes@,
                    #[trigger] related_panes(self.panes@, ids, self.panes.len() as int),
                ),
    {
        let ids = window.pane_ids();
        let mut found: Vec<&'a Pane> = Vec::new();
        let mut i: usize = 0;
        while i < self.panes.len()
            invariant
                i <= self.panes.len(),
                picks(found@, self.panes@, related_panes(self.panes@, ids@, i as int)),
            decreases self.panes.len() - i,
        {
            if contains_id(&ids, &self.panes[i].id) {
                found.push(&self.panes[i]);
            }
            i = i + 1;
        }
        found
    }

    /// The panes of `window` in the order of its layout, which is the
    /// order in which to create them.
    ///
    /// It is an error if the layout cannot be decoded, or names a pane
    /// that the metadata does not hold.
    pub fn panes_in_layout_order<'a>(&'a self, window: &Window) -> (r: Result<
        Vec<&'a Pane>,
        Error,
    >)
        ensures
            match r {
                Ok(found) => in_layout_order(found@, self.panes@, *window),
                Err(e) => if window.has_layout() {
                    e is UnknownPane && lacks_pane(self.panes@, *window)
                } else {
                    e is ParseError
                },
            },
    {
        let ids = match window.layout_pane_ids() {
            Ok(ids) => ids,
            Err(e) => {
                return Err(e);
            },
        };
        let mut found: Vec<&'a Pane> = Vec::new();
        let mut k: usize = 0;
        while k < ids.len()
            invariant
                k <= ids.len(),
                window.has_layout(),
                are_pane_ids(ids@, window.layout_leaves()),
                positions_of(self.panes@, ids@, k as int) is Some,
                picks(found@, self.panes@, positions_of(self.panes@, ids@, k as int).unwrap()),
            decreases ids.len() - k,
        {
            let mut i: usize = 0;
            let mut hit: Option<usize> = None;
            while i < self.panes.len() && hit.is_none()
                invariant
                    i <= self.panes.len(),
                    k < ids.len(),
                    match hit {
                        Some(h) => h < self.panes.len() && position_of(
                            self.panes@,
                            ids[k as int].0@,
                            self.panes.len() as int,
                        ) == Some(h as int),
                        None => position_of(self.panes@, ids[k as int].0@, i as int) is None,
                    },
                decreases self.panes.len() - i + if hit is None { 1int } else { 0int },
            {
                if self.panes[i].id.same(&ids[k]) {
                    hit = Some(i);
                    proof {
                        lemma_position_stays(
                            self.panes@,
                            ids[k as int].0@,
                            i + 1,
                            self.panes.len() as int,
                        );
                    }
                } else {
                    i = i + 1;
                }
            }
            match hit {
                Some(h) => {
                    found.push(&self.panes[h]);
                },
                None => {
                    proof {
                        assert(positions_of(self.panes@, ids@, k + 1) is None);
                        lemma_positions_stay_none(self.panes@, ids@, k + 1, ids.len() as int);
                        assert(positions_of(self.panes@, ids@, ids@.len() as int) is None);
                    }
                    return Err(Error::UnknownPane(ids[k].0.clone()));
                },
            }
            k = k + 1;
        }
        assert(positions_of(self.panes@, ids@, ids@.len() as int) is Some);
        Ok(found)
    }
}

/// Ids that read the same name the same panes.
pub proof fn lemma_positions_by_text(panes: Seq<Pane>, a: Seq<PaneId>, b: Seq<PaneId>, n: int)
    requires
        n <= a.len(),
        n <= b.len(),
        forall|i: int| 0 <= i < n ==> (#[trigger] a[i]).0@ == b[i].0@,
    ensures
        positions_of(panes, a, n) == positions_of(panes, b, n),
    decreases n,
{
    if n > 0 {
        lemma_positions_by_text(panes, a, b, n - 1);
        assert(a[n - 1].0@ == b[n - 1].0@);
    }
}

/// A window whose panes were found in the order of its layout lacks no
/// pane.
pub proof fn lemma_found_lacks_none(found: Seq<&Pane>, panes: Seq<Pane>, window: Window)
    requires
        in_layout_order(found, panes, window),
    ensures
        !lacks_pane(panes, window),
{
    if lacks_pane(panes, window) {
        let a = choose|ids: Seq<PaneId>|
            are_pane_ids(ids, window.layout_leaves()) && (#[trigger] positions_of(
                panes,
                ids,
                ids.len() as int,
            )) is Some && picks(found, panes, positions_of(panes, ids, ids.len() as int).unwrap());
        let b = choose|ids: Seq<PaneId>|
            are_pane_ids(ids, window.layout_leaves()) && (#[trigger] positions_of(
                panes,
                ids,
                ids.len() as int,
            )) is None;
        assert forall|i: int| 0 <= i < a.len() implies (#[trigger] a[i]).0@ == b[i].0@ by {
            assert(b[i].0@ == a[i].0@);
        }
        lemma_positions_by_text(panes, a, b, a.len() as int);
    }
}

/// Once a pane with the id is found among the first `n`, it is the one
/// found among more.
pub proof fn lemma_position_stays(panes: Seq<Pane>, id: Seq<char>, n: int, m: int)
    requires
        n <= m,
        position_of(panes, id, n) is Some,
    ensures
        position_of(panes, id, m) == position_of(panes, id, n),
    decreases m - n,
{
    if n < m {
        lemma_position_stays(panes, id, n, m - 1);
    }
}

/// Once one of the first `n` ids names no pane, the same holds of more.
pub proof fn lemma_positions_stay_none(panes: Seq<Pane>, ids: Seq<PaneId>, n: int, m: int)
    requires
        n <= m,
        positions_of(panes, ids, n) is None,
    ensures
        positions_of(panes, ids, m) is None,
    decreases m - n,
{
    if n < m {
        lemma_positions_stay_none(panes, ids, n, m - 1);
    }
}

} // verus!
