//! Rebuilding the sessions of a snapshot.
//!
//! Tmux gives new ids to what it creates, so a session is rebuilt step by
//! step: a [`SessionRestore`] says which command comes next, and takes what
//! tmux answered before it says the following one. Within a session the
//! order is fixed: the session with its first window and first pane, the
//! other panes of that window in the order of its layout, the layout, then
//! the other windows in the same way, and at last the active panes.

use crate::archive::{
    contains_name, in_layout_order, lacks_pane, lemma_found_lacks_none, names_contain, picks,
    related_windows, Metadata,
};
use crate::client::Client;
use crate::error::{is_parse_error, Error};
use crate::ids::{PaneId, SessionId, WindowId};
use crate::pane::Pane;
use crate::record::{char_at, expect_char, read_id, spec_id, text_between};
use crate::server::check_empty_process_output;
use crate::session::Session;
use crate::text::join;
use crate::window::Window;
use vstd::prelude::*;
use vstd::string::StrSliceExecFns;

verus! {

/// Name of the session that keeps the server running while sessions are
/// restored from outside tmux.
pub const PLACEHOLDER_SESSION_NAME: &'static str = "[placeholder]";

/// A pane of the snapshot together with the id of the pane created for it.
#[derive(Debug, Clone, PartialEq, Eq)]
pub struct Pair {
    /// The pane of the snapshot.
    pub source: Pane,
    /// The id of the new pane.
    pub target: PaneId,
}

/// A window to create, with its panes in the order of its layout.
#[derive(Debug, Clone)]
pub struct WindowPlan<'a> {
    /// The window of the snapshot.
    pub window: &'a Window,
    /// The panes of the window, first the one to create first.
    pub panes: Vec<&'a Pane>,
}

/// A command for tmux.
#[derive(Debug, Clone, PartialEq, Eq)]
pub enum Command<'a> {
    /// Create the session with its first window and first pane; tmux
    /// answers with the three new ids.
    NewSession { session: &'a Session, window: &'a Window, pane: &'a Pane },
    /// Create a window with its first pane in the session with the id
    /// `session_id`; tmux answers with the two new ids.
    NewWindow { session: &'a Session, session_id: SessionId, window: &'a Window, pane: &'a Pane },
    /// Split the window `target` for one more pane; tmux answers with the
    /// new id.
    SplitWindow { target: WindowId, pane: &'a Pane },
    /// Apply the layout of `window` to the window `target`.
    SetLayout { window: &'a Window, target: WindowId },
    /// Make the window `target` the active one.
    SelectWindow { target: WindowId },
    /// Make the pane `target` the active one.
    SelectPane { target: PaneId },
}

/// What tmux answered to a command.
#[derive(Debug, Clone, PartialEq, Eq)]
pub enum Reply {
    /// The ids of a new session, its window and its pane.
    SessionCreated { session: SessionId, window: WindowId, pane: PaneId },
    /// The ids of a new window and its pane.
    WindowCreated { window: WindowId, pane: PaneId },
    /// The id of a new pane.
    PaneCreated { pane: PaneId },
    /// Nothing, as expected of a command that changes a selection or a
    /// layout.
    Silent,
}

/// The ids that tmux prints after it created a session, if `s` is such
/// a line: `session_id:window_id:pane_id`, such as `$1:@2:%3`.
pub open spec fn spec_session_created(s: Seq<char>) -> Option<(Seq<char>, Seq<char>, Seq<char>)> {
    match spec_id(s, 0, '$') {
        Some(at1) if char_at(s, at1, ':') => match spec_id(s, at1 + 1, '@') {
            Some(at2) if char_at(s, at2, ':') => match spec_id(s, at2 + 1, '%') {
                Some(at3) if at3 == s.len() => Some(
                    (s.subrange(0, at1), s.subrange(at1 + 1, at2), s.subrange(at2 + 1, at3)),
                ),
                _ => None,
            },
            _ => None,
        },
        _ => None,
    }
}

/// The ids that tmux prints after it created a window, if `s` is such a
/// line: `window_id:pane_id`, such as `@2:%3`.
pub open spec fn spec_window_created(s: Seq<char>) -> Option<(Seq<char>, Seq<char>)> {
    match spec_id(s, 0, '@') {
        Some(at1) if char_at(s, at1, ':') => match spec_id(s, at1 + 1, '%') {
            Some(at2) if at2 == s.len() => Some((s.subrange(0, at1), s.subrange(at1 + 1, at2))),
            _ => None,
        },
        _ => None,
    }
}

/// The id that tmux prints after it created a pane, if `s` is such a
/// line: `pane_id`, such as `%3`.
pub open spec fn spec_pane_created(s: Seq<char>) -> Option<Seq<char>> {
    match spec_id(s, 0, '%') {
        Some(at1) if at1 == s.len() => Some(s),
        _ => None,
    }
}

fn read_session_created(text: &str) -> (r: Option<Reply>)
    ensures
        match spec_session_created(text@) {
            Some(ids) => match r {
                Some(Reply::SessionCreated { session, window, pane }) => session.0@ == ids.0
                    && window.0@ == ids.1 && pane.0@ == ids.2,
                _ => false,
            },
            None => r is None,
        },
{
    let n: usize = text.unicode_len();
    let at1 = match read_id(text, n, 0, '$') {
        Some(end) => end,
        None => {
            return None;
        },
    };
    if !expect_char(text, n, at1, ':') {
        return None;
    }
    let at2 = match read_id(text, n, at1 + 1, '@') {
        Some(end) => end,
        None => {
            return None;
        },
    };
    if !expect_char(text, n, at2, ':') {
        return None;
    }
    let at3 = match read_id(text, n, at2 + 1, '%') {
        Some(end) => end,
        None => {
            return None;
        },
    };
    if at3 != n {
        return None;
    }
    Some(
        Reply::SessionCreated {
            session: SessionId(text_between(text, 0, at1)),
            window: WindowId(text_between(text, at1 + 1, at2)),
            pane: PaneId(text_between(text, at2 + 1, at3)),
        },
    )
}

fn read_window_created(text: &str) -> (r: Option<Reply>)
    ensures
        match spec_window_created(text@) {
            Some(ids) => match r {
                Some(Reply::WindowCreated { window, pane }) => window.0@ == ids.0 && pane.0@
                    == ids.1,
                _ => false,
            },
            None => r is None,
        },
{
    let n: usize = text.unicode_len();
    let at1 = match read_id(text, n, 0, '@') {
        Some(end) => end,
        None => {
            return None;
        },
    };
    if !expect_char(text, n, at1, ':') {
        return None;
    }
    let at2 = match read_id(text, n, at1 + 1, '%') {
        Some(end) => end,
        None => {
            return None;
        },
    };
    if at2 != n {
        return None;
    }
    Some(
        Reply::WindowCreated {
            window: WindowId(text_between(text, 0, at1)),
            pane: PaneId(text_between(text, at1 + 1, at2)),
        },
    )
}

impl Reply {
    /// Read what tmux printed after it created a session.
    pub fn session_created(text: &str) -> (r: Result<Reply, Error>)
        ensures
            match spec_session_created(text@) {
                Some(ids) => match r {
                    Ok(Reply::SessionCreated { session, window, pane }) => session.0@ == ids.0
                        && window.0@ == ids.1 && pane.0@ == ids.2,
                    _ => false,
                },
                None => r is Err && is_parse_error(
                    r.unwrap_err(),
                    "new-session"@,
                    "#{session_id}:#{window_id}:#{pane_id}"@,
                    text@,
                ),
            },
    {
        match read_session_created(text) {
            Some(reply) => Ok(reply),
            None => Err(
                Error::ParseError {
                    desc: "new-session",
                    intent: "#{session_id}:#{window_id}:#{pane_id}",
                    input: text.to_owned(),
                },
            ),
        }
    }

    /// Read what tmux printed after it created a window.
    pub fn window_created(text: &str) -> (r: Result<Reply, Error>)
        ensures
            match spec_window_created(text@) {
                Some(ids) => match r {
                    Ok(Reply::WindowCreated { window, pane }) => window.0@ == ids.0 && pane.0@
                        == ids.1,
                    _ => false,
                },
                None => r is Err && is_parse_error(
                    r.unwrap_err(),
                    "new-window"@,
                    "#{window_id}:#{pane_id}"@,
                    text@,
                ),
            },
    {
        match read_window_created(text) {
            Some(reply) => Ok(reply),
            None => Err(
                Error::ParseError {
                    desc: "new-window",
                    intent: "#{window_id}:#{pane_id}",
                    input: text.to_owned(),
                },
            ),
        }
    }

    /// Read what tmux printed after it created a pane.
    pub fn pane_created(text: &str) -> (r: Result<Reply, Error>)
        ensures
            match spec_pane_created(text@) {
                Some(id) => match r {
                    Ok(Reply::PaneCreated { pane }) => pane.0@ == id,
                    _ => false,
                },
                None => r is Err && is_parse_error(
                    r.unwrap_err(),
                    "split-window"@,
                    "#{pane_id}"@,
                    text@,
                ),
            },
    {
        let n: usize = text.unicode_len();
        match read_id(text, n, 0, '%') {
            Some(end) if end == n => Ok(Reply::PaneCreated { pane: PaneId(text.to_owned()) }),
            _ => Err(
                Error::ParseError {
                    desc: "split-window",
                    intent: "#{pane_id}",
                    input: text.to_owned(),
                },
            ),
        }
    }

    /// Check that tmux printed nothing after a command that should stay
    /// silent.
    pub fn silent(stdout: &str, stderr: &str, intent: &'static str) -> (r: Result<Reply, Error>)
        ensures
            match r {
                Ok(reply) => reply is Silent && stdout@.len() == 0 && stderr@.len() == 0,
                Err(e) => (stdout@.len() > 0 || stderr@.len() > 0) && match e {
                    Error::UnexpectedTmuxOutput { intent: i, stdout: out, stderr: err } => i
                        == intent && out@ == stdout@ && err@ == stderr@,
                    _ => false,
                },
            },
    {
        match check_empty_process_output(stdout, stderr, intent) {
            Ok(_) => Ok(Reply::Silent),
            Err(e) => Err(e),
        }
    }
}

/// How far the restore of a session has come: the step to take next.
#[derive(Debug, Clone, Copy, PartialEq, Eq)]
pub enum Stage {
    /// Create the pane `pane` of the window `window`.
    Create { window: usize, pane: usize },
    /// Apply the layout of the window `window`.
    Layout { window: usize },
    /// Select the window `window`, which was active.
    WindowSelect { window: usize },
    /// Select the target of the pair `pair`, whose source was active.
    PaneSelect { pair: usize },
    /// Nothing is left to do.
    Finished,
}

/// The restore of one session.
pub struct SessionRestore<'a> {
    /// The session of the snapshot.
    pub session: &'a Session,
    /// Its windows, in the order of the snapshot.
    pub windows: Vec<WindowPlan<'a>>,
    /// The step to take next.
    pub stage: Stage,
    /// The id of the new session, once it is created.
    pub session_id: Option<SessionId>,
    /// The ids of the windows created so far, in the order of `windows`.
    pub new_windows: Vec<WindowId>,
    /// The panes created so far, in the order of their creation.
    pub pairs: Vec<Pair>,
}

/// The panes of a window plan, as values.
pub open spec fn window_sources(plan: WindowPlan) -> Seq<Pane> {
    plan.panes@.map_values(|p: &Pane| *p)
}

/// The panes of the first `n` windows, in the order of their creation.
pub open spec fn panes_before(windows: Seq<WindowPlan>, n: int) -> Seq<Pane>
    decreases n,
{
    if n <= 0 {
        Seq::empty()
    } else {
        panes_before(windows, n - 1) + window_sources(windows[n - 1])
    }
}

/// The sources of the pairs.
pub open spec fn sources(pairs: Seq<Pair>) -> Seq<Pane> {
    pairs.map_values(|p: Pair| p.source)
}

/// Whether there is a window, and every window has a pane.
pub open spec fn has_topology(windows: Seq<WindowPlan>) -> bool {
    &&& windows.len() > 0
    &&& forall|w: int| 0 <= w < windows.len() ==> (#[trigger] windows[w]).panes.len() > 0
}

/// Position of the first pair at or after `from` whose source was active,
/// or the number of pairs if there is none.
pub open spec fn next_active(pairs: Seq<Pair>, from: int) -> int
    decreases pairs.len() - from,
{
    if from < 0 || from >= pairs.len() {
        pairs.len() as int
    } else if pairs[from].source.is_active {
        from
    } else {
        next_active(pairs, from + 1)
    }
}

/// The stage at which the first active pane at or after `from` is
/// selected, or the end if there is none.
pub open spec fn selecting(pairs: Seq<Pair>, from: int) -> Stage {
    let j = next_active(pairs, from);
    if j < pairs.len() {
        Stage::PaneSelect { pair: j as usize }
    } else {
        Stage::Finished
    }
}

/// The stage after the window `w` is complete.
pub open spec fn after_window(windows: Seq<WindowPlan>, pairs: Seq<Pair>, w: int) -> Stage {
    if w + 1 < windows.len() {
        Stage::Create { window: (w + 1) as usize, pane: 0 }
    } else {
        selecting(pairs, 0)
    }
}

/// Positions, among the first `n` sessions, of those whose name is
/// among `existing` (with `present`) or is not (without), in increasing
/// order.
pub open spec fn sessions_where(
    sessions: Seq<Session>,
    existing: Seq<String>,
    present: bool,
    n: int,
) -> Seq<int>
    decreases n,
{
    if n <= 0 {
        Seq::empty()
    } else if names_contain(existing, sessions[n - 1].name@) == present {
        sessions_where(sessions, existing, present, n - 1).push(n - 1)
    } else {
        sessions_where(sessions, existing, present, n - 1)
    }
}

/// The sessions of a snapshot, split by whether the target has a session
/// of the same name already.
pub struct Selection<'a> {
    /// Sessions to create.
    pub to_create: Vec<&'a Session>,
    /// Sessions that exist already: they are left alone.
    pub skipped: Vec<&'a Session>,
}

/// Split the sessions of a snapshot into those to create and those to
/// skip because the target has a session of that name. Both keep the
/// order of the snapshot.
pub fn select_sessions<'a>(sessions: &'a Vec<Session>, existing: &Vec<String>) -> (r: Selection<
    'a,
>)
    ensures
        picks(
            r.to_create@,
            sessions@,
            sessions_where(sessions@, existing@, false, sessions.len() as int),
        ),
        picks(
            r.skipped@,
            sessions@,
            sessions_where(sessions@, existing@, true, sessions.len() as int),
        ),
{
    let mut to_create: Vec<&'a Session> = Vec::new();
    let mut skipped: Vec<&'a Session> = Vec::new();
    let mut i: usize = 0;
    while i < sessions.len()
        invariant
            i <= sessions.len(),
            picks(to_create@, sessions@, sessions_where(sessions@, existing@, false, i as int)),
            picks(skipped@, sessions@, sessions_where(sessions@, existing@, true, i as int)),
        decreases sessions.len() - i,
    {
        if contains_name(existing, sessions[i].name.as_str()) {
            skipped.push(&sessions[i]);
        } else {
            to_create.push(&sessions[i]);
        }
        i = i + 1;
    }
    Selection { to_create, skipped }
}

/// Whether `plans` are the windows of the session called `name`, in the
/// order of the metadata, each with its panes in the order of its layout.
pub open spec fn are_window_plans(plans: Seq<WindowPlan>, metadata: Metadata, name: Seq<char>) -> bool {
    let related = related_windows(metadata.windows@, name, metadata.windows.len() as int);
    &&& plans.len() == related.len()
    &&& forall|j: int|
        0 <= j < plans.len() ==> 0 <= #[trigger] related[j] < metadata.windows.len()
            && *plans[j].window == metadata.windows[related[j]] && in_layout_order(
            plans[j].panes@,
            metadata.panes@,
            metadata.windows[related[j]],
        )
}

/// Whether `e` is the error of the first window of the session called
/// `name` that cannot be created: its layout cannot be decoded, or names
/// a pane that the metadata does not hold.
pub open spec fn fails_at_first(metadata: Metadata, name: Seq<char>, e: Error) -> bool {
    let related = related_windows(metadata.windows@, name, metadata.windows.len() as int);
    exists|j: int|
        0 <= j < related.len() && 0 <= #[trigger] related[j] < metadata.windows.len() && (forall|
            k: int,
        |
            0 <= k < j ==> metadata.windows[#[trigger] related[k]].has_layout() && !lacks_pane(
                metadata.panes@,
                metadata.windows[related[k]],
            )) && if metadata.windows[related[j]].has_layout() {
            e is UnknownPane && lacks_pane(metadata.panes@, metadata.windows[related[j]])
        } else {
            e is ParseError
        }
}

/// The windows of `session` with their panes, as they are to be created:
/// the windows in the order of the metadata, the panes of each in the
/// order of its layout.
///
/// It fails on the first window whose layout cannot be decoded or names
/// a pane that the metadata does not hold.
pub fn window_plans<'a>(metadata: &'a Metadata, session: &Session) -> (r: Result<
    Vec<WindowPlan<'a>>,
    Error,
>)
    ensures
        match r {
            Ok(plans) => are_window_plans(plans@, *metadata, session.name@),
            Err(e) => fails_at_first(*metadata, session.name@, e),
        },
{
    let windows = metadata.windows_related_to(session);
    let ghost related = related_windows(
        metadata.windows@,
        session.name@,
        metadata.windows.len() as int,
    );
    let mut plans: Vec<WindowPlan<'a>> = Vec::new();
    let mut j: usize = 0;
    while j < windows.len()
        invariant
            j <= windows.len(),
            related == related_windows(
                metadata.windows@,
                session.name@,
                metadata.windows.len() as int,
            ),
            picks(windows@, metadata.windows@, related),
            plans.len() == j,
            forall|k: int|
                0 <= k < j ==> *(#[trigger] plans[k]).window == metadata.windows[related[k]]
                    && in_layout_order(
                    plans[k].panes@,
                    metadata.panes@,
                    metadata.windows[related[k]],
                ),
        decreases windows.len() - j,
    {
        let window: &'a Window = windows[j];
        assert(*window == metadata.windows[related[j as int]]);
        let panes = match metadata.panes_in_layout_order(window) {
            Ok(panes) => panes,
            Err(e) => {
                proof {
                    assert forall|k: int| 0 <= k < j implies metadata.windows[#[trigger] related[k]].has_layout()
                        && !lacks_pane(metadata.panes@, metadata.windows[related[k]]) by {
                        lemma_found_lacks_none(
                            plans[k].panes@,
                            metadata.panes@,
                            metadata.windows[related[k]],
                        );
                    }
                    assert(0 <= related[j as int] < metadata.windows.len());
                }
                return Err(e);
            },
        };
        plans.push(WindowPlan { window, panes });
        j = j + 1;
    }
    Ok(plans)
}

/// The session that has the focus after the client switched to each of
/// `switches` in turn, having started at `initial`.
pub open spec fn focus_after(initial: Seq<char>, switches: Seq<Seq<char>>) -> Seq<char> {
    if switches.len() == 0 {
        initial
    } else {
        switches.last()
    }
}

/// The names of the switches that [`focus_switches`] asks for.
pub open spec fn spec_focus_switches(client: Client) -> Seq<Seq<char>> {
    seq![client.last_session_name@, client.session_name@]
}

/// The sessions to switch the client to after all sessions are restored,
/// in this order: first the one that was last, then the one that was
/// current, so that both are as they were.
pub fn focus_switches<'a>(client: &'a Client) -> (r: Vec<&'a str>)
    ensures
        r@.map_values(|name: &str| name@) == spec_focus_switches(*client),
{
    let mut names: Vec<&'a str> = Vec::new();
    names.push(client.last_session_name.as_str());
    names.push(client.session_name.as_str());
    assert(names@.map_values(|name: &str| name@) =~= spec_focus_switches(*client));
    names
}

/// Whatever session had the focus, after the switches of
/// [`focus_switches`] the session that was current has it.
pub proof fn lemma_focus_ends_on_current(client: Client, initial: Seq<char>)
    ensures
        focus_after(initial, spec_focus_switches(client)) == client.session_name@,
{
}

/// Name of the file that holds the content of the pane `id`.
pub fn pane_content_filename(id: &PaneId) -> (r: String)
    ensures
        r@ == "pane-"@ + id.0@ + ".txt"@,
{
    let a = join("pane-", id.as_str());
    join(a.as_str(), ".txt")
}

/// The command that a new pane starts with: it shows the content saved in
/// `content_filepath`, then becomes `default_command`.
pub fn pane_command(content_filepath: &str, default_command: &str) -> (r: String)
    ensures
        r@ == "cat "@ + content_filepath@ + " ; exec "@ + default_command@,
{
    let a = join("cat ", content_filepath);
    let b = join(a.as_str(), " ; exec ");
    join(b.as_str(), default_command)
}

/// The first error among the outcomes of the sessions, if any session
/// failed.
pub open spec fn first_error<E>(outcomes: Seq<Result<(), E>>, n: int) -> Option<E>
    decreases n,
{
    if n <= 0 {
        None
    } else {
        match first_error(outcomes, n - 1) {
            Some(e) => Some(e),
            None => match outcomes[n - 1] {
                Err(e) => Some(e),
                Ok(_) => None,
            },
        }
    }
}

/// Gather the outcomes of the sessions, each restored on its own: the
/// restore as a whole fails with the error of the first session that
/// failed.
pub fn gather<E>(outcomes: Vec<Result<(), E>>) -> (r: Result<(), E>)
    ensures
        match first_error(outcomes@, outcomes.len() as int) {
            Some(e) => r == Err::<(), E>(e),
            None => r is Ok,
        },
{
    let ghost all = outcomes@;
    let mut rest = outcomes;
    let mut i: usize = 0;
    while i < rest.len()
        invariant
            i <= rest.len(),
            rest@ == all,
            all == outcomes@,
            first_error(all, i as int) is None,
        decreases rest.len() - i,
    {
        let failed: bool = match &rest[i] {
            Err(_) => true,
            Ok(_) => false,
        };
        if failed {
            let failure = rest.swap_remove(i);
            proof {
                assert(failure == all[i as int]);
                assert(first_error(all, i + 1) == Some(failure->Err_0));
                lemma_first_error_stays(all, i + 1, all.len() as int);
                assert(first_error(all, all.len() as int) == Some(failure->Err_0));
            }
            return failure;
        }
        i = i + 1;
    }
    Ok(())
}

/// Once an error is found among the first `n` outcomes, it is the first
/// among more.
pub proof fn lemma_first_error_stays<E>(outcomes: Seq<Result<(), E>>, n: int, m: int)
    requires
        n <= m,
    ensures
        first_error(outcomes, n) is Some ==> first_error(outcomes, m) == first_error(outcomes, n),
    decreases m - n,
{
    if n < m {
        lemma_first_error_stays(outcomes, n, m - 1);
    }
}

impl<'a> SessionRestore<'a> {
    /// What holds of every state of a restore.
    ///
    /// The pairs recorded so far are exactly the panes that come before the
    /// next step, in the order of their creation, and every window begun
    /// so far has its new id.
    pub open spec fn wf(&self) -> bool {
        &&& has_topology(self.windows@)
        &&& match self.stage {
            Stage::Create { window, pane } => {
                &&& window < self.windows.len()
                &&& pane < self.windows[window as int].panes.len()
                &&& self.new_windows.len() == if pane == 0 {
                    window as int
                } else {
                    window + 1
                }
                &&& (self.session_id is Some <==> window > 0 || pane > 0)
                &&& sources(self.pairs@) == panes_before(self.windows@, window as int)
                    + window_sources(self.windows[window as int]).take(pane as int)
            },
            Stage::Layout { window } => {
                &&& window < self.windows.len()
                &&& self.new_windows.len() == window + 1
                &&& self.session_id is Some
                &&& sources(self.pairs@) == panes_before(self.windows@, window + 1)
            },
            Stage::WindowSelect { window } => {
                &&& window < self.windows.len()
                &&& self.windows[window as int].window.is_active
                &&& self.new_windows.len() == window + 1
                &&& self.session_id is Some
                &&& sources(self.pairs@) == panes_before(self.windows@, window + 1)
            },
            Stage::PaneSelect { pair } => {
                &&& pair < self.pairs.len()
                &&& self.pairs[pair as int].source.is_active
                &&& self.new_windows.len() == self.windows.len()
                &&& sources(self.pairs@) == panes_before(
                    self.windows@,
                    self.windows.len() as int,
                )
            },
            Stage::Finished => {
                &&& self.new_windows.len() == self.windows.len()
                &&& sources(self.pairs@) == panes_before(
                    self.windows@,
                    self.windows.len() as int,
                )
            },
        }
    }

    /// Whether nothing is left to do.
    pub open spec fn is_finished(&self) -> bool {
        self.stage == Stage::Finished
    }

    /// Begin the restore of `session` with the given windows.
    ///
    /// A session without windows, or with a window without panes, cannot be
    /// created: that is an error.
    pub fn new(session: &'a Session, windows: Vec<WindowPlan<'a>>) -> (r: Result<
        SessionRestore<'a>,
        Error,
    >)
        ensures
            match r {
                Ok(restore) => {
                    &&& has_topology(windows@)
                    &&& restore.wf()
                    &&& restore.session == session
                    &&& restore.windows == windows
                    &&& restore.stage == (Stage::Create { window: 0, pane: 0 })
                    &&& restore.session_id is None
                    &&& restore.new_windows@.len() == 0
                    &&& restore.pairs@.len() == 0
                },
                Err(e) => !has_topology(windows@) && match e {
                    Error::EmptyTopology(name) => if windows@.len() == 0 {
                        name@ == session.name@
                    } else {
                        exists|w: int|
                            0 <= w < windows@.len() && (#[trigger] windows@[w]).panes@.len() == 0
                                && name@ == windows@[w].window.name@ && forall|v: int|
                                0 <= v < w ==> (#[trigger] windows@[v]).panes@.len() > 0
                    },
                    _ => false,
                },
            },
    {
        if windows.len() == 0 {
            return Err(Error::EmptyTopology(session.name.clone()));
        }
        let mut w: usize = 0;
        while w < windows.len()
            invariant
                w <= windows.len(),
                forall|v: int| 0 <= v < w ==> (#[trigger] windows[v]).panes.len() > 0,
            decreases windows.len() - w,
        {
            if windows[w].panes.len() == 0 {
                return Err(Error::EmptyTopology(windows[w].window.name.clone()));
            }
            w = w + 1;
        }
        let restore = SessionRestore {
            session,
            windows,
            stage: Stage::Create { window: 0, pane: 0 },
            session_id: None,
            new_windows: Vec::new(),
            pairs: Vec::new(),
        };
        proof {
            assert(panes_before(restore.windows@, 0) =~= Seq::<Pane>::empty());
            assert(sources(restore.pairs@) =~= panes_before(restore.windows@, 0) + window_sources(
                restore.windows[0],
            ).take(0));
        }
        Ok(restore)
    }

    /// The command of the next step.
    pub open spec fn spec_command(&self) -> Option<Command<'a>> {
        match self.stage {
            Stage::Create { window, pane } => {
                let plan = self.windows[window as int];
                if pane > 0 {
                    Some(
                        Command::SplitWindow {
                            target: self.new_windows[window as int],
                            pane: plan.panes[pane as int],
                        },
                    )
                } else if window > 0 {
                    Some(
                        Command::NewWindow {
                            session: self.session,
                            session_id: self.session_id.unwrap(),
                            window: plan.window,
                            pane: plan.panes[0],
                        },
                    )
                } else {
                    Some(
                        Command::NewSession {
                            session: self.session,
                            window: plan.window,
                            pane: plan.panes[0],
                        },
                    )
                }
            },
            Stage::Layout { window } => Some(
                Command::SetLayout {
                    window: self.windows[window as int].window,
                    target: self.new_windows[window as int],
                },
            ),
            Stage::WindowSelect { window } => Some(
                Command::SelectWindow { target: self.new_windows[window as int] },
            ),
            Stage::PaneSelect { pair } => Some(
                Command::SelectPane { target: self.pairs[pair as int].target },
            ),
            Stage::Finished => None,
        }
    }

    /// The command to run next, or `None` when the session is restored.
    pub fn command(&self) -> (r: Option<Command<'a>>)
        requires
            self.wf(),
        ensures
            r == self.spec_command(),
    {
        match self.stage {
            Stage::Create { window, pane } => {
                let plan = &self.windows[window];
                if pane > 0 {
                    Some(
                        Command::SplitWindow {
                            target: self.new_windows[window].duplicate(),
                            pane: plan.panes[pane],
                        },
                    )
                } else if window > 0 {
                    let session_id = match &self.session_id {
                        Some(id) => id.duplicate(),
                        None => {
                            return None;
                        },
                    };
                    Some(
                        Command::NewWindow {
                            session: self.session,
                            session_id,
                            window: plan.window,
                            pane: plan.panes[0],
                        },
                    )
                } else {
                    Some(
                        Command::NewSession {
                            session: self.session,
                            window: plan.window,
                            pane: plan.panes[0],
                        },
                    )
                }
            },
            Stage::Layout { window } => Some(
                Command::SetLayout {
                    window: self.windows[window].window,
                    target: self.new_windows[window].duplicate(),
                },
            ),
            Stage::WindowSelect { window } => Some(
                Command::SelectWindow { target: self.new_windows[window].duplicate() },
            ),
            Stage::PaneSelect { pair } => Some(
                Command::SelectPane { target: self.pairs[pair].target.duplicate() },
            ),
            Stage::Finished => None,
        }
    }

    /// Name of the command of the next step.
    pub open spec fn spec_intent(&self) -> &'static str {
        match self.stage {
            Stage::Create { window, pane } => if pane > 0 {
                "split-window"
            } else if window > 0 {
                "new-window"
            } else {
                "new-session"
            },
            Stage::Layout { .. } => "select-layout",
            Stage::WindowSelect { .. } => "select-window",
            Stage::PaneSelect { .. } => "select-pane",
            Stage::Finished => "finished",
        }
    }

    /// Name of the command of the next step.
    pub fn intent(&self) -> (r: &'static str)
        ensures
            r == self.spec_intent(),
    {
        match self.stage {
            Stage::Create { window, pane } => if pane > 0 {
                "split-window"
            } else if window > 0 {
                "new-window"
            } else {
                "new-session"
            },
            Stage::Layout { .. } => "select-layout",
            Stage::WindowSelect { .. } => "select-window",
            Stage::PaneSelect { .. } => "select-pane",
            Stage::Finished => "finished",
        }
    }

    /// Whether `reply` is the kind of answer that the next step expects.
    pub open spec fn expects(&self, reply: Reply) -> bool {
        match self.stage {
            Stage::Create { window, pane } => if pane > 0 {
                reply is PaneCreated
            } else if window > 0 {
                reply is WindowCreated
            } else {
                reply is SessionCreated
            },
            Stage::Layout { .. } => reply is Silent,
            Stage::WindowSelect { .. } => reply is Silent,
            Stage::PaneSelect { .. } => reply is Silent,
            Stage::Finished => false,
        }
    }

    /// The pairs after the next step was answered with `reply`.
    pub open spec fn pairs_after(&self, reply: Reply) -> Seq<Pair> {
        match (self.stage, reply) {
            (Stage::Create { window, pane }, Reply::SessionCreated { pane: target, .. }) => self.pairs@.push(
                Pair { source: *self.windows[window as int].panes[pane as int], target },
            ),
            (Stage::Create { window, pane }, Reply::WindowCreated { pane: target, .. }) => self.pairs@.push(
                Pair { source: *self.windows[window as int].panes[pane as int], target },
            ),
            (Stage::Create { window, pane }, Reply::PaneCreated { pane: target }) => self.pairs@.push(
                Pair { source: *self.windows[window as int].panes[pane as int], target },
            ),
            _ => self.pairs@,
        }
    }

    /// The ids of the new windows after the next step was answered with
    /// `reply`.
    pub open spec fn windows_after(&self, reply: Reply) -> Seq<WindowId> {
        match reply {
            Reply::SessionCreated { window, .. } => self.new_windows@.push(window),
            Reply::WindowCreated { window, .. } => self.new_windows@.push(window),
            _ => self.new_windows@,
        }
    }

    /// The id of the new session after the next step was answered with
    /// `reply`.
    pub open spec fn session_after(&self, reply: Reply) -> Option<SessionId> {
        match reply {
            Reply::SessionCreated { session, .. } => Some(session),
            _ => self.session_id,
        }
    }

    /// The stage after the next step was answered.
    pub open spec fn stage_after(&self, pairs: Seq<Pair>) -> Stage {
        match self.stage {
            Stage::Create { window, pane } => if pane + 1 < self.windows[window as int].panes.len() {
                Stage::Create { window, pane: (pane + 1) as usize }
            } else {
                Stage::Layout { window }
            },
            Stage::Layout { window } => if self.windows[window as int].window.is_active {
                Stage::WindowSelect { window }
            } else {
                after_window(self.windows@, pairs, window as int)
            },
            Stage::WindowSelect { window } => after_window(self.windows@, pairs, window as int),
            Stage::PaneSelect { pair } => selecting(pairs, pair + 1),
            Stage::Finished => Stage::Finished,
        }
    }

    fn first_active(&self, from: usize) -> (r: Stage)
        requires
            from <= self.pairs.len(),
        ensures
            r == selecting(self.pairs@, from as int),
    {
        let mut j: usize = from;
        while j < self.pairs.len()
            invariant
                from <= j <= self.pairs.len(),
                next_active(self.pairs@, from as int) == next_active(self.pairs@, j as int),
            decreases self.pairs.len() - j,
        {
            if self.pairs[j].source.is_active {
                return Stage::PaneSelect { pair: j };
            }
            j = j + 1;
        }
        Stage::Finished
    }

    fn window_done(&self, window: usize) -> (r: Stage)
        requires
            window < self.windows.len(),
        ensures
            r == after_window(self.windows@, self.pairs@, window as int),
    {
        if window + 1 < self.windows.len() {
            Stage::Create { window: window + 1, pane: 0 }
        } else {
            self.first_active(0)
        }
    }

    /// Take the answer of tmux to the command of the next step, and move
    /// on to the step after it.
    ///
    /// An answer of another kind than the step expects is an error and
    /// changes nothing. Otherwise a new pane is paired with its source, a
    /// new window and a new session are remembered, and the next step is
    /// the one that follows in the fixed order.
    pub fn record(&mut self, reply: Reply) -> (r: Result<(), Error>)
        requires
            old(self).wf(),
        ensures
            final(self).wf(),
            final(self).session == old(self).session,
            final(self).windows == old(self).windows,
            match r {
                Ok(_) => {
                    &&& old(self).expects(reply)
                    &&& final(self).pairs@ == old(self).pairs_after(reply)
                    &&& final(self).new_windows@ == old(self).windows_after(reply)
                    &&& final(self).session_id == old(self).session_after(reply)
                    &&& final(self).stage == old(self).stage_after(final(self).pairs@)
                },
                Err(e) => {
                    &&& !old(self).expects(reply)
                    &&& *final(self) == *old(self)
                    &&& e == (Error::UnexpectedReply { intent: old(self).spec_intent() })
                },
            },
    {
        let intent = self.intent();
        match self.stage {
            Stage::Create { window, pane } => {
                let target = match reply {
                    Reply::SessionCreated { session, window: new_window, pane: target } => {
                        if window > 0 || pane > 0 {
                            return Err(Error::UnexpectedReply { intent });
                        }
                        self.session_id = Some(session);
                        self.new_windows.push(new_window);
                        target
                    },
                    Reply::WindowCreated { window: new_window, pane: target } => {
                        if window == 0 || pane > 0 {
                            return Err(Error::UnexpectedReply { intent });
                        }
                        self.new_windows.push(new_window);
                        target
                    },
                    Reply::PaneCreated { pane: target } => {
                        if pane == 0 {
                            return Err(Error::UnexpectedReply { intent });
                        }
                        target
                    },
                    Reply::Silent => {
                        return Err(Error::UnexpectedReply { intent });
                    },
                };
                let source = self.windows[window].panes[pane].duplicate();
                let ghost before = self.pairs@;
                self.pairs.push(Pair { source, target });
                proof {
                    let panes = window_sources(self.windows[window as int]);
                    assert(sources(self.pairs@) =~= sources(before).push(source));
                    assert(panes.take(pane + 1) =~= panes.take(pane as int).push(source));
                    assert(sources(self.pairs@) =~= panes_before(self.windows@, window as int)
                        + panes.take(pane + 1));
                    assert(panes.take(panes.len() as int) =~= panes);
                }
                if pane + 1 < self.windows[window].panes.len() {
                    self.stage = Stage::Create { window, pane: pane + 1 };
                } else {
                    self.stage = Stage::Layout { window };
                }
                Ok(())
            },
            Stage::Layout { window } => {
                match reply {
                    Reply::Silent => {},
                    _ => {
                        return Err(Error::UnexpectedReply { intent });
                    },
                }
                if self.windows[window].window.is_active {
                    self.stage = Stage::WindowSelect { window };
                } else {
                    self.stage = self.window_done(window);
                    proof {
                        self.lemma_stage_holds(window as int);
                    }
                }
                Ok(())
            },
            Stage::WindowSelect { window } => {
                match reply {
                    Reply::Silent => {},
                    _ => {
                        return Err(Error::UnexpectedReply { intent });
                    },
                }
                self.stage = self.window_done(window);
                proof {
                    self.lemma_stage_holds(window as int);
                }
                Ok(())
            },
            Stage::PaneSelect { pair } => {
                match reply {
                    Reply::Silent => {},
                    _ => {
                        return Err(Error::UnexpectedReply { intent });
                    },
                }
                self.stage = self.first_active(pair + 1);
                proof {
                    lemma_next_active(self.pairs@, pair + 1);
                }
                Ok(())
            },
            Stage::Finished => Err(Error::UnexpectedReply { intent }),
        }
    }

    /// After the window `w` is complete, the stage that follows fits the
    /// pairs recorded.
    proof fn lemma_stage_holds(&self, w: int)
        requires
            has_topology(self.windows@),
            0 <= w < self.windows.len(),
            self.new_windows.len() == w + 1,
            self.session_id is Some,
            sources(self.pairs@) == panes_before(self.windows@, w + 1),
            self.stage == after_window(self.windows@, self.pairs@, w),
        ensures
            self.wf(),
    {
        if w + 1 < self.windows.len() {
            let panes = window_sources(self.windows[w + 1]);
            assert(panes.take(0) =~= Seq::<Pane>::empty());
            assert(panes_before(self.windows@, w + 1) + panes.take(0) =~= panes_before(
                self.windows@,
                w + 1,
            ));
        } else {
            lemma_next_active(self.pairs@, 0);
        }
    }

    /// The ids of the new panes whose source was active, in the order of
    /// their creation.
    pub fn active_targets(&self) -> (r: Vec<PaneId>)
        ensures
            r@ == active_targets_of(self.pairs@, self.pairs.len() as int),
    {
        let mut targets: Vec<PaneId> = Vec::new();
        let mut j: usize = 0;
        while j < self.pairs.len()
            invariant
                j <= self.pairs.len(),
                targets@ == active_targets_of(self.pairs@, j as int),
            decreases self.pairs.len() - j,
        {
            if self.pairs[j].source.is_active {
                targets.push(self.pairs[j].target.duplicate());
            }
            j = j + 1;
        }
        targets
    }
}

/// Once every window is built, each pane of the session has exactly one
/// pair, in the order of creation: there are as many pairs as panes.
pub proof fn lemma_pairs_complete(restore: SessionRestore)
    requires
        restore.wf(),
        restore.stage is Finished || restore.stage is PaneSelect,
    ensures
        sources(restore.pairs@) == panes_before(restore.windows@, restore.windows.len() as int),
        restore.pairs@.len() == panes_before(restore.windows@, restore.windows.len() as int).len(),
        restore.new_windows@.len() == restore.windows@.len(),
{
    assert(sources(restore.pairs@).len() == restore.pairs@.len());
}

/// The targets of the first `n` pairs whose source was active.
pub open spec fn active_targets_of(pairs: Seq<Pair>, n: int) -> Seq<PaneId>
    decreases n,
{
    if n <= 0 {
        Seq::empty()
    } else if pairs[n - 1].source.is_active {
        active_targets_of(pairs, n - 1).push(pairs[n - 1].target)
    } else {
        active_targets_of(pairs, n - 1)
    }
}

/// The targets of the pairs from `from` on whose source was active.
pub open spec fn active_targets_from(pairs: Seq<Pair>, from: int) -> Seq<PaneId>
    decreases pairs.len() - from,
{
    if from < 0 || from >= pairs.len() {
        Seq::empty()
    } else if pairs[from].source.is_active {
        seq![pairs[from].target] + active_targets_from(pairs, from + 1)
    } else {
        active_targets_from(pairs, from + 1)
    }
}

/// The panes that are selected one after another, beginning with the
/// search for an active pane at `from`, until nothing is left to do.
pub open spec fn selected_from(pairs: Seq<Pair>, from: int) -> Seq<PaneId>
    decreases pairs.len() - from,
{
    match selecting(pairs, from) {
        Stage::PaneSelect { pair } => if from <= pair < pairs.len() {
            seq![pairs[pair as int].target] + selected_from(pairs, pair + 1)
        } else {
            Seq::empty()
        },
        _ => Seq::empty(),
    }
}

/// The targets of the active pairs, counted from the front or from the
/// back, are the same.
pub proof fn lemma_active_targets(pairs: Seq<Pair>, n: int)
    requires
        0 <= n <= pairs.len(),
    ensures
        active_targets_of(pairs, n) + active_targets_from(pairs, n) == active_targets_from(
            pairs,
            0,
        ),
    decreases n,
{
    if n == 0 {
        assert(active_targets_of(pairs, 0) + active_targets_from(pairs, 0)
            =~= active_targets_from(pairs, 0));
    } else {
        lemma_active_targets(pairs, n - 1);
        let before = active_targets_of(pairs, n - 1);
        let after = active_targets_from(pairs, n);
        if pairs[n - 1].source.is_active {
            let target = pairs[n - 1].target;
            assert(before.push(target) + after =~= before + (seq![target] + after));
        }
    }
}

/// Once every window is built, the panes selected one after another are
/// exactly the new panes whose source was active, each once, in the order
/// of their creation.
pub proof fn lemma_selects_active(pairs: Seq<Pair>, from: int)
    requires
        0 <= from,
        pairs.len() <= usize::MAX,
    ensures
        selected_from(pairs, from) == active_targets_from(pairs, from),
        from == 0 ==> selected_from(pairs, from) == active_targets_of(pairs, pairs.len() as int),
    decreases pairs.len() - from,
{
    lemma_next_active(pairs, from);
    if from < pairs.len() {
        lemma_selects_active(pairs, from + 1);
        lemma_next_active(pairs, from + 1);
        let j = next_active(pairs, from);
        if j < pairs.len() {
            assert((j as usize) as int == j);
        }
        if !pairs[from].source.is_active {
            assert(j == next_active(pairs, from + 1));
            assert(selecting(pairs, from) == selecting(pairs, from + 1));
            assert(selected_from(pairs, from) == selected_from(pairs, from + 1));
        }
    }
    if from == 0 {
        lemma_active_targets(pairs, pairs.len() as int);
        assert(active_targets_of(pairs, pairs.len() as int) + active_targets_from(
            pairs,
            pairs.len() as int,
        ) =~= active_targets_of(pairs, pairs.len() as int));
    }
}

/// The first active pair at or after `from`, if there is one, is a pair
/// whose source was active.
pub proof fn lemma_next_active(pairs: Seq<Pair>, from: int)
    requires
        0 <= from,
    ensures
        from <= next_active(pairs, from) || next_active(pairs, from) == pairs.len(),
        next_active(pairs, from) <= pairs.len(),
        next_active(pairs, from) < pairs.len() ==> pairs[next_active(pairs, from)].source.is_active,
        forall|j: int| from <= j < next_active(pairs, from) ==> !(#[trigger] pairs[j]).source.is_active,
    decreases pairs.len() - from,
{
    if from < pairs.len() && !pairs[from].source.is_active {
        lemma_next_active(pairs, from + 1);
    }
}

} // verus!
