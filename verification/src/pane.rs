//! Panes.

use crate::error::{is_parse_error, Error};
use crate::ids::PaneId;
use crate::record::{
    char_at, check_line_rest, expect_char, is_line_rest, read_boolean, read_id, read_index,
    read_quoted, spec_boolean, spec_id, spec_index, spec_quoted, text_between,
};
use vstd::prelude::*;
use vstd::string::StrSliceExecFns;

verus! {

/// A tmux pane, as captured.
#[derive(Debug, Clone, PartialEq, Eq)]
pub struct Pane {
    /// Pane identifier, such as `%37`.
    pub id: PaneId,
    /// Index of the pane in its window.
    pub index: u16,
    /// Whether the pane is the active one of its window.
    pub is_active: bool,
    /// Title of the pane.
    pub title: String,
    /// Working directory of the pane.
    pub dirpath: String,
    /// Command running in the pane.
    pub command: String,
}

/// The fields of a pane, as a line of tmux states them.
pub struct PaneFields {
    pub id: Seq<char>,
    pub index: u16,
    pub is_active: bool,
    pub title: Seq<char>,
    pub command: Seq<char>,
    pub dirpath: Seq<char>,
}

/// The pane that a line of tmux describes, if it describes one. The line
/// reads `id:index:active:'title':'command':working_directory`, such as
/// `%20:0:false:'rmbp':'nvim':/home/me`.
pub open spec fn spec_pane(s: Seq<char>) -> Option<PaneFields> {
    match spec_id(s, 0, '%') {
        Some(at1) if char_at(s, at1, ':') => match spec_index(s, at1 + 1) {
            Some((index, at2)) if char_at(s, at2, ':') => match spec_boolean(s, at2 + 1) {
                Some((is_active, at3)) if char_at(s, at3, ':') => match spec_quoted(
                    s,
                    at3 + 1,
                    false,
                ) {
                    Some(q1) if char_at(s, q1 + 1, ':') => match spec_quoted(s, q1 + 2, false) {
                        Some(q2) if char_at(s, q2 + 1, ':') && is_line_rest(s, q2 + 2) => Some(
                            PaneFields {
                                id: s.subrange(0, at1),
                                index,
                                is_active,
                                title: s.subrange(at3 + 2, q1),
                                command: s.subrange(q1 + 3, q2),
                                dirpath: s.subrange(q2 + 2, s.len() as int),
                            },
                        ),
                        _ => None,
                    },
                    _ => None,
                },
                _ => None,
            },
            _ => None,
        },
        _ => None,
    }
}

/// Whether `pane` has the fields `fields`.
pub open spec fn pane_has(pane: Pane, fields: PaneFields) -> bool {
    &&& pane.id.0@ == fields.id
    &&& pane.index == fields.index
    &&& pane.is_active == fields.is_active
    &&& pane.title@ == fields.title
    &&& pane.command@ == fields.command
    &&& pane.dirpath@ == fields.dirpath
}

/// The shape of the line that tmux prints for a pane.
pub const PANE_FORMAT: &'static str =
    "#{pane_id}:#{pane_index}:#{?pane_active,true,false}:'#{pane_title}':'#{pane_current_command}':#{pane_current_path}";

fn read_pane(input: &str) -> (r: Option<Pane>)
    ensures
        match spec_pane(input@) {
            Some(fields) => r is Some && pane_has(r.unwrap(), fields),
            None => r is None,
        },
{
    let n: usize = input.unicode_len();
    let at1 = match read_id(input, n, 0, '%') {
        Some(end) => end,
        None => {
            return None;
        },
    };
    if !expect_char(input, n, at1, ':') {
        return None;
    }
    let (index, at2) = match read_index(input, n, at1 + 1) {
        Some(found) => found,
        None => {
            return None;
        },
    };
    if !expect_char(input, n, at2, ':') {
        return None;
    }
    let (is_active, at3) = match read_boolean(input, n, at2 + 1) {
        Some(found) => found,
        None => {
            return None;
        },
    };
    if !expect_char(input, n, at3, ':') {
        return None;
    }
    let q1 = match read_quoted(input, n, at3 + 1, false) {
        Some(end) => end,
        None => {
            return None;
        },
    };
    if !expect_char(input, n, q1 + 1, ':') {
        return None;
    }
    let q2 = match read_quoted(input, n, q1 + 2, false) {
        Some(end) => end,
        None => {
            return None;
        },
    };
    if !expect_char(input, n, q2 + 1, ':') {
        return None;
    }
    if !check_line_rest(input, n, q2 + 2) {
        return None;
    }
    Some(
        Pane {
            id: PaneId(text_between(input, 0, at1)),
            index,
            is_active,
            title: text_between(input, at3 + 2, q1),
            command: text_between(input, q1 + 3, q2),
            dirpath: text_between(input, q2 + 2, n),
        },
    )
}

impl Pane {
    /// Read the line that tmux prints for a pane:
    /// `id:index:active:'title':'command':working_directory`.
    pub fn from_str(input: &str) -> (r: Result<Pane, Error>)
        ensures
            match spec_pane(input@) {
                Some(fields) => r is Ok && pane_has(r.unwrap(), fields),
                None => r is Err && is_parse_error(r.unwrap_err(), "Pane"@, PANE_FORMAT@, input@),
            },
    {
        match read_pane(input) {
            Some(pane) => Ok(pane),
            None => Err(
                Error::ParseError {
                    desc: "Pane",
                    intent: PANE_FORMAT,
                    input: input.to_owned(),
                },
            ),
        }
    }

    /// A copy of the pane.
    pub fn duplicate(&self) -> (r: Pane)
        ensures
            r == *self,
    {
        Pane {
            id: self.id.duplicate(),
            index: self.index,
            is_active: self.is_active,
            title: self.title.clone(),
            dirpath: self.dirpath.clone(),
            command: self.command.clone(),
        }
    }
}

} // verus!
