//! Sessions.

use crate::error::{is_parse_error, Error};
use crate::ids::SessionId;
use crate::record::{
    char_at, check_line_rest, expect_char, is_line_rest, read_id, read_quoted, spec_id,
    spec_quoted, text_between,
};
use vstd::prelude::*;
use vstd::string::StrSliceExecFns;

verus! {

/// A tmux session, as captured.
#[derive(Debug, Clone, PartialEq, Eq)]
pub struct Session {
    /// Session identifier, such as `$3`.
    pub id: SessionId,
    /// Name of the session, by which tmux tells sessions apart.
    pub name: String,
    /// Working directory of the session.
    pub dirpath: String,
}

/// The shape of the line that tmux prints for a session.
pub const SESSION_FORMAT: &'static str = "#{session_id}:'#{session_name}':#{session_path}";

/// The session that a line of tmux describes, if it describes one, as
/// its id, name and working directory. The line reads
/// `id:'name':working_directory`, such as `$1:'rust':/home/me/rust`.
pub open spec fn spec_session(s: Seq<char>) -> Option<(Seq<char>, Seq<char>, Seq<char>)> {
    match spec_id(s, 0, '$') {
        Some(at1) if char_at(s, at1, ':') => match spec_quoted(s, at1 + 1, false) {
            Some(q) if char_at(s, q + 1, ':') && is_line_rest(s, q + 2) => Some(
                (s.subrange(0, at1), s.subrange(at1 + 2, q), s.subrange(q + 2, s.len() as int)),
            ),
            _ => None,
        },
        _ => None,
    }
}

fn read_session(input: &str) -> (r: Option<Session>)
    ensures
        match spec_session(input@) {
            Some(fields) => r is Some && r.unwrap().id.0@ == fields.0 && r.unwrap().name@
                == fields.1 && r.unwrap().dirpath@ == fields.2,
            None => r is None,
        },
{
    let n: usize = input.unicode_len();
    let at1 = match read_id(input, n, 0, '$') {
        Some(end) => end,
        None => {
            return None;
        },
    };
    if !expect_char(input, n, at1, ':') {
        return None;
    }
    let q = match read_quoted(input, n, at1 + 1, false) {
        Some(end) => end,
        None => {
            return None;
        },
    };
    if !expect_char(input, n, q + 1, ':') {
        return None;
    }
    if !check_line_rest(input, n, q + 2) {
        return None;
    }
    Some(
        Session {
            id: SessionId(text_between(input, 0, at1)),
            name: text_between(input, at1 + 2, q),
            dirpath: text_between(input, q + 2, n),
        },
    )
}

impl Session {
    /// Read the line that tmux prints for a session:
    /// `id:'name':working_directory`.
    pub fn from_str(input: &str) -> (r: Result<Session, Error>)
        ensures
            match spec_session(input@) {
                Some(fields) => r is Ok && r.unwrap().id.0@ == fields.0 && r.unwrap().name@
                    == fields.1 && r.unwrap().dirpath@ == fields.2,
                None => r is Err && is_parse_error(
                    r.unwrap_err(),
                    "Session"@,
                    SESSION_FORMAT@,
                    input@,
                ),
            },
    {
        match read_session(input) {
            Some(session) => Ok(session),
            None => Err(
                Error::ParseError {
                    desc: "Session",
                    intent: SESSION_FORMAT,
                    input: input.to_owned(),
                },
            ),
        }
    }
}

} // verus!
