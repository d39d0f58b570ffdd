//! The client: which session is attached, and which was before.

use crate::error::{is_parse_error, Error};
use crate::record::{char_at, expect_char, read_quoted, spec_quoted, text_between};
use vstd::prelude::*;
use vstd::string::StrSliceExecFns;

verus! {

/// Where the attention of the tmux client is.
#[derive(Debug, Clone, PartialEq, Eq)]
pub struct Client {
    /// Name of the current session.
    pub session_name: String,
    /// Name of the session that was current before.
    pub last_session_name: String,
}

/// The shape of the line that tmux prints for the client.
pub const CLIENT_FORMAT: &'static str = "'#{client_session}':'#{client_last_session}'";

/// The names that a line of tmux states for the client, if it states
/// them: the current session and the last one. The line reads
/// `'current':'last'`; the last session may have no name.
pub open spec fn spec_client(s: Seq<char>) -> Option<(Seq<char>, Seq<char>)> {
    match spec_quoted(s, 0, false) {
        Some(q1) if char_at(s, q1 + 1, ':') => match spec_quoted(s, q1 + 2, true) {
            Some(q2) if q2 + 1 == s.len() => Some((s.subrange(1, q1), s.subrange(q1 + 3, q2))),
            _ => None,
        },
        _ => None,
    }
}

fn read_client(input: &str) -> (r: Option<Client>)
    ensures
        match spec_client(input@) {
            Some(names) => r is Some && r.unwrap().session_name@ == names.0
                && r.unwrap().last_session_name@ == names.1,
            None => r is None,
        },
{
    let n: usize = input.unicode_len();
    let q1 = match read_quoted(input, n, 0, false) {
        Some(end) => end,
        None => {
            return None;
        },
    };
    if !expect_char(input, n, q1 + 1, ':') {
        return None;
    }
    let q2 = match read_quoted(input, n, q1 + 2, true) {
        Some(end) => end,
        None => {
            return None;
        },
    };
    if q2 + 1 != n {
        return None;
    }
    Some(
        Client {
            session_name: text_between(input, 1, q1),
            last_session_name: text_between(input, q1 + 3, q2),
        },
    )
}

impl Client {
    /// Read the line that tmux prints for the client: `'current':'last'`.
    pub fn from_str(input: &str) -> (r: Result<Client, Error>)
        ensures
            match spec_client(input@) {
                Some(names) => r is Ok && r.unwrap().session_name@ == names.0
                    && r.unwrap().last_session_name@ == names.1,
                None => r is Err && is_parse_error(
                    r.unwrap_err(),
                    "Client"@,
                    CLIENT_FORMAT@,
                    input@,
                ),
            },
    {
        match read_client(input) {
            Some(client) => Ok(client),
            None => Err(
                Error::ParseError {
                    desc: "Client",
                    intent: CLIENT_FORMAT,
                    input: input.to_owned(),
                },
            ),
        }
    }
}

} // verus!
