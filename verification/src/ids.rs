//! Identifiers that tmux gives to panes, windows and sessions.
//!
//! An identifier is a sigil (`%` for a pane, `@` for a window, `$` for a
//! session) followed by a number. Tmux hands identifiers out; a restored
//! object gets a new one.

use crate::error::{is_parse_error, Error};
use crate::text::{decimal_chars, join, number_text};
use vstd::prelude::*;
use vstd::string::StringSliceAdditionalSpecFns;

verus! {

/// Whether `s` is `sigil` followed by one or more decimal digits.
pub open spec fn is_id_text(s: Seq<u8>, sigil: u8) -> bool {
    &&& s.len() >= 2
    &&& s[0] == sigil
    &&& forall|i: int| 1 <= i < s.len() ==> 48 <= #[trigger] s[i] <= 57
}

/// Whether `input` is `sigil` followed by one or more decimal digits.
pub fn check_id(input: &str, sigil: u8) -> (r: bool)
    ensures
        r == is_id_text(input.spec_bytes(), sigil),
{
    let bytes = input.as_bytes();
    if bytes.len() < 2 || bytes[0] != sigil {
        return false;
    }
    let mut i: usize = 1;
    while i < bytes.len()
        invariant
            1 <= i <= bytes.len(),
            bytes@ == input.spec_bytes(),
            forall|j: int| 1 <= j < i ==> 48 <= #[trigger] bytes@[j] <= 57,
        decreases bytes.len() - i,
    {
        let b: u8 = bytes[i];
        if b < 48 || b > 57 {
            assert(input.spec_bytes()[i as int] == b);
            return false;
        }
        i = i + 1;
    }
    true
}

/// The id of a pane, such as `%12`.
#[derive(Debug, Clone, PartialEq, Eq, Hash)]
pub struct PaneId(pub String);

/// The id of a window, such as `@41`.
#[derive(Debug, Clone, PartialEq, Eq, Hash)]
pub struct WindowId(pub String);

/// The id of a session, such as `$11`.
#[derive(Debug, Clone, PartialEq, Eq, Hash)]
pub struct SessionId(pub String);

impl PaneId {
    /// Read a pane id: `%` followed by digits, and nothing else.
    pub fn from_str(input: &str) -> (r: Result<PaneId, Error>)
        ensures
            match r {
                Ok(id) => is_id_text(input.spec_bytes(), 37) && id.0@ == input@,
                Err(e) => !is_id_text(input.spec_bytes(), 37) && is_parse_error(
                    e,
                    "PaneId"@,
                    "#{pane_id}"@,
                    input@,
                ),
            },
    {
        if check_id(input, 37) {
            Ok(PaneId(input.to_owned()))
        } else {
            Err(Error::ParseError { desc: "PaneId", intent: "#{pane_id}", input: input.to_owned() })
        }
    }

    /// The id of the pane that a layout calls `number`.
    pub fn from_number(number: u16) -> (r: PaneId)
        ensures
            r.0@ == seq!['%'] + decimal_chars(number as nat),
    {
        let digits = number_text(number as u64);
        proof {
            reveal_strlit("%");
            assert("%"@ =~= seq!['%']);
        }
        PaneId(join("%", digits.as_str()))
    }

    /// The id as tmux writes it.
    pub fn as_str(&self) -> (r: &str)
        ensures
            r@ == self.0@,
    {
        self.0.as_str()
    }

    /// Whether both ids are the same.
    pub fn same(&self, other: &PaneId) -> (r: bool)
        ensures
            r == (self.0@ == other.0@),
    {
        self.0 == other.0
    }

    /// A copy of the id.
    pub fn duplicate(&self) -> (r: PaneId)
        ensures
            r == *self,
    {
        PaneId(self.0.clone())
    }
}

impl WindowId {
    /// Read a window id: `@` followed by digits, and nothing else.
    pub fn from_str(input: &str) -> (r: Result<WindowId, Error>)
        ensures
            match r {
                Ok(id) => is_id_text(input.spec_bytes(), 64) && id.0@ == input@,
                Err(e) => !is_id_text(input.spec_bytes(), 64) && is_parse_error(
                    e,
                    "WindowId"@,
                    "#{window_id}"@,
                    input@,
                ),
            },
    {
        if check_id(input, 64) {
            Ok(WindowId(input.to_owned()))
        } else {
            Err(
                Error::ParseError {
                    desc: "WindowId",
                    intent: "#{window_id}",
                    input: input.to_owned(),
                },
            )
        }
    }

    /// The id as tmux writes it.
    pub fn as_str(&self) -> (r: &str)
        ensures
            r@ == self.0@,
    {
        self.0.as_str()
    }

    /// A copy of the id.
    pub fn duplicate(&self) -> (r: WindowId)
        ensures
            r == *self,
    {
        WindowId(self.0.clone())
    }
}

impl SessionId {
    /// Read a session id: `$` followed by digits, and nothing else.
    pub fn from_str(input: &str) -> (r: Result<SessionId, Error>)
        ensures
            match r {
                Ok(id) => is_id_text(input.spec_bytes(), 36) && id.0@ == input@,
                Err(e) => !is_id_text(input.spec_bytes(), 36) && is_parse_error(
                    e,
                    "SessionId"@,
                    "#{session_id}"@,
                    input@,
                ),
            },
    {
        if check_id(input, 36) {
            Ok(SessionId(input.to_owned()))
        } else {
            Err(
                Error::ParseError {
                    desc: "SessionId",
                    intent: "#{session_id}",
                    input: input.to_owned(),
                },
            )
        }
    }

    /// The id as tmux writes it.
    pub fn as_str(&self) -> (r: &str)
        ensures
            r@ == self.0@,
    {
        self.0.as_str()
    }

    /// A copy of the id.
    pub fn duplicate(&self) -> (r: SessionId)
        ensures
            r == *self,
    {
        SessionId(self.0.clone())
    }
}

} // verus!
