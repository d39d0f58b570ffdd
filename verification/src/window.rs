//! Windows.

use crate::error::{is_parse_error, Error};
use crate::ids::{PaneId, WindowId};
use crate::layout::{container_leaves, parse_window_layout, spec_layout};
use crate::record::{
    char_at, expect_char, read_boolean, read_id, read_index, read_quoted, spec_boolean, spec_id,
    spec_index, spec_quoted, text_between,
};
use crate::text::decimal_chars;
use vstd::string::StrSliceExecFns;
use vstd::prelude::*;
use vstd::utf8::encode_utf8;

verus! {

/// A tmux window, as captured.
#[derive(Debug, Clone, PartialEq, Eq)]
pub struct Window {
    /// Window identifier, such as `@3`.
    pub id: WindowId,
    /// Index of the window in its session.
    pub index: u16,
    /// Whether the window is the active one of its session.
    pub is_active: bool,
    /// How the panes are laid out in the window.
    pub layout: String,
    /// Name of the window.
    pub name: String,
    /// Names of the sessions that the window is linked to.
    pub sessions: Vec<String>,
}

/// Whether `ids` are the pane ids of the panes that a layout numbers
/// `numbers`, in the same order.
pub open spec fn are_pane_ids(ids: Seq<PaneId>, numbers: Seq<u16>) -> bool {
    &&& ids.len() == numbers.len()
    &&& forall|i: int|
        0 <= i < ids.len() ==> (#[trigger] ids[i]).0@ == seq!['%'] + decimal_chars(
            numbers[i] as nat,
        )
}

/// The shape of the line that tmux prints for a window.
pub const WINDOW_FORMAT: &'static str =
    "#{window_id}:#{window_index}:#{?window_active,true,false}:#{window_layout}:'#{window_name}':'#{window_linked_sessions_list}'";

/// Whether the character can occur in a layout descriptor: a hexadecimal
/// digit, `x`, a comma or a bracket.
pub open spec fn is_layout_char(c: char) -> bool {
    let code = c as u32;
    48 <= code <= 57 || 97 <= code <= 102 || 65 <= code <= 70 || c == 'x' || c == ',' || c == '{'
        || c == '}' || c == '[' || c == ']'
}

/// First position at or after `pos` that holds no character of a layout
/// descriptor.
pub open spec fn layout_chars_end(s: Seq<char>, pos: int) -> int
    decreases s.len() - pos,
{
    if 0 <= pos < s.len() && is_layout_char(s[pos]) {
        layout_chars_end(s, pos + 1)
    } else {
        pos
    }
}

/// The fields of a window, as a line of tmux states them.
pub struct WindowFields {
    pub id: Seq<char>,
    pub index: u16,
    pub is_active: bool,
    pub layout: Seq<char>,
    pub name: Seq<char>,
    pub sessions: Seq<char>,
}

/// The window that a line of tmux describes, if it describes one. The
/// line reads `id:index:active:layout:'name':'linked_sessions'`, and the
/// layout must be a layout descriptor.
pub open spec fn spec_window(s: Seq<char>) -> Option<WindowFields> {
    match spec_id(s, 0, '@') {
        Some(at1) if char_at(s, at1, ':') => match spec_index(s, at1 + 1) {
            Some((index, at2)) if char_at(s, at2, ':') => match spec_boolean(s, at2 + 1) {
                Some((is_active, at3)) if char_at(s, at3, ':') => {
                    let at4 = layout_chars_end(s, at3 + 1);
                    let layout = s.subrange(at3 + 1, at4);
                    if spec_layout(encode_utf8(layout)) is Some && char_at(s, at4, ':') {
                        match spec_quoted(s, at4 + 1, false) {
                            Some(q1) if char_at(s, q1 + 1, ':') => match spec_quoted(
                                s,
                                q1 + 2,
                                false,
                            ) {
                                Some(q2) if q2 + 1 == s.len() => Some(
                                    WindowFields {
                                        id: s.subrange(0, at1),
                                        index,
                                        is_active,
                                        layout,
                                        name: s.subrange(at4 + 2, q1),
                                        sessions: s.subrange(q1 + 3, q2),
                                    },
                                ),
                                _ => None,
                            },
                            _ => None,
                        }
                    } else {
                        None
                    }
                },
                _ => None,
            },
            _ => None,
        },
        _ => None,
    }
}

/// Whether `window` has the fields `fields`: the names of the linked
/// sessions are kept as the one text that tmux printed.
pub open spec fn window_has(window: Window, fields: WindowFields) -> bool {
    &&& window.id.0@ == fields.id
    &&& window.index == fields.index
    &&& window.is_active == fields.is_active
    &&& window.layout@ == fields.layout
    &&& window.name@ == fields.name
    &&& window.sessions@.len() == 1
    &&& window.sessions@[0]@ == fields.sessions
}

fn is_layout_character(c: char) -> (r: bool)
    ensures
        r == is_layout_char(c),
{
    let code: u32 = c as u32;
    (48 <= code && code <= 57) || (97 <= code && code <= 102) || (65 <= code && code <= 70) || c
        == 'x' || c == ',' || c == '{' || c == '}' || c == '[' || c == ']'
}

fn read_window(input: &str) -> (r: Option<Window>)
    ensures
        match spec_window(input@) {
            Some(fields) => r is Some && window_has(r.unwrap(), fields),
            None => r is None,
        },
{
    let n: usize = input.unicode_len();
    let at1 = match read_id(input, n, 0, '@') {
        Some(end) => end,
        None => {
            return None;
        },
    };
    if !expect_char(input, n, at1, ':') {
        return None;
    }
    let (index, at2) = match read_index(input, n, at1 + 1) {
        Some(found) => found,
        None => {
            return None;
        },
    };
    if !expect_char(input, n, at2, ':') {
        return None;
    }
    let (is_active, at3) = match read_boolean(input, n, at2 + 1) {
        Some(found) => found,
        None => {
            return None;
        },
    };
    if !expect_char(input, n, at3, ':') {
        return None;
    }
    let mut at4: usize = at3 + 1;
    while at4 < n && is_layout_character(input.get_char(at4))
        invariant
            n == input@.len(),
            at3 + 1 <= at4 <= n,
            layout_chars_end(input@, at3 + 1) == layout_chars_end(input@, at4 as int),
        decreases n - at4,
    {
        at4 = at4 + 1;
    }
    let layout = text_between(input, at3 + 1, at4);
    if parse_window_layout(layout.as_str()).is_err() {
        return None;
    }
    if !expect_char(input, n, at4, ':') {
        return None;
    }
    let q1 = match read_quoted(input, n, at4 + 1, false) {
        Some(end) => end,
        None => {
            return None;
        },
    };
    if !expect_char(input, n, q1 + 1, ':') {
        return None;
    }
    let q2 = match read_quoted(input, n, q1 + 2, false) {
        Some(end) => end,
        None => {
            return None;
        },
    };
    if q2 + 1 != n {
        return None;
    }
    let mut sessions: Vec<String> = Vec::new();
    sessions.push(text_between(input, q1 + 3, q2));
    Some(
        Window {
            id: WindowId(text_between(input, 0, at1)),
            index,
            is_active,
            layout,
            name: text_between(input, at4 + 2, q1),
            sessions,
        },
    )
}

impl Window {
    /// Read the line that tmux prints for a window:
    /// `id:index:active:layout:'name':'linked_sessions'`.
    pub fn from_str(input: &str) -> (r: Result<Window, Error>)
        ensures
            match spec_window(input@) {
                Some(fields) => r is Ok && window_has(r.unwrap(), fields),
                None => r is Err && is_parse_error(
                    r.unwrap_err(),
                    "Window"@,
                    WINDOW_FORMAT@,
                    input@,
                ),
            },
    {
        match read_window(input) {
            Some(window) => Ok(window),
            None => Err(
                Error::ParseError {
                    desc: "Window",
                    intent: WINDOW_FORMAT,
                    input: input.to_owned(),
                },
            ),
        }
    }

    /// Whether the layout of the window can be decoded.
    pub open spec fn has_layout(&self) -> bool {
        spec_layout(encode_utf8(self.layout@)) is Some
    }

    /// The pane numbers of the layout, in pre-order.
    pub open spec fn layout_leaves(&self) -> Seq<u16> {
        container_leaves(
            spec_layout(encode_utf8(self.layout@)).unwrap().container,
        )
    }

    /// The ids of the panes of the window, in the order of its layout, or
    /// the error for a layout that cannot be decoded.
    pub fn layout_pane_ids(&self) -> (r: Result<Vec<PaneId>, Error>)
        ensures
            match r {
                Ok(ids) => self.has_layout() && are_pane_ids(ids@, self.layout_leaves()),
                Err(e) => !self.has_layout() && is_parse_error(
                    e,
                    "window-layout"@,
                    "window-layout"@,
                    self.layout@,
                ),
            },
    {
        let layout = match parse_window_layout(self.layout.as_str()) {
            Ok(layout) => layout,
            Err(e) => {
                return Err(e);
            },
        };
        let numbers = layout.pane_ids();
        let mut ids: Vec<PaneId> = Vec::new();
        let mut i: usize = 0;
        while i < numbers.len()
            invariant
                i <= numbers.len(),
                are_pane_ids(ids@, numbers@.take(i as int)),
            decreases numbers.len() - i,
        {
            ids.push(PaneId::from_number(numbers[i]));
            i = i + 1;
        }
        assert(numbers@.take(numbers.len() as int) =~= numbers@);
        Ok(ids)
    }

    /// The ids of the panes of the window, in the order of its layout.
    pub fn pane_ids(&self) -> (ids: Vec<PaneId>)
        requires
            self.has_layout(),
        ensures
            are_pane_ids(ids@, self.layout_leaves()),
    {
        match self.layout_pane_ids() {
            Ok(ids) => ids,
            Err(_) => Vec::new(),
        }
    }

    /// The number of panes of the window.
    pub fn num_panes(&self) -> (n: usize)
        requires
            self.has_layout(),
        ensures
            n == self.layout_leaves().len(),
    {
        self.pane_ids().len()
    }
}

} // verus!
