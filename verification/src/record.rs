//! Reading the fields of the lines that tmux prints.
//!
//! Tmux prints one record per line, its fields separated by colons. Names
//! and titles stand between single quotes, where a quote of the text is
//! written after a backslash.

use vstd::prelude::*;
use vstd::string::StrSliceExecFns;

verus! {

/// Whether `s` holds the character `c` at `pos`.
pub open spec fn char_at(s: Seq<char>, pos: int, c: char) -> bool {
    0 <= pos < s.len() && s[pos] == c
}

/// Whether the character is a decimal digit.
pub open spec fn is_digit_char(c: char) -> bool {
    48 <= c as u32 <= 57
}

/// First position at or after `pos` that holds no decimal digit.
pub open spec fn digit_chars_end(s: Seq<char>, pos: int) -> int
    decreases s.len() - pos,
{
    if 0 <= pos < s.len() && is_digit_char(s[pos]) {
        digit_chars_end(s, pos + 1)
    } else {
        pos
    }
}

/// Number written by the digits of `s` from `from` up to `to`.
pub open spec fn digit_chars_value(s: Seq<char>, from: int, to: int) -> int
    decreases to - from,
{
    if to <= from {
        0
    } else {
        digit_chars_value(s, from, to - 1) * 10 + (s[to - 1] as u32 - 48)
    }
}

/// An identifier at `pos`: `sigil` and one or more digits. Gives the
/// position after it.
pub open spec fn spec_id(s: Seq<char>, pos: int, sigil: char) -> Option<int> {
    let end = digit_chars_end(s, pos + 1);
    if char_at(s, pos, sigil) && end > pos + 1 {
        Some(end)
    } else {
        None
    }
}

/// A number of at most 16 bits at `pos`: the longest run of digits there.
pub open spec fn spec_index(s: Seq<char>, pos: int) -> Option<(u16, int)> {
    let end = digit_chars_end(s, pos);
    let value = digit_chars_value(s, pos, end);
    if 0 <= pos < end && value <= 0xffff {
        Some((value as u16, end))
    } else {
        None
    }
}

/// `true` or `false` at `pos`.
pub open spec fn spec_boolean(s: Seq<char>, pos: int) -> Option<(bool, int)> {
    if 0 <= pos && pos + 4 <= s.len() && s.subrange(pos, pos + 4) == seq!['t', 'r', 'u', 'e'] {
        Some((true, pos + 4))
    } else if 0 <= pos && pos + 5 <= s.len() && s.subrange(pos, pos + 5) == seq![
        'f',
        'a',
        'l',
        's',
        'e',
    ] {
        Some((false, pos + 5))
    } else {
        None
    }
}

/// Position of the quote that closes a quoted text whose content goes on
/// at `pos`: the first quote that does not follow a backslash. A
/// backslash must be followed by a quote.
pub open spec fn closing_quote(s: Seq<char>, pos: int) -> Option<int>
    decreases s.len() - pos,
{
    if pos < 0 || pos >= s.len() {
        None
    } else if s[pos] == '\'' {
        Some(pos)
    } else if s[pos] == '\\' {
        if pos + 1 < s.len() && s[pos + 1] == '\'' {
            closing_quote(s, pos + 2)
        } else {
            None
        }
    } else {
        closing_quote(s, pos + 1)
    }
}

/// A quoted text at `pos`. Gives the position of its closing quote: the
/// content lies between `pos + 1` and there, written as it stands. Without
/// `may_be_empty` the content must not be empty.
pub open spec fn spec_quoted(s: Seq<char>, pos: int, may_be_empty: bool) -> Option<int> {
    if char_at(s, pos, '\'') {
        match closing_quote(s, pos + 1) {
            Some(end) if may_be_empty || end > pos + 1 => Some(end),
            _ => None,
        }
    } else {
        None
    }
}

/// Whether `s` holds neither a line feed nor a carriage return from
/// `pos` on.
pub open spec fn is_line_rest(s: Seq<char>, pos: int) -> bool {
    forall|i: int| pos <= i < s.len() ==> #[trigger] s[i] != '\n' && s[i] != '\r'
}

/// Whether `s`, which has `n` characters, holds `c` at `pos`.
pub fn expect_char(s: &str, n: usize, pos: usize, c: char) -> (r: bool)
    requires
        n == s@.len(),
    ensures
        r == char_at(s@, pos as int, c),
{
    pos < n && s.get_char(pos) == c
}

fn digits_end(s: &str, n: usize, pos: usize) -> (end: usize)
    requires
        n == s@.len(),
        pos <= n,
    ensures
        end == digit_chars_end(s@, pos as int),
        pos <= end <= n,
{
    let mut i: usize = pos;
    while i < n && is_digit(s.get_char(i))
        invariant
            n == s@.len(),
            pos <= i <= n,
            digit_chars_end(s@, pos as int) == digit_chars_end(s@, i as int),
        decreases n - i,
    {
        i = i + 1;
    }
    i
}

fn is_digit(c: char) -> (r: bool)
    ensures
        r == is_digit_char(c),
{
    let code: u32 = c as u32;
    48 <= code && code <= 57
}

/// Read an identifier at `pos`: `sigil` and digits.
pub fn read_id(s: &str, n: usize, pos: usize, sigil: char) -> (r: Option<usize>)
    requires
        n == s@.len(),
        pos <= n,
    ensures
        match spec_id(s@, pos as int, sigil) {
            Some(end) => r == Some(end as usize) && pos < end <= n,
            None => r is None,
        },
{
    if !expect_char(s, n, pos, sigil) {
        return None;
    }
    let end: usize = digits_end(s, n, pos + 1);
    if end > pos + 1 {
        Some(end)
    } else {
        None
    }
}

/// Read a number of at most 16 bits at `pos`.
pub fn read_index(s: &str, n: usize, pos: usize) -> (r: Option<(u16, usize)>)
    requires
        n == s@.len(),
        pos <= n,
    ensures
        match spec_index(s@, pos as int) {
            Some((value, end)) => r == Some((value, end as usize)) && pos < end <= n,
            None => r is None,
        },
{
    let mut i: usize = pos;
    let mut acc: u32 = 0;
    let mut overflow: bool = false;
    while i < n && is_digit(s.get_char(i))
        invariant
            n == s@.len(),
            pos <= i <= n,
            digit_chars_end(s@, pos as int) == digit_chars_end(s@, i as int),
            !overflow ==> acc == digit_chars_value(s@, pos as int, i as int) && acc <= 0xffff,
            overflow ==> digit_chars_value(s@, pos as int, i as int) > 0xffff,
        decreases n - i,
    {
        let d: u32 = s.get_char(i) as u32 - 48;
        assert(digit_chars_value(s@, pos as int, i + 1) == digit_chars_value(
            s@,
            pos as int,
            i as int,
        ) * 10 + d);
        if !overflow {
            acc = acc * 10 + d;
            if acc > 0xffff {
                overflow = true;
            }
        }
        i = i + 1;
    }
    if i == pos || overflow {
        None
    } else {
        Some((acc as u16, i))
    }
}

/// Read `true` or `false` at `pos`.
pub fn read_boolean(s: &str, n: usize, pos: usize) -> (r: Option<(bool, usize)>)
    requires
        n == s@.len(),
        pos <= n,
    ensures
        match spec_boolean(s@, pos as int) {
            Some((value, end)) => r == Some((value, end as usize)) && pos < end <= n,
            None => r is None,
        },
{
    if n - pos >= 4 && s.get_char(pos) == 't' && s.get_char(pos + 1) == 'r' && s.get_char(pos + 2)
        == 'u' && s.get_char(pos + 3) == 'e' {
        assert(s@.subrange(pos as int, pos + 4) =~= seq!['t', 'r', 'u', 'e']);
        Some((true, pos + 4))
    } else if n - pos >= 5 && s.get_char(pos) == 'f' && s.get_char(pos + 1) == 'a' && s.get_char(
        pos + 2,
    ) == 'l' && s.get_char(pos + 3) == 's' && s.get_char(pos + 4) == 'e' {
        proof {
            assert(s@.subrange(pos as int, pos + 5) =~= seq!['f', 'a', 'l', 's', 'e']);
            if pos + 4 <= n {
                assert(s@.subrange(pos as int, pos + 4)[0] == s@[pos as int]);
            }
        }
        Some((false, pos + 5))
    } else {
        proof {
            if pos + 4 <= n && s@.subrange(pos as int, pos + 4) == seq!['t', 'r', 'u', 'e'] {
                assert(s@.subrange(pos as int, pos + 4)[0] == 't');
                assert(s@.subrange(pos as int, pos + 4)[1] == 'r');
                assert(s@.subrange(pos as int, pos + 4)[2] == 'u');
                assert(s@.subrange(pos as int, pos + 4)[3] == 'e');
            }
            if pos + 5 <= n && s@.subrange(pos as int, pos + 5) == seq!['f', 'a', 'l', 's', 'e'] {
                assert(s@.subrange(pos as int, pos + 5)[0] == 'f');
                assert(s@.subrange(pos as int, pos + 5)[1] == 'a');
                assert(s@.subrange(pos as int, pos + 5)[2] == 'l');
                assert(s@.subrange(pos as int, pos + 5)[3] == 's');
                assert(s@.subrange(pos as int, pos + 5)[4] == 'e');
            }
        }
        None
    }
}

/// Read a quoted text at `pos`: gives the position of its closing quote.
pub fn read_quoted(s: &str, n: usize, pos: usize, may_be_empty: bool) -> (r: Option<usize>)
    requires
        n == s@.len(),
        pos <= n,
    ensures
        match spec_quoted(s@, pos as int, may_be_empty) {
            Some(end) => r == Some(end as usize) && pos < end < n,
            None => r is None,
        },
{
    if !expect_char(s, n, pos, '\'') {
        return None;
    }
    let mut i: usize = pos + 1;
    loop
        invariant
            n == s@.len(),
            pos + 1 <= i <= n,
            char_at(s@, pos as int, '\''),
            closing_quote(s@, pos + 1) == closing_quote(s@, i as int),
        decreases n - i,
    {
        if i >= n {
            return None;
        }
        let c = s.get_char(i);
        if c == '\'' {
            if may_be_empty || i > pos + 1 {
                return Some(i);
            } else {
                return None;
            }
        } else if c == '\\' {
            if i + 1 < n && s.get_char(i + 1) == '\'' {
                i = i + 2;
            } else {
                return None;
            }
        } else {
            i = i + 1;
        }
    }
}

/// Whether neither a line feed nor a carriage return follows from `pos`
/// on.
pub fn check_line_rest(s: &str, n: usize, pos: usize) -> (r: bool)
    requires
        n == s@.len(),
        pos <= n,
    ensures
        r == is_line_rest(s@, pos as int),
{
    let mut i: usize = pos;
    while i < n
        invariant
            n == s@.len(),
            pos <= i <= n,
            forall|j: int| pos <= j < i ==> #[trigger] s@[j] != '\n' && s@[j] != '\r',
        decreases n - i,
    {
        let c = s.get_char(i);
        if c == '\n' || c == '\r' {
            return false;
        }
        i = i + 1;
    }
    true
}

/// The characters of `s` from `from` up to `to`, as a text of their own.
pub fn text_between(s: &str, from: usize, to: usize) -> (r: String)
    requires
        from <= to <= s@.len(),
    ensures
        r@ == s@.subrange(from as int, to as int),
{
    s.substring_char(from, to).to_owned()
}

} // verus!
