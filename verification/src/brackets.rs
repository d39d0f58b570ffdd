//! Why a text whose brackets do not match is no layout descriptor.

use crate::layout::{
    byte_at, digit_value, digits_end, spec_children, spec_container, spec_coordinates,
    spec_dimensions, spec_element, spec_layout, spec_layout_at, spec_number,
};
use vstd::prelude::*;

verus! {

/// How often the byte `b` occurs in `s` from `from` up to `to`.
pub open spec fn count(s: Seq<u8>, from: int, to: int, b: u8) -> int
    decreases to - from,
{
    if to <= from {
        0
    } else {
        count(s, from, to - 1, b) + if s[to - 1] == b {
            1int
        } else {
            0int
        }
    }
}

/// Whether `s` holds from `from` up to `to` as many opening braces as
/// closing ones, and as many opening square brackets as closing ones.
pub open spec fn is_balanced(s: Seq<u8>, from: int, to: int) -> bool {
    count(s, from, to, 123) == count(s, from, to, 125) && count(s, from, to, 91) == count(
        s,
        from,
        to,
        93,
    )
}

/// Whether `s` holds no bracket from `from` up to `to`.
pub open spec fn is_plain(s: Seq<u8>, from: int, to: int) -> bool {
    count(s, from, to, 123) == 0 && count(s, from, to, 125) == 0 && count(s, from, to, 91) == 0
        && count(s, from, to, 93) == 0
}

/// Occurrences in two stretches in a row add up.
pub proof fn lemma_count_parts(s: Seq<u8>, from: int, mid: int, to: int, b: u8)
    requires
        from <= mid <= to,
    ensures
        count(s, from, to, b) == count(s, from, mid, b) + count(s, mid, to, b),
    decreases to - mid,
{
    if mid < to {
        lemma_count_parts(s, from, mid, to - 1, b);
    }
}

/// A byte that occurs nowhere in a stretch is counted zero times.
pub proof fn lemma_count_none(s: Seq<u8>, from: int, to: int, b: u8)
    requires
        forall|i: int| from <= i < to ==> #[trigger] s[i] != b,
    ensures
        count(s, from, to, b) == 0,
    decreases to - from,
{
    if from < to {
        lemma_count_none(s, from, to - 1, b);
    }
}

/// A stretch of a plain stretch and a balanced one is balanced.
pub proof fn lemma_plain_then_balanced(s: Seq<u8>, from: int, mid: int, to: int)
    requires
        from <= mid <= to,
        is_plain(s, from, mid),
        is_balanced(s, mid, to),
    ensures
        is_balanced(s, from, to),
{
    lemma_count_parts(s, from, mid, to, 123);
    lemma_count_parts(s, from, mid, to, 125);
    lemma_count_parts(s, from, mid, to, 91);
    lemma_count_parts(s, from, mid, to, 93);
}

/// Two plain stretches in a row are a plain stretch.
pub proof fn lemma_plain_parts(s: Seq<u8>, from: int, mid: int, to: int)
    requires
        from <= mid <= to,
        is_plain(s, from, mid),
        is_plain(s, mid, to),
    ensures
        is_plain(s, from, to),
{
    lemma_count_parts(s, from, mid, to, 123);
    lemma_count_parts(s, from, mid, to, 125);
    lemma_count_parts(s, from, mid, to, 91);
    lemma_count_parts(s, from, mid, to, 93);
}

/// A single byte that is no bracket is a plain stretch.
pub proof fn lemma_plain_byte(s: Seq<u8>, pos: int)
    requires
        0 <= pos < s.len(),
        s[pos] != 123 && s[pos] != 125 && s[pos] != 91 && s[pos] != 93,
    ensures
        is_plain(s, pos, pos + 1),
{
    lemma_count_none(s, pos, pos + 1, 123);
    lemma_count_none(s, pos, pos + 1, 125);
    lemma_count_none(s, pos, pos + 1, 91);
    lemma_count_none(s, pos, pos + 1, 93);
}

/// A run of digits holds digits only.
pub proof fn lemma_digits_only(s: Seq<u8>, pos: int, hex: bool)
    requires
        0 <= pos,
    ensures
        pos <= digits_end(s, pos, hex),
        pos <= s.len() ==> digits_end(s, pos, hex) <= s.len(),
        forall|i: int|
            pos <= i < digits_end(s, pos, hex) ==> digit_value(#[trigger] s[i], hex) is Some,
    decreases s.len() - pos,
{
    if pos < s.len() && digit_value(s[pos], hex) is Some {
        lemma_digits_only(s, pos + 1, hex);
    }
}

/// A number holds no bracket.
pub proof fn lemma_number_plain(s: Seq<u8>, pos: int, hex: bool)
    requires
        spec_number(s, pos, hex) is Some,
    ensures
        pos < spec_number(s, pos, hex).unwrap().1 <= s.len(),
        is_plain(s, pos, spec_number(s, pos, hex).unwrap().1),
{
    let end = digits_end(s, pos, hex);
    lemma_digits_only(s, pos, hex);
    lemma_count_none(s, pos, end, 123);
    lemma_count_none(s, pos, end, 125);
    lemma_count_none(s, pos, end, 91);
    lemma_count_none(s, pos, end, 93);
}

/// Two numbers with one byte between them that is no bracket hold no
/// bracket.
proof fn lemma_pair_plain(s: Seq<u8>, pos: int, mid: int, end: int)
    requires
        spec_number(s, pos, false) is Some,
        spec_number(s, pos, false).unwrap().1 == mid,
        byte_at(s, mid, 120) || byte_at(s, mid, 44),
        spec_number(s, mid + 1, false) is Some,
        spec_number(s, mid + 1, false).unwrap().1 == end,
    ensures
        pos < end <= s.len(),
        is_plain(s, pos, end),
{
    lemma_number_plain(s, pos, false);
    lemma_number_plain(s, mid + 1, false);
    lemma_plain_byte(s, mid);
    lemma_plain_parts(s, pos, mid, mid + 1);
    lemma_plain_parts(s, pos, mid + 1, end);
}

/// The brackets of a container that was read are balanced.
pub proof fn lemma_container_balanced(s: Seq<u8>, pos: int)
    requires
        spec_container(s, pos) is Some,
    ensures
        pos < spec_container(s, pos).unwrap().1 <= s.len(),
        is_balanced(s, pos, spec_container(s, pos).unwrap().1),
    decreases s.len() - pos, 0int,
{
    match spec_dimensions(s, pos) {
        Some((width, height, at)) => {
            let mid = spec_number(s, pos, false).unwrap().1;
            lemma_pair_plain(s, pos, mid, at);
            match spec_coordinates(s, at + 1) {
                Some((x, y, q)) => {
                    let between = spec_number(s, at + 1, false).unwrap().1;
                    lemma_pair_plain(s, at + 1, between, q);
                    lemma_plain_byte(s, at);
                    lemma_plain_parts(s, pos, at, at + 1);
                    lemma_plain_parts(s, pos, at + 1, q);
                    lemma_element_balanced(s, q);
                    let end = spec_element(s, q).unwrap().1;
                    lemma_plain_then_balanced(s, pos, q, end);
                },
                None => {},
            }
        },
        None => {},
    }
}

/// The brackets of an element that was read are balanced.
pub proof fn lemma_element_balanced(s: Seq<u8>, pos: int)
    requires
        spec_element(s, pos) is Some,
    ensures
        pos < spec_element(s, pos).unwrap().1 <= s.len(),
        is_balanced(s, pos, spec_element(s, pos).unwrap().1),
    decreases s.len() - pos, 1int,
{
    let end = spec_element(s, pos).unwrap().1;
    if byte_at(s, pos, 44) {
        lemma_number_plain(s, pos + 1, false);
        lemma_plain_byte(s, pos);
        lemma_plain_parts(s, pos, pos + 1, end);
    } else {
        lemma_children_balanced(s, pos + 1);
        let inner = spec_children(s, pos + 1).unwrap().1;
        assert(end == inner + 1);
        lemma_count_parts(s, pos, pos + 1, end, 123);
        lemma_count_parts(s, pos, pos + 1, end, 125);
        lemma_count_parts(s, pos, pos + 1, end, 91);
        lemma_count_parts(s, pos, pos + 1, end, 93);
        lemma_count_parts(s, pos + 1, inner, end, 123);
        lemma_count_parts(s, pos + 1, inner, end, 125);
        lemma_count_parts(s, pos + 1, inner, end, 91);
        lemma_count_parts(s, pos + 1, inner, end, 93);
        assert(count(s, pos, pos, 123) == 0);
        assert(count(s, pos, pos, 125) == 0);
        assert(count(s, pos, pos, 91) == 0);
        assert(count(s, pos, pos, 93) == 0);
        assert(count(s, inner, inner, 123) == 0);
        assert(count(s, inner, inner, 125) == 0);
        assert(count(s, inner, inner, 91) == 0);
        assert(count(s, inner, inner, 93) == 0);
    }
}

/// The brackets of containers that were read as a list are balanced.
pub proof fn lemma_children_balanced(s: Seq<u8>, pos: int)
    requires
        spec_children(s, pos) is Some,
    ensures
        pos < spec_children(s, pos).unwrap().1 <= s.len(),
        is_balanced(s, pos, spec_children(s, pos).unwrap().1),
    decreases s.len() - pos, 2int,
{
    lemma_container_balanced(s, pos);
    let at = spec_container(s, pos).unwrap().1;
    if at > pos && byte_at(s, at, 44) {
        lemma_children_balanced(s, at + 1);
        let end = spec_children(s, at + 1).unwrap().1;
        lemma_plain_byte(s, at);
        lemma_plain_then_balanced(s, at, at + 1, end);
        lemma_count_parts(s, pos, at, end, 123);
        lemma_count_parts(s, pos, at, end, 125);
        lemma_count_parts(s, pos, at, end, 91);
        lemma_count_parts(s, pos, at, end, 93);
    }
}

/// A text in which the opening and closing braces, or the opening and
/// closing square brackets, are not equally many is no layout descriptor.
pub proof fn lemma_unbalanced_is_rejected(s: Seq<u8>)
    requires
        !is_balanced(s, 0, s.len() as int),
    ensures
        spec_layout(s) is None,
{
    if spec_layout(s) is Some {
        lemma_number_plain(s, 0, true);
        let at = spec_number(s, 0, true).unwrap().1;
        lemma_plain_byte(s, at);
        lemma_plain_parts(s, 0, at, at + 1);
        lemma_container_balanced(s, at + 1);
        lemma_plain_then_balanced(s, 0, at + 1, s.len() as int);
    }
}

/// A text that holds a layout descriptor and goes on after it is no
/// layout descriptor.
pub proof fn lemma_trailing_text_is_rejected(s: Seq<u8>)
    requires
        spec_layout_at(s, 0) is Some,
        spec_layout_at(s, 0).unwrap().1 < s.len(),
    ensures
        spec_layout(s) is None,
{
}

/// A text in which no `x` follows the width of the window is no layout
/// descriptor.
pub proof fn lemma_missing_separator_is_rejected(s: Seq<u8>)
    requires
        spec_number(s, 0, true) is Some,
        byte_at(s, spec_number(s, 0, true).unwrap().1, 44),
        spec_number(s, spec_number(s, 0, true).unwrap().1 + 1, false) is Some,
        !byte_at(
            s,
            spec_number(s, spec_number(s, 0, true).unwrap().1 + 1, false).unwrap().1,
            120,
        ),
    ensures
        spec_layout(s) is None,
{
}

} // verus!
