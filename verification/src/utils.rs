//! Tidying the captured content of a pane.

use vstd::prelude::*;
use vstd::slice::slice_subrange;

verus! {

/// Whether the byte is a tab or a space.
pub fn is_whitespace(c: &u8) -> (r: bool)
    ensures
        r == (*c == 9 || *c == 32),
{
    *c == 9 || *c == 32
}

/// Whether the byte is neither a tab nor a space.
pub fn is_not_whitespace(c: &u8) -> (r: bool)
    ensures
        r == !(*c == 9 || *c == 32),
{
    !is_whitespace(c)
}

/// Whether the byte is a tab or a space.
pub open spec fn is_blank(c: u8) -> bool {
    c == 9 || c == 32
}

/// Length of `s` without the blanks at the end of its first `n` bytes.
pub open spec fn trimmed_end(s: Seq<u8>, n: int) -> int
    decreases n,
{
    if n <= 0 {
        0
    } else if is_blank(s[n - 1]) {
        trimmed_end(s, n - 1)
    } else {
        n
    }
}

/// Number of blanks at the start of `s`, counted from `from`.
pub open spec fn trimmed_start(s: Seq<u8>, from: int) -> int
    decreases s.len() - from,
{
    if from < 0 || from >= s.len() {
        s.len() as int
    } else if is_blank(s[from]) {
        trimmed_start(s, from + 1)
    } else {
        from
    }
}

/// `s` without the blanks at its end.
pub open spec fn spec_trim_trailing(s: Seq<u8>) -> Seq<u8> {
    s.take(trimmed_end(s, s.len() as int))
}

/// `s` without the blanks at its start and at its end.
pub open spec fn spec_trim(s: Seq<u8>) -> Seq<u8> {
    let start = trimmed_start(s, 0);
    if start >= s.len() {
        Seq::empty()
    } else {
        s.subrange(start, trimmed_end(s, s.len() as int))
    }
}

/// What is left of the trimmed text ends after the position where it
/// starts.
pub proof fn lemma_trim_bounds(s: Seq<u8>, from: int, n: int)
    requires
        0 <= from <= n <= s.len(),
    ensures
        from <= trimmed_start(s, from) <= s.len(),
        0 <= trimmed_end(s, n) <= n,
        trimmed_start(s, from) < n ==> trimmed_start(s, from) < trimmed_end(s, n),
    decreases n - from,
{
    lemma_start_bounds(s, from);
    lemma_end_bounds(s, n);
    lemma_start_not_blank(s, from);
    if trimmed_start(s, from) < n && is_blank(s[n - 1]) {
        lemma_trim_bounds(s, from, n - 1);
    }
}

/// The start of the trimmed text lies in the text.
pub proof fn lemma_start_bounds(s: Seq<u8>, from: int)
    requires
        0 <= from <= s.len(),
    ensures
        from <= trimmed_start(s, from) <= s.len(),
    decreases s.len() - from,
{
    if from < s.len() && is_blank(s[from]) {
        lemma_start_bounds(s, from + 1);
    }
}

/// The byte at the start of the trimmed text is no blank.
pub proof fn lemma_start_not_blank(s: Seq<u8>, from: int)
    requires
        0 <= from <= s.len(),
    ensures
        trimmed_start(s, from) < s.len() ==> !is_blank(s[trimmed_start(s, from)]),
    decreases s.len() - from,
{
    if from < s.len() && is_blank(s[from]) {
        lemma_start_not_blank(s, from + 1);
    }
}

/// The end of the trimmed text lies in the text.
pub proof fn lemma_end_bounds(s: Seq<u8>, n: int)
    requires
        0 <= n <= s.len(),
    ensures
        0 <= trimmed_end(s, n) <= n,
    decreases n,
{
    if n > 0 && is_blank(s[n - 1]) {
        lemma_end_bounds(s, n - 1);
    }
}

fn end_of_text(buf: &[u8]) -> (end: usize)
    ensures
        end == trimmed_end(buf@, buf.len() as int),
        end <= buf.len(),
{
    let mut end: usize = buf.len();
    while end > 0 && is_whitespace(&buf[end - 1])
        invariant
            end <= buf.len(),
            trimmed_end(buf@, buf.len() as int) == trimmed_end(buf@, end as int),
        decreases end,
    {
        end = end - 1;
    }
    end
}

/// Remove the tabs and spaces at the end of `buf`.
pub fn trim_trailing(buf: &[u8]) -> (r: &[u8])
    ensures
        r@ == spec_trim_trailing(buf@),
{
    let end: usize = end_of_text(buf);
    slice_subrange(buf, 0, end)
}

/// Remove the tabs and spaces at the start and at the end of `buf`.
pub fn trim(buf: &[u8]) -> (r: &[u8])
    ensures
        r@ == spec_trim(buf@),
{
    let mut start: usize = 0;
    while start < buf.len() && is_whitespace(&buf[start])
        invariant
            start <= buf.len(),
            trimmed_start(buf@, 0) == trimmed_start(buf@, start as int),
        decreases buf.len() - start,
    {
        start = start + 1;
    }
    if start >= buf.len() {
        let r = slice_subrange(buf, 0, 0);
        assert(r@ =~= Seq::<u8>::empty());
        r
    } else {
        let end: usize = end_of_text(buf);
        proof {
            lemma_trim_bounds(buf@, 0, buf.len() as int);
        }
        slice_subrange(buf, start, end)
    }
}

/// Position of the first line feed of `s` at or after `from`, or the
/// length of `s` if there is none.
pub open spec fn line_end(s: Seq<u8>, from: int) -> int
    decreases s.len() - from,
{
    if from < 0 || from >= s.len() {
        s.len() as int
    } else if s[from] == 10 {
        from
    } else {
        line_end(s, from + 1)
    }
}

/// The lines of `s` from `from` on, each without the blanks at its end.
/// A text that ends with a line feed ends with an empty line.
pub open spec fn trimmed_lines(s: Seq<u8>, from: int) -> Seq<Seq<u8>>
    decreases s.len() - from,
{
    let end = line_end(s, from);
    if from < 0 || from > s.len() {
        Seq::empty()
    } else if end >= s.len() {
        seq![spec_trim_trailing(s.subrange(from, s.len() as int))]
    } else if end < from {
        Seq::empty()
    } else {
        seq![spec_trim_trailing(s.subrange(from, end))] + trimmed_lines(s, end + 1)
    }
}

/// Whether `lines` hold the same bytes as `texts`.
pub open spec fn lines_are(lines: Seq<&[u8]>, texts: Seq<Seq<u8>>) -> bool {
    &&& lines.len() == texts.len()
    &&& forall|i: int| 0 <= i < lines.len() ==> (#[trigger] lines[i])@ == texts[i]
}

/// Split the buffer into lines and remove the tabs and spaces at the end
/// of each.
pub fn buf_trim_trailing(buf: &[u8]) -> (r: Vec<&[u8]>)
    ensures
        lines_are(r@, trimmed_lines(buf@, 0)),
{
    let mut lines: Vec<&[u8]> = Vec::new();
    let ghost mut texts: Seq<Seq<u8>> = Seq::empty();
    let mut start: usize = 0;
    let mut i: usize = 0;
    while i < buf.len()
        invariant
            start <= i <= buf.len(),
            lines_are(lines@, texts),
            trimmed_lines(buf@, 0) == texts + trimmed_lines(buf@, start as int),
            line_end(buf@, start as int) == line_end(buf@, i as int),
        decreases buf.len() - i,
    {
        if buf[i] == 10 {
            let line = trim_trailing(slice_subrange(buf, start, i));
            lines.push(line);
            proof {
                let rest = trimmed_lines(buf@, i + 1);
                assert(texts + (seq![line@] + rest) =~= texts.push(line@) + rest);
                texts = texts.push(line@);
            }
            start = i + 1;
        }
        i = i + 1;
    }
    let line = trim_trailing(slice_subrange(buf, start, buf.len()));
    lines.push(line);
    proof {
        assert(texts + seq![line@] =~= texts.push(line@));
    }
    lines
}

/// Number of lines among the first `n` that are left when the empty lines
/// at the end are dropped.
pub open spec fn kept_lines(lines: Seq<&[u8]>, n: int) -> int
    decreases n,
{
    if n <= 0 {
        0
    } else if lines[n - 1]@.len() == 0 {
        kept_lines(lines, n - 1)
    } else {
        n
    }
}

/// The lines without the empty lines at the end; all of them if every
/// line is empty.
pub open spec fn spec_drop_last_empty_lines(lines: Seq<&[u8]>) -> Seq<&[u8]> {
    let kept = kept_lines(lines, lines.len() as int);
    if kept == 0 {
        lines
    } else {
        lines.take(kept)
    }
}

/// Drop the empty lines at the end. Where every line is empty, all are
/// kept.
pub fn drop_last_empty_lines<'a>(lines: &[&'a [u8]]) -> (r: Vec<&'a [u8]>)
    ensures
        r@ == spec_drop_last_empty_lines(lines@),
{
    let mut kept: usize = lines.len();
    while kept > 0 && lines[kept - 1].len() == 0
        invariant
            kept <= lines.len(),
            kept_lines(lines@, lines.len() as int) == kept_lines(lines@, kept as int),
        decreases kept,
    {
        kept = kept - 1;
    }
    if kept == 0 {
        kept = lines.len();
    }
    let mut out: Vec<&'a [u8]> = Vec::new();
    let mut i: usize = 0;
    while i < kept
        invariant
            i <= kept <= lines.len(),
            out@ == lines@.take(i as int),
        decreases kept - i,
    {
        out.push(lines[i]);
        assert(lines@.take(i + 1) =~= lines@.take(i as int).push(lines@[i as int]));
        i = i + 1;
    }
    assert(lines@.take(lines.len() as int) =~= lines@);
    out
}

/// The escape code that resets colors and attributes.
pub open spec fn reset_code() -> Seq<u8> {
    seq![27u8, 91u8, 48u8, 109u8]
}

/// The first `n` of `count` lines, each ended by a line feed; the last of
/// the `count` lines is followed by the reset code before its line feed.
pub open spec fn joined(lines: Seq<&[u8]>, count: int, n: int) -> Seq<u8>
    decreases n,
{
    if n <= 0 {
        Seq::empty()
    } else if n == count {
        joined(lines, count, n - 1) + lines[n - 1]@ + reset_code() + seq![10u8]
    } else {
        joined(lines, count, n - 1) + lines[n - 1]@ + seq![10u8]
    }
}

/// The buffer that [`cleanup_captured_buffer`] makes of `buffer`.
pub open spec fn spec_cleanup(lines: Seq<&[u8]>, drop_n_last_lines: int) -> Seq<u8> {
    let kept = spec_drop_last_empty_lines(lines);
    let count = if drop_n_last_lines >= kept.len() {
        0
    } else {
        kept.len() - drop_n_last_lines
    };
    joined(kept, count, count)
}

/// Tidy the captured content of a pane.
///
/// Every line loses the tabs and spaces at its end, the empty lines at the
/// end are dropped, then the last `drop_n_last_lines` lines (all of them
/// if there are no more). What is left is joined with line feeds, and the
/// last line gets the code that resets colors, which tmux does not
/// capture.
pub fn cleanup_captured_buffer(buffer: &[u8], drop_n_last_lines: usize) -> (r: Vec<u8>)
    ensures
        exists|lines: Seq<&[u8]>|
            lines_are(lines, trimmed_lines(buffer@, 0)) && r@ == #[trigger] spec_cleanup(
                lines,
                drop_n_last_lines as int,
            ),
{
    let trimmed = buf_trim_trailing(buffer);
    let kept = drop_last_empty_lines(trimmed.as_slice());
    let count: usize = if drop_n_last_lines >= kept.len() {
        0
    } else {
        kept.len() - drop_n_last_lines
    };
    let mut out: Vec<u8> = Vec::new();
    let mut i: usize = 0;
    while i < count
        invariant
            i <= count <= kept.len(),
            out@ == joined(kept@, count as int, i as int),
        decreases count - i,
    {
        let line: &[u8] = kept[i];
        let ghost before = out@;
        let mut j: usize = 0;
        while j < line.len()
            invariant
                j <= line.len(),
                out@ == before + line@.take(j as int),
            decreases line.len() - j,
        {
            out.push(line[j]);
            assert(line@.take(j + 1) =~= line@.take(j as int).push(line@[j as int]));
            assert(out@ =~= before + line@.take(j + 1));
            j = j + 1;
        }
        assert(line@.take(line.len() as int) =~= line@);
        if i + 1 == count {
            out.push(27);
            out.push(91);
            out.push(48);
            out.push(109);
            assert(out@ =~= before + line@ + reset_code());
        }
        out.push(10);
        assert(out@ =~= joined(kept@, count as int, i + 1));
        i = i + 1;
    }
    assert(out@ == spec_cleanup(trimmed@, drop_n_last_lines as int));
    out
}

} // verus!
