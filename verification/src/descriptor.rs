//! Writing a layout as a descriptor, and why reading it back gives the
//! same layout.

use crate::layout::{
    Container, Element, Split, WindowLayout,
};
use crate::layout::{
    byte_at, container_leaves, digit_value, digits_end, digits_value, spec_children,
    spec_container, spec_coordinates, spec_dimensions, spec_element, spec_layout, spec_layout_at,
    spec_number, ContainerModel, ElementModel, LayoutModel,
};
use vstd::prelude::*;

verus! {

/// A number in decimal, without leading zeros.
pub open spec fn decimal_text(n: nat) -> Seq<u8>
    decreases n,
{
    if n < 10 {
        seq![(48 + n) as u8]
    } else {
        decimal_text(n / 10).push((48 + n % 10) as u8)
    }
}

/// The hexadecimal digit, in lower case, for a number below sixteen.
pub open spec fn hex_digit(d: int) -> u8 {
    if d < 10 {
        (48 + d) as u8
    } else {
        (87 + d) as u8
    }
}

/// The id of a layout: four hexadecimal digits.
pub open spec fn id_text(id: u16) -> Seq<u8> {
    seq![
        hex_digit(id as int / 4096),
        hex_digit((id as int / 256) % 16),
        hex_digit((id as int / 16) % 16),
        hex_digit(id as int % 16),
    ]
}

/// The descriptor of a container.
pub open spec fn container_text(c: ContainerModel) -> Seq<u8>
    decreases c,
{
    decimal_text(c.width as nat) + seq![120u8] + decimal_text(c.height as nat) + seq![44u8]
        + decimal_text(c.x as nat) + seq![44u8] + decimal_text(c.y as nat) + element_text(
        c.element,
    )
}

/// The descriptor of an element.
pub open spec fn element_text(e: ElementModel) -> Seq<u8>
    decreases e,
{
    match e {
        ElementModel::Pane(id) => seq![44u8] + decimal_text(id as nat),
        ElementModel::Horizontal(children) => seq![123u8] + children_text(children) + seq![125u8],
        ElementModel::Vertical(children) => seq![91u8] + children_text(children) + seq![93u8],
    }
}

/// The descriptors of sibling containers, separated by commas.
pub open spec fn children_text(children: Seq<ContainerModel>) -> Seq<u8>
    decreases children,
{
    if children.len() == 0 {
        Seq::empty()
    } else if children.len() == 1 {
        container_text(children[0])
    } else {
        container_text(children[0]) + seq![44u8] + children_text(children.drop_first())
    }
}

/// The descriptor of a layout.
pub open spec fn layout_text(layout: LayoutModel) -> Seq<u8> {
    id_text(layout.id) + seq![44u8] + container_text(layout.container)
}

/// Whether every split of the container holds at least one container.
pub open spec fn is_complete(c: ContainerModel) -> bool
    decreases c,
{
    match c.element {
        ElementModel::Pane(_) => true,
        ElementModel::Horizontal(children) => children.len() > 0 && are_complete(children),
        ElementModel::Vertical(children) => children.len() > 0 && are_complete(children),
    }
}

/// Whether every split of every container holds at least one container.
pub open spec fn are_complete(children: Seq<ContainerModel>) -> bool
    decreases children,
{
    if children.len() == 0 {
        true
    } else {
        is_complete(children[0]) && are_complete(children.drop_first())
    }
}

/// The descriptors of siblings with one more sibling are those of the
/// siblings, a comma, and that of the new one.
pub proof fn lemma_children_text_push(children: Seq<ContainerModel>, last: ContainerModel)
    ensures
        children_text(children.push(last)) == if children.len() == 0 {
            container_text(last)
        } else {
            children_text(children) + seq![44u8] + container_text(last)
        },
    decreases children.len(),
{
    let all = children.push(last);
    if children.len() == 0 {
        assert(all[0] == last);
    } else {
        let rest = children.drop_first();
        assert(all.drop_first() =~= rest.push(last));
        assert(all[0] == children[0]);
        lemma_children_text_push(rest, last);
        if rest.len() == 0 {
            assert(children_text(all) =~= children_text(children) + seq![44u8] + container_text(
                last,
            ));
        } else {
            assert(children_text(all) =~= children_text(children) + seq![44u8] + container_text(
                last,
            ));
        }
    }
}

fn push_decimal(out: &mut Vec<u8>, n: u16)
    ensures
        final(out)@ == old(out)@ + decimal_text(n as nat),
    decreases n,
{
    if n >= 10 {
        push_decimal(out, n / 10);
    }
    let ghost before = out@;
    out.push(48 + (n % 10) as u8);
    proof {
        if n >= 10 {
            assert(out@ =~= old(out)@ + decimal_text(n as nat));
        } else {
            assert(out@ =~= old(out)@ + decimal_text(n as nat));
        }
    }
}

fn hex_byte(d: u16) -> (r: u8)
    requires
        d < 16,
    ensures
        r == hex_digit(d as int),
{
    if d < 10 {
        48 + d as u8
    } else {
        87 + d as u8
    }
}

impl Split {
    /// Append the descriptors of the containers, separated by commas.
    pub fn write(&self, out: &mut Vec<u8>)
        ensures
            final(out)@ == old(out)@ + children_text(self@),
        decreases self, 0int,
    {
        let n: usize = self.elements.len();
        let mut i: usize = 0;
        assert(self@.take(0) =~= Seq::<ContainerModel>::empty());
        assert(out@ =~= old(out)@ + children_text(self@.take(0)));
        while i < n
            invariant
                n == self.elements.len(),
                0 <= i <= n,
                out@ == old(out)@ + children_text(self@.take(i as int)),
            decreases n - i,
        {
            proof {
                let done = self@.take(i as int);
                assert(self@.take(i + 1) =~= done.push(self.elements[i as int]@));
                lemma_children_text_push(done, self.elements[i as int]@);
            }
            let ghost before = out@;
            if i > 0 {
                out.push(44);
            }
            let ghost middle = out@;
            self.elements[i].write(out);
            proof {
                let done = self@.take(i as int);
                let next = container_text(self.elements[i as int]@);
                if i > 0 {
                    assert(middle =~= before + seq![44u8]);
                    assert(out@ =~= old(out)@ + (children_text(done) + seq![44u8] + next));
                } else {
                    assert(out@ =~= old(out)@ + next);
                }
            }
            i = i + 1;
        }
        proof {
            assert(self@.take(n as int) =~= self@);
        }
    }
}

impl Element {
    /// Append the descriptor of the element.
    pub fn write(&self, out: &mut Vec<u8>)
        ensures
            final(out)@ == old(out)@ + element_text(self@),
        decreases self, 1int,
    {
        match self {
            Element::Pane { pane_id } => {
                out.push(44);
                push_decimal(out, *pane_id);
                assert(out@ =~= old(out)@ + (seq![44u8] + decimal_text(*pane_id as nat)));
            },
            Element::Horizontal(split) => {
                out.push(123);
                split.write(out);
                out.push(125);
                assert(out@ =~= old(out)@ + (seq![123u8] + children_text(split@) + seq![125u8]));
            },
            Element::Vertical(split) => {
                out.push(91);
                split.write(out);
                out.push(93);
                assert(out@ =~= old(out)@ + (seq![91u8] + children_text(split@) + seq![93u8]));
            },
        }
    }
}

impl Container {
    /// Append the descriptor of the container.
    pub fn write(&self, out: &mut Vec<u8>)
        ensures
            final(out)@ == old(out)@ + container_text(self@),
        decreases self, 2int,
    {
        push_decimal(out, self.dimensions.width);
        out.push(120);
        push_decimal(out, self.dimensions.height);
        out.push(44);
        push_decimal(out, self.coordinates.x);
        out.push(44);
        push_decimal(out, self.coordinates.y);
        self.element.write(out);
        assert(out@ =~= old(out)@ + container_text(self@));
    }
}

impl WindowLayout {
    /// The descriptor of the layout, as tmux writes it.
    pub fn descriptor(&self) -> (r: Vec<u8>)
        ensures
            r@ == layout_text(self@),
    {
        let mut out: Vec<u8> = Vec::new();
        out.push(hex_byte(self.id / 4096));
        out.push(hex_byte((self.id / 256) % 16));
        out.push(hex_byte((self.id / 16) % 16));
        out.push(hex_byte(self.id % 16));
        out.push(44);
        assert(out@ =~= id_text(self.id) + seq![44u8]);
        self.container.write(&mut out);
        out
    }
}

/// Whether `s` holds `t` at `pos`.
pub open spec fn has_at(s: Seq<u8>, pos: int, t: Seq<u8>) -> bool {
    0 <= pos && pos + t.len() <= s.len() && s.subrange(pos, pos + t.len()) == t
}

/// Whether no decimal digit follows at `pos`.
pub open spec fn number_stops(s: Seq<u8>, pos: int) -> bool {
    pos == s.len() || (0 <= pos < s.len() && digit_value(s[pos], false) is None)
}

/// Whether neither a decimal digit nor a comma follows at `pos`.
pub open spec fn list_stops(s: Seq<u8>, pos: int) -> bool {
    pos == s.len() || (0 <= pos < s.len() && digit_value(s[pos], false) is None && s[pos] != 44)
}

/// A text that holds two texts in a row holds each of them.
pub proof fn lemma_has_at_parts(s: Seq<u8>, pos: int, a: Seq<u8>, b: Seq<u8>)
    requires
        has_at(s, pos, a + b),
    ensures
        has_at(s, pos, a),
        has_at(s, pos + a.len(), b),
{
    let t = a + b;
    assert forall|i: int| 0 <= i < a.len() implies s.subrange(pos, pos + a.len())[i] == a[i] by {
        assert(s.subrange(pos, pos + t.len())[i] == t[i]);
    }
    assert(s.subrange(pos, pos + a.len()) =~= a);
    assert forall|i: int| 0 <= i < b.len() implies s.subrange(
        pos + a.len(),
        pos + a.len() + b.len(),
    )[i] == b[i] by {
        assert(s.subrange(pos, pos + t.len())[i + a.len()] == t[i + a.len()]);
    }
    assert(s.subrange(pos + a.len(), pos + a.len() + b.len()) =~= b);
}

/// A text that holds a single byte holds it at that position.
pub proof fn lemma_has_byte(s: Seq<u8>, pos: int, b: u8)
    requires
        has_at(s, pos, seq![b]),
    ensures
        byte_at(s, pos, b),
{
    assert(s.subrange(pos, pos + 1)[0] == seq![b][0]);
}

/// A number in decimal is one or more decimal digits.
pub proof fn lemma_decimal_text(n: nat)
    ensures
        decimal_text(n).len() > 0,
        forall|i: int|
            0 <= i < decimal_text(n).len() ==> digit_value(
                #[trigger] decimal_text(n)[i],
                false,
            ) is Some,
    decreases n,
{
    if n >= 10 {
        lemma_decimal_text(n / 10);
    }
}

/// A run of digits that is followed by no digit ends there.
pub proof fn lemma_digits_end(s: Seq<u8>, from: int, to: int, hex: bool)
    requires
        0 <= from <= to <= s.len(),
        forall|i: int| from <= i < to ==> digit_value(#[trigger] s[i], hex) is Some,
        to == s.len() || digit_value(s[to], hex) is None,
    ensures
        digits_end(s, from, hex) == to,
    decreases to - from,
{
    if from < to {
        lemma_digits_end(s, from + 1, to, hex);
    }
}

/// The digits of a number in decimal write that number.
pub proof fn lemma_digits_value(s: Seq<u8>, from: int, n: nat)
    requires
        has_at(s, from, decimal_text(n)),
    ensures
        digits_value(s, from, from + decimal_text(n).len(), false) == n,
    decreases n,
{
    let t = decimal_text(n);
    let to = from + t.len();
    lemma_decimal_text(n);
    assert(s.subrange(from, to)[t.len() - 1] == t[t.len() - 1]);
    if n < 10 {
        assert(digits_value(s, from, from, false) == 0);
    } else {
        let t0 = decimal_text(n / 10);
        assert(t =~= t0 + seq![(48 + n % 10) as u8]);
        lemma_has_at_parts(s, from, t0, seq![(48 + n % 10) as u8]);
        lemma_digits_value(s, from, n / 10);
    }
}

/// Reading a number written in decimal gives that number.
pub proof fn lemma_number(s: Seq<u8>, pos: int, n: u16)
    requires
        has_at(s, pos, decimal_text(n as nat)),
        number_stops(s, pos + decimal_text(n as nat).len()),
    ensures
        spec_number(s, pos, false) == Some((n, pos + decimal_text(n as nat).len())),
        decimal_text(n as nat).len() > 0,
{
    let t = decimal_text(n as nat);
    let to = pos + t.len();
    lemma_decimal_text(n as nat);
    assert forall|i: int| pos <= i < to implies digit_value(#[trigger] s[i], false) is Some by {
        assert(s.subrange(pos, to)[i - pos] == t[i - pos]);
    }
    lemma_digits_end(s, pos, to, false);
    lemma_digits_value(s, pos, n as nat);
}

/// Reading a container written as a descriptor gives that container.
pub proof fn lemma_container(s: Seq<u8>, pos: int, c: ContainerModel)
    requires
        is_complete(c),
        has_at(s, pos, container_text(c)),
        number_stops(s, pos + container_text(c).len()),
    ensures
        spec_container(s, pos) == Some((c, pos + container_text(c).len())),
        container_text(c).len() > 0,
    decreases c, 1int,
{
    let w = decimal_text(c.width as nat);
    let h = decimal_text(c.height as nat);
    let x = decimal_text(c.x as nat);
    let y = decimal_text(c.y as nat);
    let e = element_text(c.element);
    let by_x = seq![120u8];
    let comma = seq![44u8];
    let t6 = w + by_x + h + comma + x + comma + y;
    let t5 = w + by_x + h + comma + x + comma;
    let t4 = w + by_x + h + comma + x;
    let t3 = w + by_x + h + comma;
    let t2 = w + by_x + h;
    let t1 = w + by_x;
    lemma_has_at_parts(s, pos, t6, e);
    lemma_has_at_parts(s, pos, t5, y);
    lemma_has_at_parts(s, pos, t4, comma);
    lemma_has_at_parts(s, pos, t3, x);
    lemma_has_at_parts(s, pos, t2, comma);
    lemma_has_at_parts(s, pos, t1, h);
    lemma_has_at_parts(s, pos, w, by_x);
    let at1 = pos + w.len();
    let at2 = at1 + 1 + h.len();
    let at3 = at2 + 1 + x.len();
    let at4 = at3 + 1 + y.len();
    lemma_has_byte(s, at1, 120u8);
    lemma_has_byte(s, at2, 44u8);
    lemma_has_byte(s, at3, 44u8);
    lemma_number(s, pos, c.width);
    lemma_number(s, at1 + 1, c.height);
    lemma_number(s, at2 + 1, c.x);
    lemma_element_start(s, at4, c.element);
    lemma_number(s, at3 + 1, c.y);
    lemma_element(s, at4, c.element);
    assert(spec_dimensions(s, pos) == Some((c.width, c.height, at2)));
    assert(spec_coordinates(s, at2 + 1) == Some((c.x, c.y, at4)));
}

/// The descriptor of an element starts with a byte that is no digit.
pub proof fn lemma_element_start(s: Seq<u8>, pos: int, e: ElementModel)
    requires
        has_at(s, pos, element_text(e)),
    ensures
        number_stops(s, pos),
        element_text(e).len() > 0,
{
    match e {
        ElementModel::Pane(id) => {
            lemma_has_at_parts(s, pos, seq![44u8], decimal_text(id as nat));
            lemma_has_byte(s, pos, 44u8);
        },
        ElementModel::Horizontal(children) => {
            lemma_has_at_parts(s, pos, seq![123u8] + children_text(children), seq![125u8]);
            lemma_has_at_parts(s, pos, seq![123u8], children_text(children));
            lemma_has_byte(s, pos, 123u8);
        },
        ElementModel::Vertical(children) => {
            lemma_has_at_parts(s, pos, seq![91u8] + children_text(children), seq![93u8]);
            lemma_has_at_parts(s, pos, seq![91u8], children_text(children));
            lemma_has_byte(s, pos, 91u8);
        },
    }
}

/// Reading an element written as a descriptor gives that element.
pub proof fn lemma_element(s: Seq<u8>, pos: int, e: ElementModel)
    requires
        match e {
            ElementModel::Pane(_) => true,
            ElementModel::Horizontal(children) => children.len() > 0 && are_complete(children),
            ElementModel::Vertical(children) => children.len() > 0 && are_complete(children),
        },
        has_at(s, pos, element_text(e)),
        number_stops(s, pos + element_text(e).len()),
    ensures
        spec_element(s, pos) == Some((e, pos + element_text(e).len())),
    decreases e, 0int,
{
    match e {
        ElementModel::Pane(id) => {
            lemma_has_at_parts(s, pos, seq![44u8], decimal_text(id as nat));
            lemma_has_byte(s, pos, 44u8);
            lemma_number(s, pos + 1, id);
        },
        ElementModel::Horizontal(children) => {
            let inner = children_text(children);
            lemma_has_at_parts(s, pos, seq![123u8] + inner, seq![125u8]);
            lemma_has_at_parts(s, pos, seq![123u8], inner);
            lemma_has_byte(s, pos, 123u8);
            lemma_has_byte(s, pos + 1 + inner.len(), 125u8);
            lemma_children(s, pos + 1, children);
        },
        ElementModel::Vertical(children) => {
            let inner = children_text(children);
            lemma_has_at_parts(s, pos, seq![91u8] + inner, seq![93u8]);
            lemma_has_at_parts(s, pos, seq![91u8], inner);
            lemma_has_byte(s, pos, 91u8);
            lemma_has_byte(s, pos + 1 + inner.len(), 93u8);
            lemma_children(s, pos + 1, children);
        },
    }
}

/// Reading sibling containers written as descriptors gives those
/// containers.
pub proof fn lemma_children(s: Seq<u8>, pos: int, children: Seq<ContainerModel>)
    requires
        children.len() > 0,
        are_complete(children),
        has_at(s, pos, children_text(children)),
        list_stops(s, pos + children_text(children).len()),
    ensures
        spec_children(s, pos) == Some((children, pos + children_text(children).len())),
    decreases children, 2int,
{
    let first = children[0];
    let head = container_text(first);
    if children.len() == 1 {
        lemma_container(s, pos, first);
        assert(seq![first] =~= children);
    } else {
        let rest = children.drop_first();
        let tail = children_text(rest);
        lemma_has_at_parts(s, pos, head + seq![44u8], tail);
        lemma_has_at_parts(s, pos, head, seq![44u8]);
        lemma_has_byte(s, pos + head.len(), 44u8);
        lemma_container(s, pos, first);
        lemma_children(s, pos + head.len() + 1, rest);
        assert(seq![first] + rest =~= children);
    }
}

/// Every split of a container that was read holds at least one
/// container.
pub proof fn lemma_read_container_complete(s: Seq<u8>, pos: int)
    ensures
        spec_container(s, pos) is Some ==> is_complete(spec_container(s, pos).unwrap().0),
    decreases s.len() - pos, 0int,
{
    match spec_dimensions(s, pos) {
        Some((width, height, p)) if byte_at(s, p, 44) => match spec_coordinates(s, p + 1) {
            Some((x, y, q)) if pos < q <= s.len() => {
                if byte_at(s, q, 123) || byte_at(s, q, 91) {
                    lemma_read_children_complete(s, q + 1);
                }
            },
            _ => {},
        },
        _ => {},
    }
}

/// Containers that were read as a list are at least one, and every split
/// of each holds at least one container.
pub proof fn lemma_read_children_complete(s: Seq<u8>, pos: int)
    ensures
        spec_children(s, pos) is Some ==> spec_children(s, pos).unwrap().0.len() > 0
            && are_complete(spec_children(s, pos).unwrap().0),
    decreases s.len() - pos, 2int,
{
    match spec_container(s, pos) {
        Some((first, p)) => {
            lemma_read_container_complete(s, pos);
            if p > pos && byte_at(s, p, 44) {
                lemma_read_children_complete(s, p + 1);
                match spec_children(s, p + 1) {
                    Some((rest, end)) => {
                        let all = seq![first] + rest;
                        assert(all[0] == first);
                        assert(all.drop_first() =~= rest);
                    },
                    None => {},
                }
            } else {
                let all = seq![first];
                assert(all.drop_first() =~= Seq::<ContainerModel>::empty());
                assert(are_complete(all.drop_first()));
            }
        },
        None => {},
    }
}

/// A layout that was read from a text, written as a descriptor and read
/// again is the same layout, with the same panes in the same order.
pub proof fn lemma_read_write_read(s: Seq<u8>)
    requires
        spec_layout(s) is Some,
    ensures
        spec_layout(layout_text(spec_layout(s).unwrap())) == spec_layout(s),
{
    let layout = spec_layout(s).unwrap();
    match spec_number(s, 0, true) {
        Some((id, p)) => {
            lemma_read_container_complete(s, p + 1);
        },
        None => {},
    }
    lemma_round_trip(layout);
}

/// Reading the id of a layout written in four hexadecimal digits gives
/// that id.
pub proof fn lemma_id(s: Seq<u8>, id: u16)
    requires
        has_at(s, 0, id_text(id)),
        byte_at(s, 4, 44),
    ensures
        spec_number(s, 0, true) == Some((id, 4int)),
{
    let t = id_text(id);
    assert(s.subrange(0, 4)[0] == t[0]);
    assert(s.subrange(0, 4)[1] == t[1]);
    assert(s.subrange(0, 4)[2] == t[2]);
    assert(s.subrange(0, 4)[3] == t[3]);
    let d3 = id as int / 4096;
    let d2 = (id as int / 256) % 16;
    let d1 = (id as int / 16) % 16;
    let d0 = id as int % 16;
    assert(digit_value(s[0], true) == Some(d3));
    assert(digit_value(s[1], true) == Some(d2));
    assert(digit_value(s[2], true) == Some(d1));
    assert(digit_value(s[3], true) == Some(d0));
    assert forall|i: int| 0 <= i < 4 implies digit_value(#[trigger] s[i], true) is Some by {
        if i == 0 {
        } else if i == 1 {
        } else if i == 2 {
        } else {
        }
    }
    lemma_digits_end(s, 0, 4, true);
    assert(digits_value(s, 0, 0, true) == 0);
    assert(digits_value(s, 0, 1, true) == d3);
    assert(digits_value(s, 0, 2, true) == d3 * 16 + d2);
    assert(digits_value(s, 0, 3, true) == (d3 * 16 + d2) * 16 + d1);
    assert(digits_value(s, 0, 4, true) == ((d3 * 16 + d2) * 16 + d1) * 16 + d0);
    assert(((d3 * 16 + d2) * 16 + d1) * 16 + d0 == id as int);
}

/// A layout written as a descriptor and read back is the same layout, so
/// it has the same panes in the same order. This holds of every layout
/// whose splits hold at least one container each.
pub proof fn lemma_round_trip(layout: LayoutModel)
    requires
        is_complete(layout.container),
    ensures
        spec_layout(layout_text(layout)) == Some(layout),
        container_leaves(spec_layout(layout_text(layout)).unwrap().container) == container_leaves(
            layout.container,
        ),
{
    let s = layout_text(layout);
    let id = id_text(layout.id);
    let body = container_text(layout.container);
    assert(s.subrange(0, s.len() as int) =~= s);
    lemma_has_at_parts(s, 0, id + seq![44u8], body);
    lemma_has_at_parts(s, 0, id, seq![44u8]);
    lemma_has_byte(s, 4, 44u8);
    lemma_id(s, layout.id);
    lemma_container(s, 5, layout.container);
    assert(spec_layout_at(s, 0) == Some((layout, s.len() as int)));
}

} // verus!
