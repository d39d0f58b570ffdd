//! Window layout descriptors.
//!
//! Tmux reports the layout of a window as a compact string such as
//!
//! ```text
//! 41e9,279x71,0,0[279x40,0,0,71,279x30,0,41{147x30,0,41,72,131x30,148,41,73}]
//! ```
//!
//! The grammar is
//!
//! ```text
//! layout      := hex_id "," container
//! container   := uint "x" uint "," uint "," uint element
//! element     := "," uint
//!              | "{" container ("," container)* "}"
//!              | "[" container ("," container)* "]"
//! ```
//!
//! where every number must fit in 16 bits.

use vstd::prelude::*;
use crate::error::{is_parse_error, Error};
use vstd::string::StringSliceAdditionalSpecFns;

verus! {

/// Mathematical model of a [`Container`].
pub struct ContainerModel {
    pub width: u16,
    pub height: u16,
    pub x: u16,
    pub y: u16,
    pub element: ElementModel,
}

/// Mathematical model of an [`Element`].
pub enum ElementModel {
    Pane(u16),
    Horizontal(Seq<ContainerModel>),
    Vertical(Seq<ContainerModel>),
}

/// Mathematical model of a [`WindowLayout`].
pub struct LayoutModel {
    pub id: u16,
    pub container: ContainerModel,
}

/// Pane ids of a container, leaves in pre-order.
pub open spec fn container_leaves(c: ContainerModel) -> Seq<u16>
    decreases c,
{
    match c.element {
        ElementModel::Pane(id) => seq![id],
        ElementModel::Horizontal(children) => children_leaves(children),
        ElementModel::Vertical(children) => children_leaves(children),
    }
}

/// Pane ids of a list of sibling containers, first sibling first.
pub open spec fn children_leaves(children: Seq<ContainerModel>) -> Seq<u16>
    decreases children,
{
    if children.len() == 0 {
        Seq::empty()
    } else {
        children_leaves(children.drop_last()) + container_leaves(children.last())
    }
}

/// Width and height of a window or pane.
#[derive(Debug, PartialEq, Eq)]
pub struct Dimensions {
    pub width: u16,
    pub height: u16,
}

/// Offset of the top left corner of a window or pane.
#[derive(Debug, PartialEq, Eq)]
pub struct Coordinates {
    pub x: u16,
    pub y: u16,
}

/// Containers embedded in a split.
#[derive(Debug, PartialEq, Eq)]
pub struct Split {
    pub elements: Vec<Container>,
}

/// Content of a container.
#[derive(Debug, PartialEq, Eq)]
pub enum Element {
    /// A pane.
    Pane { pane_id: u16 },
    /// Containers side by side.
    Horizontal(Split),
    /// Containers on top of each other.
    Vertical(Split),
}

/// A rectangle of the window holding a pane or a split.
#[derive(Debug, PartialEq, Eq)]
pub struct Container {
    pub dimensions: Dimensions,
    pub coordinates: Coordinates,
    pub element: Element,
}

/// A parsed window layout.
#[derive(Debug, PartialEq, Eq)]
pub struct WindowLayout {
    /// Checksum of the layout, four hex digits such as `9f58`.
    pub id: u16,
    pub container: Container,
}

/// Model of a split: the models of its containers, in order.
pub open spec fn split_model(split: Split) -> Seq<ContainerModel>
    decreases split,
{
    Seq::new(
        split.elements.len() as nat,
        |i: int|
            if 0 <= i < split.elements.len() {
                container_model(split.elements[i])
            } else {
                arbitrary()
            },
    )
}

/// Model of an element.
pub open spec fn element_model(element: Element) -> ElementModel
    decreases element,
{
    match element {
        Element::Pane { pane_id } => ElementModel::Pane(pane_id),
        Element::Horizontal(split) => ElementModel::Horizontal(split_model(split)),
        Element::Vertical(split) => ElementModel::Vertical(split_model(split)),
    }
}

/// Model of a container.
pub open spec fn container_model(container: Container) -> ContainerModel
    decreases container,
{
    ContainerModel {
        width: container.dimensions.width,
        height: container.dimensions.height,
        x: container.coordinates.x,
        y: container.coordinates.y,
        element: element_model(container.element),
    }
}

impl View for Split {
    type V = Seq<ContainerModel>;

    open spec fn view(&self) -> Seq<ContainerModel> {
        split_model(*self)
    }
}

impl View for Element {
    type V = ElementModel;

    open spec fn view(&self) -> ElementModel {
        element_model(*self)
    }
}

impl View for Container {
    type V = ContainerModel;

    open spec fn view(&self) -> ContainerModel {
        container_model(*self)
    }
}

impl View for WindowLayout {
    type V = LayoutModel;

    open spec fn view(&self) -> LayoutModel {
        LayoutModel { id: self.id, container: self.container@ }
    }
}

/// Pane ids of an element, leaves in pre-order.
pub open spec fn element_leaves(e: ElementModel) -> Seq<u16> {
    match e {
        ElementModel::Pane(id) => seq![id],
        ElementModel::Horizontal(children) => children_leaves(children),
        ElementModel::Vertical(children) => children_leaves(children),
    }
}

impl Split {
    /// Append the pane ids of the split to `acc`, in pre-order.
    pub fn walk(&self, acc: &mut Vec<u16>)
        ensures
            final(acc)@ == old(acc)@ + children_leaves(self@),
        decreases self, 0int,
    {
        let n: usize = self.elements.len();
        let mut i: usize = 0;
        while i < n
            invariant
                n == self.elements.len(),
                0 <= i <= n,
                acc@ == old(acc)@ + children_leaves(self@.take(i as int)),
            decreases n - i,
        {
            proof {
                let next = self@.take(i + 1);
                assert(next.drop_last() =~= self@.take(i as int));
                assert(next.last() == self.elements[i as int]@);
            }
            self.elements[i].walk(acc);
            i = i + 1;
        }
        proof {
            assert(self@.take(n as int) =~= self@);
        }
    }
}

impl Element {
    /// Append the pane ids of the element to `acc`, in pre-order.
    pub fn walk(&self, acc: &mut Vec<u16>)
        ensures
            final(acc)@ == old(acc)@ + element_leaves(self@),
        decreases self, 1int,
    {
        match self {
            Element::Pane { pane_id } => {
                acc.push(*pane_id);
                assert(acc@ =~= old(acc)@ + seq![*pane_id]);
            },
            Element::Horizontal(split) => {
                split.walk(acc);
            },
            Element::Vertical(split) => {
                split.walk(acc);
            },
        }
    }
}

impl Container {
    /// Append the pane ids of the container to `acc`, in pre-order.
    pub fn walk(&self, acc: &mut Vec<u16>)
        ensures
            final(acc)@ == old(acc)@ + container_leaves(self@),
        decreases self, 2int,
    {
        self.element.walk(acc);
    }
}

impl WindowLayout {
    /// The pane ids of the layout: the leaves of the tree in pre-order,
    /// which is the order in which the panes appear on screen, left to right
    /// and top to bottom.
    pub fn pane_ids(&self) -> (ids: Vec<u16>)
        ensures
            ids@ == container_leaves(self@.container),
    {
        let mut acc: Vec<u16> = Vec::new();
        self.walk(&mut acc);
        assert(acc@ =~= container_leaves(self@.container));
        acc
    }

    /// Append the pane ids of the layout to `acc`, in pre-order.
    pub fn walk(&self, acc: &mut Vec<u16>)
        ensures
            final(acc)@ == old(acc)@ + container_leaves(self@.container),
    {
        self.container.walk(acc);
    }
}

/// Value of `b` read as a digit: a decimal digit, or with `hex` a
/// hexadecimal digit in either case.
pub open spec fn digit_value(b: u8, hex: bool) -> Option<int> {
    if 48 <= b <= 57 {
        Some(b - 48)
    } else if hex && 97 <= b <= 102 {
        Some(b - 87)
    } else if hex && 65 <= b <= 70 {
        Some(b - 55)
    } else {
        None
    }
}

/// Base in which a run of digits is read.
pub open spec fn radix(hex: bool) -> int {
    if hex {
        16
    } else {
        10
    }
}

/// First position at or after `pos` that holds no digit.
pub open spec fn digits_end(s: Seq<u8>, pos: int, hex: bool) -> int
    decreases s.len() - pos,
{
    if 0 <= pos < s.len() && digit_value(s[pos], hex) is Some {
        digits_end(s, pos + 1, hex)
    } else {
        pos
    }
}

/// Number written by the digits of `s` from `from` up to `to`.
pub open spec fn digits_value(s: Seq<u8>, from: int, to: int, hex: bool) -> int
    decreases to - from,
{
    if to <= from {
        0
    } else {
        digits_value(s, from, to - 1, hex) * radix(hex) + digit_value(s[to - 1], hex).unwrap()
    }
}

/// A number at `pos`: the longest run of digits there, which must not be
/// empty and must write a number of at most 16 bits. Gives the number and
/// the position after it.
pub open spec fn spec_number(s: Seq<u8>, pos: int, hex: bool) -> Option<(u16, int)> {
    let end = digits_end(s, pos, hex);
    let value = digits_value(s, pos, end, hex);
    if 0 <= pos < end && value <= 0xffff {
        Some((value as u16, end))
    } else {
        None
    }
}

/// Whether `s` holds the byte `b` at `pos`.
pub open spec fn byte_at(s: Seq<u8>, pos: int, b: u8) -> bool {
    0 <= pos < s.len() && s[pos] == b
}

/// Dimensions at `pos`: `width "x" height`.
pub open spec fn spec_dimensions(s: Seq<u8>, pos: int) -> Option<(u16, u16, int)> {
    match spec_number(s, pos, false) {
        Some((width, p)) if byte_at(s, p, 120) => match spec_number(s, p + 1, false) {
            Some((height, end)) => Some((width, height, end)),
            None => None,
        },
        _ => None,
    }
}

/// Coordinates at `pos`: `x "," y`.
pub open spec fn spec_coordinates(s: Seq<u8>, pos: int) -> Option<(u16, u16, int)> {
    match spec_number(s, pos, false) {
        Some((x, p)) if byte_at(s, p, 44) => match spec_number(s, p + 1, false) {
            Some((y, end)) => Some((x, y, end)),
            None => None,
        },
        _ => None,
    }
}

/// A container at `pos`: `dimensions "," coordinates element`. Gives the
/// container and the position after it.
pub open spec fn spec_container(s: Seq<u8>, pos: int) -> Option<(ContainerModel, int)>
    decreases s.len() - pos, 0int,
{
    match spec_dimensions(s, pos) {
        Some((width, height, p)) if byte_at(s, p, 44) => match spec_coordinates(s, p + 1) {
            Some((x, y, q)) if pos < q <= s.len() => match spec_element(s, q) {
                Some((element, end)) => Some(
                    (ContainerModel { width, height, x, y, element }, end),
                ),
                None => None,
            },
            _ => None,
        },
        _ => None,
    }
}

/// An element at `pos`: `"," pane_id` for a pane, a list of containers
/// between braces for containers side by side, or between square brackets
/// for containers on top of each other.
pub open spec fn spec_element(s: Seq<u8>, pos: int) -> Option<(ElementModel, int)>
    decreases s.len() - pos, 1int,
{
    if byte_at(s, pos, 44) {
        match spec_number(s, pos + 1, false) {
            Some((id, end)) => Some((ElementModel::Pane(id), end)),
            None => None,
        }
    } else if byte_at(s, pos, 123) {
        match spec_children(s, pos + 1) {
            Some((children, end)) if byte_at(s, end, 125) => Some(
                (ElementModel::Horizontal(children), end + 1),
            ),
            _ => None,
        }
    } else if byte_at(s, pos, 91) {
        match spec_children(s, pos + 1) {
            Some((children, end)) if byte_at(s, end, 93) => Some(
                (ElementModel::Vertical(children), end + 1),
            ),
            _ => None,
        }
    } else {
        None
    }
}

/// One or more containers at `pos`, separated by commas. Gives the
/// containers and the position after the last one.
pub open spec fn spec_children(s: Seq<u8>, pos: int) -> Option<(Seq<ContainerModel>, int)>
    decreases s.len() - pos, 2int,
{
    match spec_container(s, pos) {
        Some((first, p)) => {
            if p > pos && byte_at(s, p, 44) {
                match spec_children(s, p + 1) {
                    Some((rest, end)) => Some((seq![first] + rest, end)),
                    None => None,
                }
            } else {
                Some((seq![first], p))
            }
        },
        None => None,
    }
}

/// A layout at `pos`: `hex_id "," container`. Gives the layout and the
/// position after it.
pub open spec fn spec_layout_at(s: Seq<u8>, pos: int) -> Option<(LayoutModel, int)> {
    match spec_number(s, pos, true) {
        Some((id, p)) if byte_at(s, p, 44) => match spec_container(s, p + 1) {
            Some((container, end)) => Some((LayoutModel { id, container }, end)),
            None => None,
        },
        _ => None,
    }
}

/// The layout that the whole of `s` describes, if it describes one.
pub open spec fn spec_layout(s: Seq<u8>) -> Option<LayoutModel> {
    match spec_layout_at(s, 0) {
        Some((layout, end)) if end == s.len() => Some(layout),
        _ => None,
    }
}

fn digit(b: u8, hex: bool) -> (r: Option<u32>)
    ensures
        match digit_value(b, hex) {
            Some(v) => r == Some(v as u32) && 0 <= v < radix(hex),
            None => r is None,
        },
{
    if 48 <= b && b <= 57 {
        Some((b - 48) as u32)
    } else if hex && 97 <= b && b <= 102 {
        Some((b - 87) as u32)
    } else if hex && 65 <= b && b <= 70 {
        Some((b - 55) as u32)
    } else {
        None
    }
}

fn number(s: &[u8], pos: usize, hex: bool) -> (r: Option<(u16, usize)>)
    requires
        pos <= s.len(),
    ensures
        match spec_number(s@, pos as int, hex) {
            Some((value, end)) => r is Some && r.unwrap().0 == value && r.unwrap().1 == end,
            None => r is None,
        },
        r is Some ==> pos < r.unwrap().1 <= s.len(),
{
    let mut i: usize = pos;
    let mut acc: u32 = 0;
    let mut overflow: bool = false;
    loop
        invariant_except_break
            pos <= i <= s.len(),
            digits_end(s@, pos as int, hex) == digits_end(s@, i as int, hex),
            !overflow ==> acc == digits_value(s@, pos as int, i as int, hex) && acc <= 0xffff,
            overflow ==> digits_value(s@, pos as int, i as int, hex) > 0xffff,
        ensures
            pos <= i <= s.len(),
            i == digits_end(s@, pos as int, hex),
            !overflow ==> acc == digits_value(s@, pos as int, i as int, hex) && acc <= 0xffff,
            overflow ==> digits_value(s@, pos as int, i as int, hex) > 0xffff,
        decreases s.len() - i,
    {
        if i >= s.len() {
            break ;
        }
        let d: u32 = match digit(s[i], hex) {
            Some(d) => d,
            None => {
                break ;
            },
        };
        proof {
            let before = digits_value(s@, pos as int, i as int, hex);
            assert(digits_value(s@, pos as int, i + 1, hex) == before * radix(hex) + d);
            if hex {
                assert(before * radix(hex) == before * 16);
            } else {
                assert(before * radix(hex) == before * 10);
            }
        }
        if !overflow {
            acc = if hex {
                acc * 16 + d
            } else {
                acc * 10 + d
            };
            if acc > 0xffff {
                overflow = true;
            }
        }
        i = i + 1;
    }
    if i == pos || overflow {
        None
    } else {
        Some((acc as u16, i))
    }
}

/// Read the id of a layout at `pos`: hexadecimal digits.
pub fn layout_id(s: &[u8], pos: usize) -> (r: Option<(u16, usize)>)
    requires
        pos <= s.len(),
    ensures
        match spec_number(s@, pos as int, true) {
            Some((value, end)) => r is Some && r.unwrap().0 == value && r.unwrap().1 == end,
            None => r is None,
        },
        r is Some ==> pos < r.unwrap().1 <= s.len(),
{
    number(s, pos, true)
}

/// Read a decimal number of at most 16 bits at `pos`.
pub fn parse_u16(s: &[u8], pos: usize) -> (r: Option<(u16, usize)>)
    requires
        pos <= s.len(),
    ensures
        match spec_number(s@, pos as int, false) {
            Some((value, end)) => r is Some && r.unwrap().0 == value && r.unwrap().1 == end,
            None => r is None,
        },
        r is Some ==> pos < r.unwrap().1 <= s.len(),
{
    number(s, pos, false)
}

/// Read dimensions at `pos`, such as `279x71`.
pub fn dimensions(s: &[u8], pos: usize) -> (r: Option<(Dimensions, usize)>)
    requires
        pos <= s.len(),
    ensures
        match spec_dimensions(s@, pos as int) {
            Some((width, height, end)) => r is Some && r.unwrap().0 == (Dimensions {
                width,
                height,
            }) && r.unwrap().1 == end && pos < end <= s.len(),
            None => r is None,
        },
{
    let (width, p) = match number(s, pos, false) {
        Some(found) => found,
        None => {
            return None;
        },
    };
    if p >= s.len() || s[p] != 120 {
        return None;
    }
    match number(s, p + 1, false) {
        Some((height, end)) => Some((Dimensions { width, height }, end)),
        None => None,
    }
}

/// Read coordinates at `pos`, such as `148,41`.
pub fn coordinates(s: &[u8], pos: usize) -> (r: Option<(Coordinates, usize)>)
    requires
        pos <= s.len(),
    ensures
        match spec_coordinates(s@, pos as int) {
            Some((x, y, end)) => r is Some && r.unwrap().0 == (Coordinates { x, y })
                && r.unwrap().1 == end && pos < end <= s.len(),
            None => r is None,
        },
{
    let (x, p) = match number(s, pos, false) {
        Some(found) => found,
        None => {
            return None;
        },
    };
    if p >= s.len() || s[p] != 44 {
        return None;
    }
    match number(s, p + 1, false) {
        Some((y, end)) => Some((Coordinates { x, y }, end)),
        None => None,
    }
}

/// Whether `r` is what the grammar gives for an element.
pub open spec fn is_element_result(
    r: Option<(Element, usize)>,
    expected: Option<(ElementModel, int)>,
) -> bool {
    match expected {
        Some((model, end)) => r is Some && r.unwrap().0@ == model && r.unwrap().1 == end,
        None => r is None,
    }
}

/// Whether `r` is what the grammar gives for a container.
pub open spec fn is_container_result(
    r: Option<(Container, usize)>,
    expected: Option<(ContainerModel, int)>,
) -> bool {
    match expected {
        Some((model, end)) => r is Some && r.unwrap().0@ == model && r.unwrap().1 == end,
        None => r is None,
    }
}

/// Read a pane at `pos`: a comma and the number of the pane.
pub fn single_pane(s: &[u8], pos: usize) -> (r: Option<(Element, usize)>)
    requires
        pos <= s.len(),
    ensures
        is_element_result(
            r,
            if byte_at(s@, pos as int, 44) {
                spec_element(s@, pos as int)
            } else {
                None
            },
        ),
        r is Some ==> pos < r.unwrap().1 <= s.len(),
{
    if pos >= s.len() || s[pos] != 44 {
        return None;
    }
    match number(s, pos + 1, false) {
        Some((pane_id, end)) => Some((Element::Pane { pane_id }, end)),
        None => None,
    }
}

fn children(s: &[u8], pos: usize) -> (r: Option<(Vec<Container>, usize)>)
    requires
        pos <= s.len(),
    ensures
        match spec_children(s@, pos as int) {
            Some((models, end)) => r is Some && r.unwrap().1 == end && pos < end <= s.len()
                && (Split { elements: r.unwrap().0 })@ == models,
            None => r is None,
        },
    decreases s.len() - pos, 2int,
{
    let mut acc: Vec<Container> = Vec::new();
    let mut cur: usize = pos;
    let ghost mut models: Seq<ContainerModel> = Seq::empty();
    loop
        invariant
            pos <= cur <= s.len(),
            acc.len() > 0 ==> pos < cur,
            models.len() == acc.len(),
            forall|i: int| 0 <= i < acc.len() ==> (#[trigger] acc[i])@ == models[i],
            spec_children(s@, pos as int) == match spec_children(s@, cur as int) {
                Some((rest, end)) => Some((models + rest, end)),
                None => None,
            },
        decreases s.len() - cur,
    {
        assert(models + Seq::<ContainerModel>::empty() =~= models);
        let (first, end) = match container(s, cur) {
            Some(found) => found,
            None => {
                return None;
            },
        };
        let ghost model = first@;
        acc.push(first);
        if end < s.len() && s[end] == 44 {
            proof {
                match spec_children(s@, end + 1) {
                    Some((rest, e)) => {
                        assert(models + (seq![model] + rest) =~= models.push(model) + rest);
                    },
                    None => {},
                }
                models = models.push(model);
            }
            cur = end + 1;
        } else {
            proof {
                assert(models + seq![model] =~= models.push(model));
                models = models.push(model);
                assert((Split { elements: acc })@ =~= models);
            }
            return Some((acc, end));
        }
    }
}

fn split(s: &[u8], pos: usize, opening: u8, closing: u8) -> (r: Option<(Split, usize)>)
    requires
        pos <= s.len(),
    ensures
        match (
            if byte_at(s@, pos as int, opening) {
                spec_children(s@, pos + 1)
            } else {
                None
            }
        ) {
            Some((models, end)) if byte_at(s@, end, closing) => r is Some && r.unwrap().0@
                == models && r.unwrap().1 == end + 1 && pos < end + 1 <= s.len(),
            _ => r is None,
        },
    decreases s.len() - pos, 3int,
{
    if pos >= s.len() || s[pos] != opening {
        return None;
    }
    let (elements, end) = match children(s, pos + 1) {
        Some(found) => found,
        None => {
            return None;
        },
    };
    if end >= s.len() || s[end] != closing {
        return None;
    }
    Some((Split { elements }, end + 1))
}

/// Read containers side by side at `pos`: a list of containers between
/// braces.
pub fn horiz_split(s: &[u8], pos: usize) -> (r: Option<(Element, usize)>)
    requires
        pos <= s.len(),
    ensures
        is_element_result(
            r,
            if byte_at(s@, pos as int, 123) {
                spec_element(s@, pos as int)
            } else {
                None
            },
        ),
        r is Some ==> pos < r.unwrap().1 <= s.len(),
    decreases s.len() - pos, 4int,
{
    match split(s, pos, 123, 125) {
        Some((found, end)) => Some((Element::Horizontal(found), end)),
        None => None,
    }
}

/// Read containers on top of each other at `pos`: a list of containers
/// between square brackets.
pub fn vert_split(s: &[u8], pos: usize) -> (r: Option<(Element, usize)>)
    requires
        pos <= s.len(),
    ensures
        is_element_result(
            r,
            if byte_at(s@, pos as int, 91) {
                spec_element(s@, pos as int)
            } else {
                None
            },
        ),
        r is Some ==> pos < r.unwrap().1 <= s.len(),
    decreases s.len() - pos, 4int,
{
    match split(s, pos, 91, 93) {
        Some((found, end)) => Some((Element::Vertical(found), end)),
        None => None,
    }
}

/// Read an element at `pos`: a pane or a split.
pub fn element(s: &[u8], pos: usize) -> (r: Option<(Element, usize)>)
    requires
        pos <= s.len(),
    ensures
        is_element_result(r, spec_element(s@, pos as int)),
        r is Some ==> pos < r.unwrap().1 <= s.len(),
    decreases s.len() - pos, 5int,
{
    match single_pane(s, pos) {
        Some(found) => Some(found),
        None => match horiz_split(s, pos) {
            Some(found) => Some(found),
            None => vert_split(s, pos),
        },
    }
}

/// Read a container at `pos`: dimensions, coordinates and an element.
pub fn container(s: &[u8], pos: usize) -> (r: Option<(Container, usize)>)
    requires
        pos <= s.len(),
    ensures
        is_container_result(r, spec_container(s@, pos as int)),
        r is Some ==> pos < r.unwrap().1 <= s.len(),
    decreases s.len() - pos, 0int,
{
    let (dimensions, p) = match dimensions(s, pos) {
        Some(found) => found,
        None => {
            return None;
        },
    };
    if p >= s.len() || s[p] != 44 {
        return None;
    }
    let (coordinates, q) = match coordinates(s, p + 1) {
        Some(found) => found,
        None => {
            return None;
        },
    };
    match element(s, q) {
        Some((element, end)) => Some((Container { dimensions, coordinates, element }, end)),
        None => None,
    }
}

/// Whether `r` is what the grammar gives for a layout.
pub open spec fn is_layout_result(
    r: Option<(WindowLayout, usize)>,
    expected: Option<(LayoutModel, int)>,
) -> bool {
    match expected {
        Some((model, end)) => r is Some && r.unwrap().0@ == model && r.unwrap().1 == end,
        None => r is None,
    }
}

/// Read a layout that starts at `pos` in `s` and may be followed by other
/// text. Gives the layout and the position after it.
pub fn window_layout(s: &[u8], pos: usize) -> (r: Option<(WindowLayout, usize)>)
    requires
        pos <= s.len(),
    ensures
        is_layout_result(r, spec_layout_at(s@, pos as int)),
        r is Some ==> pos < r.unwrap().1 <= s.len(),
{
    let (id, p) = match layout_id(s, pos) {
        Some(found) => found,
        None => {
            return None;
        },
    };
    if p >= s.len() || s[p] != 44 {
        return None;
    }
    match container(s, p + 1) {
        Some((container, end)) => Some((WindowLayout { id, container }, end)),
        None => None,
    }
}

/// Decode a layout descriptor.
///
/// The whole of `input` must be one layout: anything left over after it is
/// an error, as are unbalanced brackets, a missing separator and a number
/// that does not fit in 16 bits.
pub fn parse_window_layout(input: &str) -> (r: Result<WindowLayout, Error>)
    ensures
        match spec_layout(input.spec_bytes()) {
            Some(model) => r is Ok && r.unwrap()@ == model,
            None => r is Err && is_parse_error(
                r.unwrap_err(),
                "window-layout"@,
                "window-layout"@,
                input@,
            ),
        },
{
    let bytes = input.as_bytes();
    match window_layout(bytes, 0) {
        Some((layout, end)) if end == bytes.len() => Ok(layout),
        _ => Err(
            Error::ParseError {
                desc: "window-layout",
                intent: "window-layout",
                input: input.to_owned(),
            },
        ),
    }
}

} // verus!
