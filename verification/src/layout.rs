//! The configured tree of panes and splits, and its partition into rectangles.
use crate::property::{Property, PropertyKind};
use ratatui::layout::{Alignment, Constraint, Direction, Layout, Rect};
use ratatui::widgets::Block;
use vstd::prelude::*;

verus! {

/// Makes `ratatui::layout::Rect` known as it is defined: a record of the four
/// `u16` fields `x`, `y`, `width` and `height`.
#[verifier::external_type_specification]
pub struct ExRect(Rect);

/// Makes `ratatui::layout::Direction` known as it is defined: `Horizontal` or
/// `Vertical`.
#[verifier::external_type_specification]
pub struct ExDirection(Direction);

/// Makes `ratatui::layout::Constraint` known as it is defined, each variant with
/// its numbers.
#[verifier::external_type_specification]
pub struct ExConstraint(Constraint);

/// Makes `ratatui::layout::Alignment` known as a value that is carried through
/// and never looked into.
#[verifier::external_type_specification]
#[verifier::external_body]
pub struct ExAlignment(Alignment);

/// Which component occupies a slot of the layout.
#[derive(Debug, PartialEq, Eq)]
pub enum PaneType {
    Queue,
    Directories,
    Artists,
    AlbumArtists,
    Albums,
    Playlists,
    Search,
    AlbumArt,
    Lyrics,
    ProgressBar,
    Header,
    Tabs,
    TabContent,
    /// A line of text resolved from `content`.
    Property { content: Vec<Property<PropertyKind>>, align: Alignment, scroll_speed: u64 },
    /// A browser of the library by the tag `root_tag`.
    Browser { root_tag: String, separator: Option<String> },
    Cava,
}

/// The sides of a rectangle that carry a border, as a set of bits: 1 for the
/// top, 2 for the right, 4 for the bottom and 8 for the left side.
#[derive(Debug, Clone, Copy, PartialEq, Eq)]
pub struct Borders {
    pub bits: u8,
}

/// A leaf of the layout tree.
#[derive(Debug, PartialEq, Eq)]
pub struct Pane {
    pub pane: PaneType,
    pub borders: Borders,
    pub id: u32,
}

/// The share of a split that a child asks for.
#[derive(Debug, Clone, Copy, PartialEq, Eq)]
pub enum PercentOrLength {
    /// Per cent of the split's extent along its direction.
    Percent(u16),
    /// A number of cells.
    Length(u16),
    /// Per cent of the split's extent across its direction.
    Ratio(u16),
}

/// A child of a split with the share it asks for.
#[derive(Debug, PartialEq, Eq)]
pub struct SubPane {
    pub size: PercentOrLength,
    pub pane: SizedPaneOrSplit,
}

/// A node of the layout tree.
#[derive(Debug, PartialEq, Eq)]
pub enum SizedPaneOrSplit {
    Pane(Pane),
    Split { direction: Direction, borders: Borders, panes: Vec<SubPane> },
}

impl Borders {
    /// The top side carries a border.
    pub open spec fn top(&self) -> bool {
        self.bits & 1u8 != 0u8
    }

    /// The right side carries a border.
    pub open spec fn right(&self) -> bool {
        self.bits & 2u8 != 0u8
    }

    /// The bottom side carries a border.
    pub open spec fn bottom(&self) -> bool {
        self.bits & 4u8 != 0u8
    }

    /// The left side carries a border.
    pub open spec fn left(&self) -> bool {
        self.bits & 8u8 != 0u8
    }
}

/// `a + b`, held at the largest `u16`.
pub open spec fn saturating_sum(a: u16, b: u16) -> u16 {
    if a + b > u16::MAX {
        u16::MAX
    } else {
        (a + b) as u16
    }
}

/// `a` less one, held at zero.
pub open spec fn one_less(a: u16) -> u16 {
    if a == 0 {
        0u16
    } else {
        (a - 1) as u16
    }
}

/// The smaller of two numbers.
pub open spec fn smaller(a: u16, b: u16) -> u16 {
    if a <= b {
        a
    } else {
        b
    }
}

/// The rectangle that the borders leave free inside `area`. A border on the left
/// or the top moves the corner by one cell, but not beyond the far edge, and
/// every border takes one cell off the extent it runs across, down to zero.
pub open spec fn inset(borders: Borders, area: Rect) -> Rect {
    let x = if borders.left() {
        smaller(saturating_sum(area.x, 1), saturating_sum(area.x, area.width))
    } else {
        area.x
    };
    let width_left = if borders.left() {
        one_less(area.width)
    } else {
        area.width
    };
    let y = if borders.top() {
        smaller(saturating_sum(area.y, 1), saturating_sum(area.y, area.height))
    } else {
        area.y
    };
    let height_top = if borders.top() {
        one_less(area.height)
    } else {
        area.height
    };
    Rect {
        x,
        y,
        width: if borders.right() {
            one_less(width_left)
        } else {
            width_left
        },
        height: if borders.bottom() {
            one_less(height_top)
        } else {
            height_top
        },
    }
}

/// Calls `Block::inner` on a block that has these borders and neither title nor
/// padding. The contract claims that the result is [`inset`], which follows the
/// body of `Block::inner` line by line for such a block.
#[verifier::external_body]
pub(crate) fn block_inner(borders: Borders, area: Rect) -> (r: Rect)
    ensures
        r == inset(borders, area),
{
    let sides = ratatui::widgets::Borders::from_bits_truncate(borders.bits);
    Block::default().borders(sides).inner(area)
}

/// `areas` is a division of `area` along `direction` under `constraints`, as far
/// as that is known of every division: there is one part for each constraint;
/// across the direction every part spans the area; along the direction every
/// part lies inside the area.
pub open spec fn is_division(
    direction: Direction,
    area: Rect,
    constraints: Seq<Constraint>,
    areas: Seq<Rect>,
) -> bool {
    &&& areas.len() == constraints.len()
    &&& forall|i: int|
        0 <= i < areas.len() ==> match direction {
            Direction::Horizontal => {
                &&& (#[trigger] areas[i]).y == area.y
                &&& areas[i].height == area.height
                &&& area.x <= areas[i].x
                &&& areas[i].x + areas[i].width <= saturating_sum(area.x, area.width)
            },
            Direction::Vertical => {
                &&& (#[trigger] areas[i]).x == area.x
                &&& areas[i].width == area.width
                &&& area.y <= areas[i].y
                &&& areas[i].y + areas[i].height <= saturating_sum(area.y, area.height)
            },
        }
}

/// Calls `Layout::new(direction, constraints).split(area)`, which solves the
/// constraints for the extents along `direction`. The solver walks hash maps, so
/// the contract claims only what the source shows of every result: one
/// rectangle for each constraint, each with the position and the extent of
/// `area` across the direction, and each between the two ends of `area` along
/// the direction, which the solver is required to keep every part within.
#[verifier::external_body]
pub(crate) fn layout_split(direction: Direction, constraints: &Vec<Constraint>, area: Rect) -> (r: Vec<Rect>)
    ensures
        is_division(direction, area, constraints@, r@),
{
    Layout::new(direction, constraints.clone()).split(area).to_vec()
}

/// The constraint that a share puts on the extent of a child, in a split whose
/// extent across its direction is `parent_other_size`.
pub open spec fn constraint_of(size: PercentOrLength, parent_other_size: u16) -> Constraint {
    match size {
        PercentOrLength::Percent(p) => Constraint::Percentage(p),
        PercentOrLength::Length(l) => Constraint::Length(l),
        PercentOrLength::Ratio(r) => Constraint::Length(
            if parent_other_size * r / 100 > u16::MAX {
                u16::MAX
            } else {
                (parent_other_size * r / 100) as u16
            },
        ),
    }
}

impl PercentOrLength {
    /// The constraint that this share puts on the extent of a child. A ratio is
    /// taken of `parent_other_size`, the extent of the split across its
    /// direction, and held at the largest `u16`.
    pub fn into_constraint(self, parent_other_size: u16) -> (r: Constraint)
        ensures
            r == constraint_of(self, parent_other_size),
    {
        match self {
            PercentOrLength::Percent(p) => Constraint::Percentage(p),
            PercentOrLength::Length(l) => Constraint::Length(l),
            PercentOrLength::Ratio(r) => {
                assert(parent_other_size * r <= 0xffff * 0xffff) by (nonlinear_arith)
                    requires
                        parent_other_size <= 0xffff,
                        r <= 0xffff,
                ;
                let cells: u32 = (parent_other_size as u32) * (r as u32) / 100;
                Constraint::Length(
                    if cells > 0xffff {
                        0xffff
                    } else {
                        cells as u16
                    },
                )
            },
        }
    }
}

/// The constraints of the children `panes`, in order.
pub open spec fn constraints_of(panes: Seq<SubPane>, parent_other_size: u16) -> Seq<Constraint> {
    Seq::new(panes.len(), |i: int| constraint_of(panes[i].size, parent_other_size))
}

/// The extent of `area` across `direction`.
pub open spec fn other_size(direction: Direction, area: Rect) -> u16 {
    match direction {
        Direction::Horizontal => area.height,
        Direction::Vertical => area.width,
    }
}

/// The constraints of the children `panes`, in order.
pub fn constraints(panes: &Vec<SubPane>, parent_other_size: u16) -> (r: Vec<Constraint>)
    ensures
        r@ == constraints_of(panes@, parent_other_size),
{
    let mut out: Vec<Constraint> = Vec::new();
    let mut i: usize = 0;
    while i < panes.len()
        invariant
            i <= panes.len(),
            out@ == constraints_of(panes@, parent_other_size).take(i as int),
        decreases panes.len() - i,
    {
        out.push(panes[i].size.into_constraint(parent_other_size));
        assert(constraints_of(panes@, parent_other_size).take(i + 1) == constraints_of(
            panes@,
            parent_other_size,
        ).take(i as int).push(constraint_of(panes@[i as int].size, parent_other_size)));
        i += 1;
    }
    assert(constraints_of(panes@, parent_other_size).take(panes.len() as int) == constraints_of(
        panes@,
        parent_other_size,
    ));
    out
}

/// The number of nodes of a layout tree.
pub open spec fn node_count(node: &SizedPaneOrSplit) -> nat
    decreases node, 0int,
{
    match node {
        SizedPaneOrSplit::Pane(_) => 1,
        SizedPaneOrSplit::Split { panes, .. } => 1 + children_count(panes@, 0),
    }
}

/// The number of nodes of the children `panes` from position `from` on.
pub open spec fn children_count(panes: Seq<SubPane>, from: int) -> nat
    decreases panes, 1int, panes.len() - from,
{
    if from < 0 || from >= panes.len() {
        0
    } else {
        node_count(&panes[from].pane) + children_count(panes, from + 1)
    }
}

/// The leaves of a layout tree, in the order in which they are declared.
pub open spec fn leaves<'a>(node: &'a SizedPaneOrSplit) -> Seq<&'a Pane>
    decreases node, 0int,
{
    match node {
        SizedPaneOrSplit::Pane(pane) => seq![pane],
        SizedPaneOrSplit::Split { panes, .. } => children_leaves(panes@, 0),
    }
}

/// The leaves of the children `panes` from position `from` on.
pub open spec fn children_leaves<'a>(panes: Seq<SubPane>, from: int) -> Seq<&'a Pane>
    decreases panes, 1int, panes.len() - from,
{
    if from < 0 || from >= panes.len() {
        Seq::empty()
    } else {
        leaves(&panes[from].pane) + children_leaves(panes, from + 1)
    }
}

/// The leaves of the trees of `stack`, those of the last tree first.
pub open spec fn waiting_leaves<'a>(stack: Seq<&'a SizedPaneOrSplit>) -> Seq<&'a Pane>
    decreases stack.len(),
{
    if stack.len() == 0 {
        Seq::empty()
    } else {
        leaves(stack.last()) + waiting_leaves(stack.drop_last())
    }
}

/// The number of nodes in the trees of `stack`.
pub open spec fn waiting_nodes(stack: Seq<&SizedPaneOrSplit>) -> nat
    decreases stack.len(),
{
    if stack.len() == 0 {
        0
    } else {
        node_count(stack.last()) + waiting_nodes(stack.drop_last())
    }
}

impl SizedPaneOrSplit {
    /// The leaves of the tree, in the order in which they are declared.
    pub fn panes(&self) -> (r: Vec<&Pane>)
        ensures
            r@ == leaves(self),
    {
        let mut out: Vec<&Pane> = Vec::new();
        let mut stack: Vec<&SizedPaneOrSplit> = Vec::new();
        stack.push(self);
        assert(stack@.drop_last().len() == 0);
        assert(waiting_leaves(stack@.drop_last()) == Seq::<&Pane>::empty());
        assert(waiting_leaves(stack@) == leaves(self) + Seq::<&Pane>::empty());
        loop
            invariant
                out@ + waiting_leaves(stack@) == leaves(self),
            decreases waiting_nodes(stack@),
        {
            let ghost before = stack@;
            match stack.pop() {
                None => {
                    assert(out@ + Seq::<&Pane>::empty() == out@);
                    return out;
                },
                Some(node) => {
                    let ghost rest = stack@;
                    assert(before.drop_last() == rest);
                    match node {
                        SizedPaneOrSplit::Pane(pane) => {
                            let ghost shown = out@;
                            out.push(pane);
                            assert(shown + (seq![pane] + waiting_leaves(rest)) == shown.push(pane)
                                + waiting_leaves(rest));
                        },
                        SizedPaneOrSplit::Split { panes, .. } => {
                            let mut i: usize = panes.len();
                            assert(children_leaves(panes@, i as int) + waiting_leaves(rest)
                                == waiting_leaves(rest));
                            while i > 0
                                invariant
                                    i <= panes.len(),
                                    waiting_leaves(stack@) == children_leaves(panes@, i as int)
                                        + waiting_leaves(rest),
                                    waiting_nodes(stack@) == children_count(panes@, i as int)
                                        + waiting_nodes(rest),
                                decreases i,
                            {
                                i -= 1;
                                let ghost below = stack@;
                                stack.push(&panes[i].pane);
                                assert(stack@.drop_last() == below);
                                assert(leaves(&panes@[i as int].pane) + (children_leaves(
                                    panes@,
                                    i + 1,
                                ) + waiting_leaves(rest)) == leaves(&panes@[i as int].pane)
                                    + children_leaves(panes@, i + 1) + waiting_leaves(rest));
                            }
                        },
                    }
                },
            }
        }
    }
}

} // verus!
