//! The walk over a layout tree that hands every node its rectangle.
use crate::layout::{
    children_count, children_leaves, constraints_of, inset, is_division, leaves, node_count,
    other_size, Borders, Pane as ConfigPane, SizedPaneOrSplit, SubPane,
};
use ratatui::layout::{Direction, Rect};
use vstd::prelude::*;

verus! {

/// What the walk finds at a node.
pub enum Visit<'a> {
    /// A leaf: the pane, the area inside its borders, the borders, and the whole
    /// area of the leaf.
    Pane { pane: &'a ConfigPane, area: Rect, borders: Borders, outer: Rect },
    /// A split: its borders and its whole area. Its children follow.
    Split { borders: Borders, outer: Rect },
}

/// The nodes that a walk has still to visit, each with its area; the next one
/// is the last of the sequence.
pub type Pending<'a> = Seq<(&'a SizedPaneOrSplit, Rect)>;

/// The number of nodes in the trees of `stack`.
pub open spec fn pending_nodes(stack: Pending<'_>) -> nat
    decreases stack.len(),
{
    if stack.len() == 0 {
        0
    } else {
        pending_nodes(stack.drop_last()) + node_count(stack.last().0)
    }
}

/// The children `panes` with their `areas`, the first child last, so that it is
/// the next to be visited. Where one of the two sequences is longer, what it
/// holds beyond the length of the other is left out.
pub open spec fn children_reversed<'a>(panes: Seq<SubPane>, areas: Seq<Rect>) -> Pending<'a> {
    let count = if panes.len() <= areas.len() {
        panes.len()
    } else {
        areas.len()
    };
    Seq::new(count, |i: int| (&panes[count - 1 - i].pane, areas[count - 1 - i]))
}

/// What the visit of `node` leaves to be visited besides what waited before: at
/// a split its children with the `areas` handed to them, at a leaf nothing.
pub open spec fn children_of<'a>(node: &'a SizedPaneOrSplit, areas: Seq<Rect>) -> Pending<'a> {
    match node {
        SizedPaneOrSplit::Pane(_) => Seq::empty(),
        SizedPaneOrSplit::Split { panes, .. } => children_reversed(panes@, areas),
    }
}

/// What a walk finds at `node` laid out in `area`: at a leaf the pane with the
/// area inside its borders, at a split its borders.
pub open spec fn visit_of<'a>(node: &'a SizedPaneOrSplit, area: Rect) -> Visit<'a> {
    match node {
        SizedPaneOrSplit::Pane(pane) => Visit::Pane {
            pane,
            area: inset(pane.borders, area),
            borders: pane.borders,
            outer: area,
        },
        SizedPaneOrSplit::Split { borders, .. } => Visit::Split { borders: *borders, outer: area },
    }
}

/// `next` is what may wait after the last node of `stack` has been visited. A
/// leaf leaves the rest. A split leaves the rest and, on top of it, its
/// children, each with its part of a division of the area inside the borders
/// of the split under the constraints of the children's shares, a ratio taken
/// of the extent of the whole area across the direction.
pub open spec fn follows<'a>(stack: Pending<'a>, next: Pending<'a>) -> bool {
    stack.len() > 0 && match stack.last().0 {
        SizedPaneOrSplit::Pane(_) => next == stack.drop_last(),
        SizedPaneOrSplit::Split { direction, borders, panes } => exists|areas: Seq<Rect>|
            is_division(
                *direction,
                inset(*borders, stack.last().1),
                constraints_of(panes@, other_size(*direction, stack.last().1)),
                areas,
            ) && next == stack.drop_last() + #[trigger] children_reversed(panes@, areas),
    }
}

/// A walk that has `stacks[0]` waiting at first may make the `visits`, in this
/// order, and have `stacks[i]` waiting before the visit `i` and the last of
/// `stacks` in the end.
pub open spec fn walks_through<'a>(stacks: Seq<Pending<'a>>, visits: Seq<Visit<'a>>) -> bool {
    &&& stacks.len() == visits.len() + 1
    &&& forall|i: int|
        0 <= i < visits.len() ==> {
            &&& (#[trigger] stacks[i]).len() > 0
            &&& visits[i] == visit_of(stacks[i].last().0, stacks[i].last().1)
            &&& follows(stacks[i], stacks[i + 1])
        }
}

/// `visits` is the beginning of a walk over `root` laid out in `area`, after
/// which `end` waits to be visited.
pub open spec fn walks_to<'a>(
    root: &'a SizedPaneOrSplit,
    area: Rect,
    visits: Seq<Visit<'a>>,
    end: Pending<'a>,
) -> bool {
    exists|stacks: Seq<Pending<'a>>| #[trigger]
        walks_through(stacks, visits) && stacks[0] == seq![(root, area)] && stacks.last() == end
}

/// `visits` is a whole walk over `root` laid out in `area`: nothing waits in the
/// end.
pub open spec fn is_walk<'a>(root: &'a SizedPaneOrSplit, area: Rect, visits: Seq<Visit<'a>>) -> bool {
    walks_to(root, area, visits, Seq::empty())
}

/// Putting children on the stack adds their nodes to what is pending.
pub proof fn lemma_children_pending<'a>(
    rest: Pending<'a>,
    panes: Seq<SubPane>,
    areas: Seq<Rect>,
    count: int,
)
    requires
        areas.len() == panes.len(),
        0 <= count <= panes.len(),
    ensures
        pending_nodes(rest + children_reversed::<'a>(panes, areas).take(count)) == pending_nodes(
            rest,
        ) + children_count(panes, panes.len() - count),
    decreases count,
{
    let children = children_reversed::<'a>(panes, areas);
    if count == 0 {
        assert(rest + children.take(0) == rest);
    } else {
        lemma_children_pending(rest, panes, areas, count - 1);
        let longer = rest + children.take(count);
        assert(longer.drop_last() == rest + children.take(count - 1));
        assert(longer.last() == children[count - 1]);
    }
}

/// Each visit takes one node off what is pending.
pub proof fn lemma_follows_pending<'a>(stack: Pending<'a>, next: Pending<'a>)
    requires
        follows(stack, next),
    ensures
        pending_nodes(next) + 1 == pending_nodes(stack),
{
    match stack.last().0 {
        SizedPaneOrSplit::Pane(_) => {},
        SizedPaneOrSplit::Split { direction, borders, panes } => {
            let areas = choose|areas: Seq<Rect>|
                is_division(
                    *direction,
                    inset(*borders, stack.last().1),
                    constraints_of(panes@, other_size(*direction, stack.last().1)),
                    areas,
                ) && next == stack.drop_last() + #[trigger] children_reversed(panes@, areas);
            lemma_children_pending(stack.drop_last(), panes@, areas, panes@.len() as int);
            assert(children_reversed::<'a>(panes@, areas).take(panes@.len() as int)
                == children_reversed::<'a>(panes@, areas));
        },
    }
}

/// A walk makes one visit for every node that it takes off what is pending.
pub proof fn lemma_walk_counts<'a>(stacks: Seq<Pending<'a>>, visits: Seq<Visit<'a>>)
    requires
        walks_through(stacks, visits),
    ensures
        pending_nodes(stacks[0]) == visits.len() + pending_nodes(stacks.last()),
    decreases visits.len(),
{
    if visits.len() > 0 {
        let shorter = visits.drop_last();
        let before = stacks.drop_last();
        assert(walks_through(before, shorter)) by {
            assert forall|i: int| 0 <= i < shorter.len() implies {
                &&& (#[trigger] before[i]).len() > 0
                &&& shorter[i] == visit_of(before[i].last().0, before[i].last().1)
                &&& follows(before[i], before[i + 1])
            } by {
                assert(before[i] == stacks[i]);
            }
        }
        lemma_walk_counts(before, shorter);
        let last = visits.len() - 1;
        assert(follows(stacks[last], stacks[last + 1]));
        lemma_follows_pending(stacks[last], stacks[last + 1]);
        assert(before.last() == stacks[last]);
    }
}

/// A whole walk visits every node of the tree exactly once: it makes as many
/// visits as the tree has nodes, each at the node that waited on top.
pub proof fn lemma_walk_visits_every_node<'a>(
    root: &'a SizedPaneOrSplit,
    area: Rect,
    visits: Seq<Visit<'a>>,
)
    requires
        is_walk(root, area, visits),
    ensures
        visits.len() == node_count(root),
{
    let stacks = choose|stacks: Seq<Pending<'a>>| #[trigger]
        walks_through(stacks, visits) && stacks[0] == seq![(root, area)] && stacks.last()
            == Seq::<(&'a SizedPaneOrSplit, Rect)>::empty();
    lemma_walk_counts(stacks, visits);
    let start = seq![(root, area)];
    assert(start.drop_last().len() == 0);
    assert(pending_nodes(start.drop_last()) == 0);
    assert(start.last() == (root, area));
}

/// The panes of the leaves among `visits`, in the order of the visits.
pub open spec fn visited_panes<'a>(visits: Seq<Visit<'a>>) -> Seq<&'a ConfigPane>
    decreases visits.len(),
{
    if visits.len() == 0 {
        Seq::empty()
    } else {
        visited_panes(visits.drop_last()) + (match visits.last() {
            Visit::Pane { pane, .. } => seq![pane],
            Visit::Split { .. } => Seq::empty(),
        })
    }
}

/// The leaves of the trees of `stack`, those of the last tree first.
pub open spec fn pending_leaves<'a>(stack: Pending<'a>) -> Seq<&'a ConfigPane>
    decreases stack.len(),
{
    if stack.len() == 0 {
        Seq::empty()
    } else {
        leaves(stack.last().0) + pending_leaves(stack.drop_last())
    }
}

/// Putting children on the stack puts their leaves in front of those that
/// wait, in the order of the children.
pub proof fn lemma_children_leaves<'a>(
    rest: Pending<'a>,
    panes: Seq<SubPane>,
    areas: Seq<Rect>,
    count: int,
)
    requires
        areas.len() == panes.len(),
        0 <= count <= panes.len(),
    ensures
        pending_leaves(rest + children_reversed::<'a>(panes, areas).take(count))
            == children_leaves::<'a>(panes, panes.len() - count) + pending_leaves(rest),
    decreases count,
{
    let children = children_reversed::<'a>(panes, areas);
    if count == 0 {
        assert(rest + children.take(0) == rest);
        assert(children_leaves::<'a>(panes, panes.len() as int) + pending_leaves(rest)
            == pending_leaves(rest));
    } else {
        lemma_children_leaves(rest, panes, areas, count - 1);
        let longer = rest + children.take(count);
        assert(longer.drop_last() == rest + children.take(count - 1));
        assert(longer.last() == children[count - 1]);
        let at = panes.len() - count;
        assert(leaves(&panes[at].pane) + (children_leaves::<'a>(panes, at + 1) + pending_leaves(
            rest,
        )) == leaves(&panes[at].pane) + children_leaves::<'a>(panes, at + 1) + pending_leaves(
            rest,
        ));
    }
}

/// The leaves that wait before a visit are the leaf that is visited, if it is
/// one, and the leaves that wait after it.
pub proof fn lemma_follows_leaves<'a>(stack: Pending<'a>, next: Pending<'a>)
    requires
        follows(stack, next),
    ensures
        pending_leaves(stack) == visited_panes(
            seq![visit_of(stack.last().0, stack.last().1)],
        ) + pending_leaves(next),
{
    let visit = visit_of(stack.last().0, stack.last().1);
    assert(seq![visit].drop_last() == Seq::<Visit<'a>>::empty());
    assert(visited_panes(seq![visit].drop_last()) == Seq::<&'a ConfigPane>::empty());
    match stack.last().0 {
        SizedPaneOrSplit::Pane(pane) => {
            assert(visited_panes(seq![visit]) == seq![pane]);
        },
        SizedPaneOrSplit::Split { direction, borders, panes } => {
            assert(visited_panes(seq![visit]) == Seq::<&'a ConfigPane>::empty());
            let areas = choose|areas: Seq<Rect>|
                is_division(
                    *direction,
                    inset(*borders, stack.last().1),
                    constraints_of(panes@, other_size(*direction, stack.last().1)),
                    areas,
                ) && next == stack.drop_last() + #[trigger] children_reversed(panes@, areas);
            lemma_children_leaves(stack.drop_last(), panes@, areas, panes@.len() as int);
            assert(children_reversed::<'a>(panes@, areas).take(panes@.len() as int)
                == children_reversed::<'a>(panes@, areas));
            assert(Seq::<&'a ConfigPane>::empty() + pending_leaves(next) == pending_leaves(next));
        },
    }
}

/// The leaves that a walk has visited and those that still wait are, in this
/// order, the leaves that waited at first.
pub proof fn lemma_walk_leaves<'a>(stacks: Seq<Pending<'a>>, visits: Seq<Visit<'a>>)
    requires
        walks_through(stacks, visits),
    ensures
        visited_panes(visits) + pending_leaves(stacks.last()) == pending_leaves(stacks[0]),
    decreases visits.len(),
{
    if visits.len() == 0 {
        assert(visited_panes(visits) + pending_leaves(stacks.last()) == pending_leaves(
            stacks.last(),
        ));
    } else {
        let shorter = visits.drop_last();
        let before = stacks.drop_last();
        assert(walks_through(before, shorter)) by {
            assert forall|i: int| 0 <= i < shorter.len() implies {
                &&& (#[trigger] before[i]).len() > 0
                &&& shorter[i] == visit_of(before[i].last().0, before[i].last().1)
                &&& follows(before[i], before[i + 1])
            } by {
                assert(before[i] == stacks[i]);
            }
        }
        lemma_walk_leaves(before, shorter);
        let last = visits.len() - 1;
        assert(follows(stacks[last], stacks[last + 1]));
        lemma_follows_leaves(stacks[last], stacks[last + 1]);
        assert(before.last() == stacks[last]);
        let one = seq![visits.last()];
        assert(one.drop_last() == Seq::<Visit<'a>>::empty());
        assert(visited_panes(one) == Seq::<&'a ConfigPane>::empty() + visited_panes(one));
        assert(visited_panes(visits) == visited_panes(shorter) + visited_panes(one)) by {
            assert(visited_panes(one.drop_last()) == Seq::<&'a ConfigPane>::empty());
        }
        assert(visited_panes(shorter) + (visited_panes(one) + pending_leaves(stacks.last()))
            == visited_panes(shorter) + visited_panes(one) + pending_leaves(stacks.last()));
    }
}

/// A whole walk visits the leaves of the tree in the order in which they are
/// declared: the leaves under a child come before those under the children
/// declared after it.
pub proof fn lemma_walk_visits_leaves_in_order<'a>(
    root: &'a SizedPaneOrSplit,
    area: Rect,
    visits: Seq<Visit<'a>>,
)
    requires
        is_walk(root, area, visits),
    ensures
        visited_panes(visits) == leaves(root),
{
    let stacks = choose|stacks: Seq<Pending<'a>>| #[trigger]
        walks_through(stacks, visits) && stacks[0] == seq![(root, area)] && stacks.last()
            == Seq::<(&'a SizedPaneOrSplit, Rect)>::empty();
    lemma_walk_leaves(stacks, visits);
    let start = seq![(root, area)];
    assert(start.drop_last().len() == 0);
    assert(pending_leaves(start.drop_last()) == Seq::<&'a ConfigPane>::empty());
    assert(start.last() == (root, area));
    assert(leaves(root) + Seq::<&'a ConfigPane>::empty() == leaves(root));
    assert(visited_panes(visits) + Seq::<&'a ConfigPane>::empty() == visited_panes(visits));
}

/// A walk over a layout tree in depth-first order, parents before children and
/// children in the order in which they are declared. It keeps the nodes it has
/// still to visit on a stack of its own, so that the depth of the tree costs no
/// call stack.
pub struct Walk<'a> {
    stack: Vec<(&'a SizedPaneOrSplit, Rect)>,
}

impl<'a> Walk<'a> {
    /// The nodes still to visit.
    pub closed spec fn stack(&self) -> Pending<'a> {
        self.stack@
    }

    /// The number of nodes still to visit, those below the waiting nodes
    /// included.
    pub open spec fn pending(&self) -> nat {
        pending_nodes(self.stack())
    }

    /// A walk over `root` laid out in `area`.
    pub fn new(root: &'a SizedPaneOrSplit, area: Rect) -> (r: Walk<'a>)
        ensures
            r.stack() == seq![(root, area)],
            r.pending() == node_count(root),
    {
        let mut stack: Vec<(&'a SizedPaneOrSplit, Rect)> = Vec::new();
        stack.push((root, area));
        assert(stack@.drop_last().len() == 0);
        assert(pending_nodes(stack@.drop_last()) == 0);
        assert(stack@.last() == (root, area));
        assert(pending_nodes(stack@) == node_count(root));
        Walk { stack }
    }

    /// Visits `node` laid out in `area`: returns what is found there and, at a
    /// split, puts its children on top of what waits, each with its part of
    /// `areas`, the first child on top. `areas` are the parts into which the area
    /// inside the borders of the split has been divided, one for each child in
    /// the order of the children.
    pub fn enter(&mut self, node: &'a SizedPaneOrSplit, area: Rect, areas: &Vec<Rect>) -> (r: Visit<
        'a,
    >)
        ensures
            r == visit_of(node, area),
            final(self).stack() == old(self).stack() + children_of(node, areas@),
    {
        let ghost rest = self.stack@;
        match node {
            SizedPaneOrSplit::Pane(pane) => {
                let inner = crate::layout::block_inner(pane.borders, area);
                assert(rest + Seq::<(&'a SizedPaneOrSplit, Rect)>::empty() == rest);
                Visit::Pane { pane, area: inner, borders: pane.borders, outer: area }
            },
            SizedPaneOrSplit::Split { borders, panes, .. } => {
                let count: usize = if panes.len() <= areas.len() {
                    panes.len()
                } else {
                    areas.len()
                };
                let mut i: usize = count;
                assert(self.stack@ == rest + children_reversed(panes@, areas@).take(0));
                while i > 0
                    invariant
                        i <= count,
                        count <= panes.len(),
                        count <= areas.len(),
                        count == panes.len() || count == areas.len(),
                        self.stack@ == rest + children_reversed(panes@, areas@).take(count - i),
                    decreases i,
                {
                    i -= 1;
                    self.stack.push((&panes[i].pane, areas[i]));
                    assert(children_reversed(panes@, areas@).take(count - i) == children_reversed(
                        panes@,
                        areas@,
                    ).take(count - i - 1).push((&panes@[i as int].pane, areas@[i as int])));
                }
                assert(children_reversed(panes@, areas@).take(count as int) == children_reversed(
                    panes@,
                    areas@,
                ));
                Visit::Split { borders: *borders, outer: area }
            },
        }
    }

    /// Visits the next node, `None` when every node has been visited. A leaf is
    /// handed the area inside its borders. A split has the area inside its
    /// borders divided among its children by the constraints of their shares,
    /// a ratio taken of the extent of the whole area across the direction; the
    /// children are visited next, the first child first.
    pub fn next(&mut self) -> (r: Option<Visit<'a>>)
        ensures
            old(self).stack().len() == 0 ==> r is None && final(self).stack() == old(self).stack(),
            old(self).stack().len() > 0 ==> r == Some(
                visit_of(old(self).stack().last().0, old(self).stack().last().1),
            ) && follows(old(self).stack(), final(self).stack()),
            r is Some ==> final(self).pending() + 1 == old(self).pending(),
            r is None ==> old(self).pending() == 0,
    {
        match self.stack.pop() {
            None => None,
            Some((node, area)) => {
                assert(old(self).stack@.drop_last() == self.stack@);
                let areas: Vec<Rect> = match node {
                    SizedPaneOrSplit::Pane(_) => Vec::new(),
                    SizedPaneOrSplit::Split { direction, borders, panes } => {
                        let parent_other_size: u16 = match direction {
                            Direction::Horizontal => area.height,
                            Direction::Vertical => area.width,
                        };
                        let constraints = crate::layout::constraints(panes, parent_other_size);
                        let inner = crate::layout::block_inner(*borders, area);
                        crate::layout::layout_split(*direction, &constraints, inner)
                    },
                };
                let visit = self.enter(node, area, &areas);
                proof {
                    assert(follows(old(self).stack@, self.stack@));
                    lemma_follows_pending(old(self).stack@, self.stack@);
                }
                Some(visit)
            },
        }
    }
}

/// What the call of the visit at position `i` of `count` visits answered, where
/// the last call answered `last`: success, but for the last call.
pub open spec fn answer_at<E>(i: int, count: int, last: Result<(), E>) -> Result<(), E> {
    if i == count - 1 {
        last
    } else {
        Ok(())
    }
}

/// There is one state of the data before each of the `visits` and one after the
/// last.
pub open spec fn threads<T>(visits: Seq<Visit<'_>>, states: Seq<T>) -> bool {
    states.len() == visits.len() + 1
}

/// The callback for panes may answer a visit with `out`. The visit of a split
/// calls nothing and is answered with success.
pub open spec fn pane_answers<E, P>(pane_callback: P, visit: Visit<'_>, out: Result<(), E>) -> bool where
    P: FnMut(&ConfigPane, Rect, Borders, Rect) -> Result<(), E>,
 {
    match visit {
        Visit::Pane { pane, area, borders, outer } => call_ensures(
            pane_callback,
            (pane, area, borders, outer),
            out,
        ),
        Visit::Split { .. } => out is Ok,
    }
}

/// The walk goes on by the visit of the node on top of `before`.
proof fn lemma_one_more_visit<'a>(
    stacks: Seq<Pending<'a>>,
    done: Seq<Visit<'a>>,
    before: Pending<'a>,
    after: Pending<'a>,
)
    requires
        walks_through(stacks, done),
        stacks.last() == before,
        follows(before, after),
    ensures
        walks_through(
            stacks.push(after),
            done.push(visit_of(before.last().0, before.last().1)),
        ),
{
    let longer = stacks.push(after);
    let visits = done.push(visit_of(before.last().0, before.last().1));
    assert forall|i: int| 0 <= i < visits.len() implies {
        &&& (#[trigger] longer[i]).len() > 0
        &&& visits[i] == visit_of(longer[i].last().0, longer[i].last().1)
        &&& follows(longer[i], longer[i + 1])
    } by {
        if i < done.len() {
            assert(longer[i] == stacks[i]);
            assert(longer[i + 1] == stacks[i + 1]);
        }
    }
}

impl SizedPaneOrSplit {
    /// Walks the tree laid out in `area` with `custom_data` in hand. Calls
    /// `split_callback` for every split, with its borders and its whole area, and
    /// `pane_callback` for every leaf, with the pane, the area inside its borders,
    /// the borders and the whole area; both may change `custom_data`, which each
    /// call receives as the call before left it. Nodes come in the order of
    /// [`Walk`]. The first error that a callback returns ends the walk and is
    /// returned.
    ///
    /// The walk succeeds where the callbacks cannot fail. Whatever it returns,
    /// it made the beginning of a walk over the tree, the whole walk where it
    /// succeeds. Each visit called its callback once, on the data as the visit
    /// before left it, the first on `custom_data`. Every call but the last
    /// answered with success, and what the last call answered is returned.
    #[verifier::rlimit(60)]
    pub fn for_each_pane_custom_data<T, E, P, S>(
        &self,
        area: Rect,
        custom_data: T,
        pane_callback: &mut P,
        split_callback: &mut S,
    ) -> (r: Result<(), E>) where
        P: FnMut(&ConfigPane, Rect, Borders, Rect, &mut T) -> Result<(), E>,
        S: FnMut(Borders, Rect, &mut T) -> Result<(), E>,

        requires
            forall|pane: &ConfigPane, inner: Rect, borders: Borders, outer: Rect, data: &mut T|
                call_requires(*old(pane_callback), (pane, inner, borders, outer, data)),
            forall|borders: Borders, outer: Rect, data: &mut T|
                call_requires(*old(split_callback), (borders, outer, data)),
        ensures
            (forall|
                pane: &ConfigPane,
                inner: Rect,
                borders: Borders,
                outer: Rect,
                data: &mut T,
                out: Result<(), E>,
            |
                call_ensures(*old(pane_callback), (pane, inner, borders, outer, data), out)
                    ==> out is Ok) && (forall|
                borders: Borders,
                outer: Rect,
                data: &mut T,
                out: Result<(), E>,
            |
                call_ensures(*old(split_callback), (borders, outer, data), out) ==> out is Ok)
                ==> r is Ok,
            exists|visits: Seq<Visit<'_>>, states: Seq<T>, end: Pending<'_>|
                #![trigger walks_to(self, area, visits, end), threads(visits, states)]
                {
                    &&& walks_to(self, area, visits, end)
                    &&& r is Ok ==> end.len() == 0
                    &&& r is Err ==> visits.len() > 0
                    &&& threads(visits, states)
                    &&& states[0] == custom_data
                    &&& forall|i: int|
                        0 <= i < visits.len() ==> match #[trigger] visits[i] {
                            Visit::Pane { pane, area: inner, borders, outer } => exists|
                                data: &mut T,
                            |
                                *data == states[i] && *final(data) == states[i + 1]
                                    && #[trigger] call_ensures(
                                    *old(pane_callback),
                                    (pane, inner, borders, outer, data),
                                    answer_at(i, visits.len() as int, r),
                                ),
                            Visit::Split { borders, outer } => exists|data: &mut T|
                                *data == states[i] && *final(data) == states[i + 1]
                                    && #[trigger] call_ensures(
                                    *old(split_callback),
                                    (borders, outer, data),
                                    answer_at(i, visits.len() as int, r),
                                ),
                        }
                },
    {
        let ghost given = custom_data;
        let mut data_in_hand = custom_data;
        let mut walk = Walk::new(self, area);
        let ghost mut stacks: Seq<Pending<'_>> = seq![walk.stack()];
        let ghost mut done: Seq<Visit<'_>> = Seq::empty();
        let ghost mut states: Seq<T> = seq![given];
        loop
            invariant
                *pane_callback == *old(pane_callback),
                *split_callback == *old(split_callback),
                forall|pane: &ConfigPane, inner: Rect, borders: Borders, outer: Rect, data: &mut T|
                    call_requires(*pane_callback, (pane, inner, borders, outer, data)),
                forall|borders: Borders, outer: Rect, data: &mut T|
                    call_requires(*split_callback, (borders, outer, data)),
                walks_through(stacks, done),
                stacks[0] == seq![(self, area)],
                stacks.last() == walk.stack(),
                threads(done, states),
                given == custom_data,
                states[0] == given,
                states.last() == data_in_hand,
                forall|i: int|
                    0 <= i < done.len() ==> match #[trigger] done[i] {
                        Visit::Pane { pane, area: inner, borders, outer } => exists|data: &mut T|
                            *data == states[i] && *final(data) == states[i + 1]
                                && #[trigger] call_ensures(
                                *pane_callback,
                                (pane, inner, borders, outer, data),
                                Ok::<(), E>(()),
                            ),
                        Visit::Split { borders, outer } => exists|data: &mut T|
                            *data == states[i] && *final(data) == states[i + 1]
                                && #[trigger] call_ensures(
                                *split_callback,
                                (borders, outer, data),
                                Ok::<(), E>(()),
                            ),
                    },
            decreases walk.pending(),
        {
            let ghost before = walk.stack();
            let ghost handed = data_in_hand;
            let visit = walk.next();
            proof {
                if before.len() > 0 {
                    lemma_one_more_visit(stacks, done, before, walk.stack());
                }
            }
            let ghost longer = stacks.push(walk.stack());
            let out: Result<(), E> = match visit {
                None => {
                    proof {
                        assert(walk.stack() == Seq::<(&SizedPaneOrSplit, Rect)>::empty());
                        assert(walks_through(stacks, done) && stacks[0] == seq![(self, area)]
                            && stacks.last() == Seq::<(&SizedPaneOrSplit, Rect)>::empty());
                        assert(walks_to(self, area, done, walk.stack()));
                        assert(threads(done, states));
                        assert forall|i: int| 0 <= i < done.len() implies match #[trigger] done[i] {
                            Visit::Pane { pane, area: inner, borders, outer } => exists|data: &mut T|
                                *data == states[i] && *final(data) == states[i + 1] && #[trigger] call_ensures(
                                    *pane_callback,
                                    (pane, inner, borders, outer, data),
                                    answer_at(i, done.len() as int, Ok::<(), E>(())),
                                ),
                            Visit::Split { borders, outer } => exists|data: &mut T|
                                *data == states[i] && *final(data) == states[i + 1] && #[trigger] call_ensures(
                                    *split_callback,
                                    (borders, outer, data),
                                    answer_at(i, done.len() as int, Ok::<(), E>(())),
                                ),
                        } by {
                            assert(answer_at(i, done.len() as int, Ok::<(), E>(())) == Ok::<(), E>(
                                (),
                            ));
                        }
                    }
                    return Ok(());
                },
                Some(Visit::Pane { pane, area: inner, borders, outer }) => pane_callback(
                    pane,
                    inner,
                    borders,
                    outer,
                    &mut data_in_hand,
                ),
                Some(Visit::Split { borders, outer }) => split_callback(
                    borders,
                    outer,
                    &mut data_in_hand,
                ),
            };
            let ghost seen = done.push(visit->Some_0);
            let ghost answer = out;
            let ghost left = states.push(data_in_hand);
            assert(walks_through(longer, seen));
            assert(threads(seen, left));
            assert(match visit->Some_0 {
                Visit::Pane { pane, area: inner, borders, outer } => exists|data: &mut T|
                    *data == handed && *final(data) == data_in_hand && #[trigger] call_ensures(
                        *pane_callback,
                        (pane, inner, borders, outer, data),
                        answer,
                    ),
                Visit::Split { borders, outer } => exists|data: &mut T|
                    *data == handed && *final(data) == data_in_hand && #[trigger] call_ensures(
                        *split_callback,
                        (borders, outer, data),
                        answer,
                    ),
            });
            match out {
                Ok(()) => {
                    proof {
                        assert(answer is Ok && answer->Ok_0 == ());
                        assert forall|i: int| 0 <= i < seen.len() implies match #[trigger] seen[i] {
                            Visit::Pane { pane, area: inner, borders, outer } => exists|data: &mut T|
                                *data == left[i] && *final(data) == left[i + 1] && #[trigger] call_ensures(
                                    *pane_callback,
                                    (pane, inner, borders, outer, data),
                                    Ok::<(), E>(()),
                                ),
                            Visit::Split { borders, outer } => exists|data: &mut T|
                                *data == left[i] && *final(data) == left[i + 1] && #[trigger] call_ensures(
                                    *split_callback,
                                    (borders, outer, data),
                                    Ok::<(), E>(()),
                                ),
                        } by {
                            if i < done.len() {
                                assert(seen[i] == done[i]);
                                assert(left[i] == states[i]);
                                assert(left[i + 1] == states[i + 1]);
                            } else {
                                assert(seen[i] == visit->Some_0);
                                assert(left[i] == handed);
                                assert(left[i + 1] == data_in_hand);
                            }
                        }
                        stacks = longer;
                        done = seen;
                        states = left;
                    }
                },
                Err(e) => {
                    proof {
                        assert(walks_through(longer, seen) && longer[0] == seq![(self, area)]
                            && longer.last() == walk.stack());
                        assert(walks_to(self, area, seen, walk.stack()));
                        assert(left[0] == given);
                        assert(answer == Err::<(), E>(e));
                        assert forall|i: int| 0 <= i < seen.len() implies match #[trigger] seen[i] {
                            Visit::Pane { pane, area: inner, borders, outer } => exists|data: &mut T|
                                *data == left[i] && *final(data) == left[i + 1] && #[trigger] call_ensures(
                                    *pane_callback,
                                    (pane, inner, borders, outer, data),
                                    answer_at(i, seen.len() as int, answer),
                                ),
                            Visit::Split { borders, outer } => exists|data: &mut T|
                                *data == left[i] && *final(data) == left[i + 1] && #[trigger] call_ensures(
                                    *split_callback,
                                    (borders, outer, data),
                                    answer_at(i, seen.len() as int, answer),
                                ),
                        } by {
                            if i < done.len() {
                                assert(seen[i] == done[i]);
                                assert(left[i] == states[i]);
                                assert(left[i + 1] == states[i + 1]);
                                assert(answer_at(i, seen.len() as int, answer) == Ok::<(), E>(()));
                            } else {
                                assert(seen[i] == visit->Some_0);
                                assert(left[i] == handed);
                                assert(left[i + 1] == data_in_hand);
                                assert(answer_at(i, seen.len() as int, answer) == answer);
                            }
                        }
                    }
                    return Err(e);
                },
            }
        }
    }

    /// Walks the tree laid out in `area` and calls `pane_callback` for every leaf,
    /// with the pane, the area inside its borders, the borders and the whole
    /// area. Nodes come in the order of [`Walk`]. The first error that the
    /// callback returns ends the walk and is returned.
    ///
    /// The walk succeeds where the callback cannot fail. Where it succeeds, it was
    /// a whole walk over the tree and the callback answered the visit of every
    /// leaf with success. Where it fails, the last visit was that of a leaf, which
    /// the callback answered with the error that is returned, and every leaf
    /// before it with success.
    pub fn for_each_pane<E, P>(&self, area: Rect, pane_callback: &mut P) -> (r: Result<(), E>) where
        P: FnMut(&ConfigPane, Rect, Borders, Rect) -> Result<(), E>,

        requires
            forall|pane: &ConfigPane, inner: Rect, borders: Borders, outer: Rect|
                call_requires(*old(pane_callback), (pane, inner, borders, outer)),
        ensures
            (forall|pane: &ConfigPane, inner: Rect, borders: Borders, outer: Rect, out: Result<(), E>|
                call_ensures(*old(pane_callback), (pane, inner, borders, outer), out)
                    ==> out is Ok) ==> r is Ok,
            r is Ok ==> exists|visits: Seq<Visit<'_>>|
                #![trigger is_walk(self, area, visits)]
                is_walk(self, area, visits) && forall|i: int|
                    0 <= i < visits.len() ==> pane_answers(
                        *old(pane_callback),
                        #[trigger] visits[i],
                        Ok::<(), E>(()),
                    ),
            r matches Err(e) ==> exists|visits: Seq<Visit<'_>>, end: Pending<'_>|
                #![trigger walks_to(self, area, visits, end)]
                {
                    &&& visits.len() > 0
                    &&& walks_to(self, area, visits, end)
                    &&& forall|i: int|
                        0 <= i < visits.len() - 1 ==> pane_answers(
                            *old(pane_callback),
                            #[trigger] visits[i],
                            Ok::<(), E>(()),
                        )
                    &&& pane_answers(*old(pane_callback), visits.last(), Err::<(), E>(e))
                },
    {
        let mut walk = Walk::new(self, area);
        let ghost mut stacks: Seq<Pending<'_>> = seq![walk.stack()];
        let ghost mut done: Seq<Visit<'_>> = Seq::empty();
        loop
            invariant
                *pane_callback == *old(pane_callback),
                forall|pane: &ConfigPane, inner: Rect, borders: Borders, outer: Rect|
                    call_requires(*pane_callback, (pane, inner, borders, outer)),
                walks_through(stacks, done),
                stacks[0] == seq![(self, area)],
                stacks.last() == walk.stack(),
                forall|i: int|
                    0 <= i < done.len() ==> pane_answers(
                        *pane_callback,
                        #[trigger] done[i],
                        Ok::<(), E>(()),
                    ),
            decreases walk.pending(),
        {
            let ghost before = walk.stack();
            let visit = walk.next();
            proof {
                if before.len() > 0 {
                    lemma_one_more_visit(stacks, done, before, walk.stack());
                }
            }
            let ghost longer = stacks.push(walk.stack());
            let out: Result<(), E> = match visit {
                None => {
                    assert(walk.stack() == Seq::<(&SizedPaneOrSplit, Rect)>::empty());
                    assert(walks_through(stacks, done) && stacks[0] == seq![(self, area)]
                        && stacks.last() == Seq::<(&SizedPaneOrSplit, Rect)>::empty());
                    assert(is_walk(self, area, done));
                    return Ok(());
                },
                Some(Visit::Pane { pane, area: inner, borders, outer }) => pane_callback(
                    pane,
                    inner,
                    borders,
                    outer,
                ),
                Some(Visit::Split { .. }) => Ok(()),
            };
            let ghost seen = done.push(visit->Some_0);
            let ghost answer = out;
            assert(pane_answers(*pane_callback, visit->Some_0, out));
            assert(walks_through(longer, seen));
            match out {
                Ok(()) => {
                    proof {
                        assert forall|i: int| 0 <= i < seen.len() implies pane_answers(
                            *pane_callback,
                            #[trigger] seen[i],
                            Ok::<(), E>(()),
                        ) by {
                            if i < done.len() {
                                assert(seen[i] == done[i]);
                            } else {
                                assert(seen[i] == visit->Some_0);
                                assert(answer is Ok && answer->Ok_0 == ());
                            }
                        }
                        stacks = longer;
                        done = seen;
                    }
                },
                Err(e) => {
                    assert(walks_through(longer, seen) && longer[0] == seq![(self, area)]
                        && longer.last() == walk.stack());
                    assert(walks_to(self, area, seen, walk.stack()));
                    assert(forall|i: int|
                        0 <= i < seen.len() - 1 ==> #[trigger] seen[i] == done[i]);
                    return Err(e);
                },
            }
        }
    }
}

} // verus!
