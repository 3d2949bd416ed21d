//! What a snapshot is for: everything there is, as it is, each at its place.
use vstd::prelude::*;

use crate::idmap::{group_views, lemma_ids_are_listed, sorted_ids};
use crate::model::group_seq_views;
use crate::place::lemma_entry_of;
use crate::plane::{pane_ids, PlaneView};
use crate::response::{layout_snapshot_of, LayoutSnapshot};
use crate::state::group_pane_states;
use crate::topology::PaneLayout;
use crate::wire::AxisWire;

verus! {

broadcast use {group_views, group_seq_views, group_pane_states};

/// The panes of a tree on the wire, first before second.
pub open spec fn wire_leaves(layout: LayoutSnapshot) -> Seq<u64>
    decreases layout,
{
    match layout {
        LayoutSnapshot::Leaf { pane_id } => seq![pane_id],
        LayoutSnapshot::Split { first, second, .. } => wire_leaves(*first) + wire_leaves(*second),
    }
}

/// The cuts of a tree on the wire, an outer one before those inside it, and those of the
/// first part before those of the second.
pub open spec fn wire_cuts(layout: LayoutSnapshot) -> Seq<(AxisWire, u64)>
    decreases layout,
{
    match layout {
        LayoutSnapshot::Leaf { .. } => Seq::empty(),
        LayoutSnapshot::Split { axis, ratio_bits, first, second } => seq![(axis, ratio_bits)]
            + wire_cuts(*first) + wire_cuts(*second),
    }
}

/// The cuts of a tree, in the same order.
pub open spec fn cuts(layout: PaneLayout) -> Seq<(AxisWire, u64)>
    decreases layout,
{
    match layout {
        PaneLayout::Leaf { .. } => Seq::empty(),
        PaneLayout::Split { axis, ratio_bits, first, second } => seq![(axis, ratio_bits)] + cuts(
            *first,
        ) + cuts(*second),
    }
}

/// A tree on the wire is cut where the tree is cut: part by part, the same panes in the
/// same order, the same axis and the same ratio.
pub proof fn a_tree_on_the_wire_is_the_tree(layout: PaneLayout)
    ensures
        wire_leaves(layout_snapshot_of(layout)) == layout.leaves(),
        wire_cuts(layout_snapshot_of(layout)) == cuts(layout),
        layout is Leaf <==> layout_snapshot_of(layout) is Leaf,
        layout matches PaneLayout::Split { axis, ratio_bits, first, second } ==> (
        layout_snapshot_of(layout) matches LayoutSnapshot::Split {
            axis: a,
            ratio_bits: r,
            first: f,
            second: s,
        } && a == axis && r == ratio_bits && wire_leaves(*f) == first.leaves() && wire_leaves(*s)
            == second.leaves()),
    decreases layout,
{
    if let PaneLayout::Split { first, second, .. } = layout {
        a_tree_on_the_wire_is_the_tree(*first);
        a_tree_on_the_wire_is_the_tree(*second);
    }
}

/// The panes of a split are those of its first part, then those of its second.
pub proof fn the_first_part_comes_first(
    axis: AxisWire,
    ratio_bits: u64,
    first: PaneLayout,
    second: PaneLayout,
    pane: u64,
)
    ensures
        (PaneLayout::Leaf { pane_id: pane }).leaves() == seq![pane],
        (PaneLayout::Split {
            axis,
            ratio_bits,
            first: Box::new(first),
            second: Box::new(second),
        }).leaves() == first.leaves() + second.leaves(),
{
}

/// The snapshot lists every session once, by ascending id, under its own id, and says how
/// far the history is.
pub proof fn a_snapshot_lists_every_session(plane: PlaneView, pids: Map<u64, u32>, now: u64)
    requires
        plane.wf(),
    ensures
        plane.snapshot(pids, now).sequence == plane.ring.sequence,
        forall|i: int, j: int|
            0 <= i < j < plane.snapshot(pids, now).sessions.len() ==> (#[trigger] plane.snapshot(
                pids,
                now,
            ).sessions[i]).id < (#[trigger] plane.snapshot(pids, now).sessions[j]).id,
        forall|s: u64| #[trigger]
            plane.domain.sessions.contains_key(s) <==> exists|i: int|
                0 <= i < plane.snapshot(pids, now).sessions.len() && (#[trigger] plane.snapshot(
                    pids,
                    now,
                ).sessions[i]).id == s,
        forall|i: int|
            0 <= i < plane.snapshot(pids, now).sessions.len() ==> {
                let shown = #[trigger] plane.snapshot(pids, now).sessions[i];
                let session = plane.domain.sessions[shown.id];
                &&& shown.name == session.name
                &&& shown.agent_id == session.agent_id
                &&& shown.space_id == session.space_id
                &&& shown.windows.len() == session.windows.len()
                &&& forall|j: int|
                    0 <= j < shown.windows.len() ==> (#[trigger] shown.windows[j]).id
                        == session.windows[j]
            },
{
    let ids = sorted_ids(plane.domain.sessions.dom());
    lemma_ids_are_listed(plane.domain.sessions.dom());
    let all = plane.snapshot(pids, now).sessions;
    assert forall|i: int, j: int| 0 <= i < j < all.len() implies (#[trigger] all[i]).id < (
    #[trigger] all[j]).id by {
        assert(ids[i] < ids[j]);
    }
    assert forall|s: u64| #[trigger]
        plane.domain.sessions.contains_key(s) <==> exists|i: int|
            0 <= i < all.len() && (#[trigger] all[i]).id == s by {
        if plane.domain.sessions.dom().contains(s) {
            let i = choose|i: int| 0 <= i < ids.len() && ids[i] == s;
            assert(all[i].id == s);
        }
        if exists|i: int| 0 <= i < all.len() && (#[trigger] all[i]).id == s {
            let i = choose|i: int| 0 <= i < all.len() && (#[trigger] all[i]).id == s;
            assert(ids.contains(ids[i]));
            assert(plane.domain.sessions.dom().contains(ids[i]));
        }
    }
}

/// A window is shown with its own title, bounds and tree, and its panes in the order of
/// that tree.
pub proof fn a_window_is_shown_as_it_is(
    plane: PlaneView,
    window: u64,
    pids: Map<u64, u32>,
    now: u64,
)
    requires
        plane.wf(),
        plane.domain.windows.contains_key(window),
    ensures
        ({
            let shown = plane.window_snapshot(window, pids, now);
            &&& shown.id == window
            &&& shown.title == plane.domain.windows[window].title
            &&& shown.sync_input == plane.domain.windows[window].sync_input
            &&& shown.bounds == plane.frames[window].bounds
            &&& shown.bounds.window_id == window
            &&& wire_cuts(shown.layout) == cuts(plane.domain.windows[window].layout)
            &&& shown.panes.len() == wire_leaves(shown.layout).len()
            &&& forall|i: int|
                0 <= i < shown.panes.len() ==> (#[trigger] shown.panes[i]).id == wire_leaves(
                    shown.layout,
                )[i]
            &&& wire_leaves(shown.layout) == plane.domain.windows[window].layout.leaves()
        }),
{
    a_tree_on_the_wire_is_the_tree(plane.domain.windows[window].layout);
    assert(plane.frames.contains_key(window));
}

/// A pane is shown with its own record, its holder, its place in the frame of its window
/// and, while it runs, its process.
pub proof fn a_pane_is_shown_as_it_is(plane: PlaneView, pane: u64, pids: Map<u64, u32>, now: u64)
    requires
        plane.wf(),
        plane.domain.panes.contains_key(pane),
    ensures
        ({
            let window = plane.domain.panes[pane].window;
            let shown = plane.pane_snapshot(window, pane, pids, now);
            &&& shown.id == pane
            &&& shown.title == plane.domain.panes[pane].title
            &&& shown.title_pinned == plane.domain.panes[pane].title_pinned
            &&& shown.controller_id == plane.domain.panes[pane].controller
            &&& shown.geometry.pane_id == pane
            &&& plane.frames[window].geometry.contains(shown.geometry)
            &&& shown.spawn == plane.panes[pane].spawn
            &&& shown.mail == plane.panes[pane].mail
            &&& shown.status == plane.panes[pane].status
            &&& shown.attention == plane.panes[pane].attention
            &&& shown.mail_inject == plane.panes[pane].inject_last
            &&& shown.pane_write == plane.panes[pane].receipt
            &&& plane.live && pids.contains_key(pane) ==> shown.child_pid == Some(pids[pane])
            &&& !(plane.live && pids.contains_key(pane)) ==> shown.child_pid is None
            &&& shown.ledger.controller_id == shown.controller_id
            &&& shown.ledger.last_output_at_ms == plane.panes[pane].output_at
            &&& shown.ledger.last_input_at_ms == plane.panes[pane].input_at
            &&& shown.ledger.last_controller_write_at_ms == match plane.panes[pane].written {
                Some(w) => Some(w.0),
                None => None,
            }
            &&& shown.ledger.last_write_ended_with_cr == match plane.panes[pane].written {
                Some(w) => w.1,
                None => false,
            }
            &&& shown.ledger.focused <==> exists|c: u64|
                #![trigger plane.clients.contains_key(c)]
                plane.clients.contains_key(c) && plane.clients[c].focus == Some(pane)
            &&& shown.ledger.dirty_input <==> crate::laws::ringing::half_a_line(plane, pane, now)
            &&& shown.size_owner is Some <==> plane.latest.contains_key(window)
            &&& shown.size_owner matches Some(owner) ==> owner.client_id == plane.latest[window]
        }),
{
    let window = plane.domain.panes[pane].window;
    assert(plane.domain.windows[window].layout.leaves().contains(pane));
    assert(plane.frames.dom().contains(window));
    assert(plane.frames.contains_key(window));
    assert(pane_ids(plane.frames[window].geometry).contains(pane));
    lemma_entry_of(plane.frames[window].geometry, pane);
}

} // verus!
