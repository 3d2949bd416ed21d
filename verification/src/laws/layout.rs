//! What splitting, closing and arranging panes is for.
use vstd::prelude::*;

use crate::event::EventView;
use crate::idmap::group_views;
use crate::laws::relations::{lemma_published_is_told, same_clients, shows, tells};
use crate::model::{group_seq_views, lemma_last_contained};
use crate::panes::Placed;
use crate::place::{lemma_entry_of, rect_ids, wire_rects};
use crate::plane::{pane_ids, PlaneView};
use crate::response::{DataView, MutationAck};
use crate::state::{group_pane_states, AskView, EffectView};
use crate::step::StepView;
use crate::topology::{lemma_without_id, relists, PaneLayout};
use crate::wire::{ArrangementWire, AxisWire, SpawnView};

verus! {

broadcast use {group_views, group_seq_views, group_pane_states, lemma_published_is_told};

/// A window other than `window` is as it was, with its frame.
pub open spec fn other_windows_stay(before: PlaneView, after: PlaneView, window: u64) -> bool {
    forall|w: u64|
        #![trigger after.domain.windows.contains_key(w)]
        #![trigger after.frames.contains_key(w)]
        w != window ==> {
            &&& after.domain.windows.contains_key(w) <==> before.domain.windows.contains_key(w)
            &&& after.frames.contains_key(w) <==> before.frames.contains_key(w)
            &&& before.domain.windows.contains_key(w) ==> after.domain.windows[w]
                == before.domain.windows[w] && after.frames[w] == before.frames[w]
        }
}

/// A pane other than `pane` is as it was, with its record.
pub open spec fn other_panes_stay(before: PlaneView, after: PlaneView, pane: u64) -> bool {
    &&& forall|p: u64|
        #![trigger after.domain.panes.contains_key(p)]
        p != pane ==> {
            &&& after.domain.panes.contains_key(p) <==> before.domain.panes.contains_key(p)
            &&& before.domain.panes.contains_key(p) ==> after.domain.panes[p]
                == before.domain.panes[p]
        }
    &&& forall|p: u64| p != pane ==> #[trigger] after.panes[p] == before.panes[p]
}

/// A client may act on a pane: there is none, or it is known and holds the lease.
pub open spec fn may_act(plane: PlaneView, client: Option<u64>, pane: u64) -> bool {
    client matches Some(c) ==> plane.clients.contains_key(c) && plane.domain.panes.contains_key(
        pane,
    ) && plane.domain.panes[pane].controller == Some(c)
}

/// A step that refuses.
pub open spec fn refuses(step: StepView) -> bool {
    step matches StepView::Reply(Err(_))
}

/// A step that accepts a change and says how far the history is.
pub open spec fn acknowledges(after: PlaneView, step: StepView) -> bool {
    step == StepView::Reply(
        Ok(DataView::Mutation { ack: MutationAck { sequence: after.ring.sequence as u64 } }),
    )
}

/// A window keeps everything but its tree.
pub open spec fn retreed(before: PlaneView, after: PlaneView, window: u64, layout: PaneLayout) -> bool {
    &&& after.domain.windows.contains_key(window)
    &&& after.domain.windows[window].layout == layout
    &&& after.domain.windows[window].title == before.domain.windows[window].title
    &&& after.domain.windows[window].session == before.domain.windows[window].session
    &&& after.domain.windows[window].sync_input == before.domain.windows[window].sync_input
    &&& after.frames[window].bounds == before.frames[window].bounds
}

/// A split asks for exactly the cut that was requested, starts the new pane with what was
/// requested, and then adds that one pane to the window and tells of it.
pub proof fn a_split_adds_the_requested_pane(
    plane: PlaneView,
    window: u64,
    target: u64,
    axis: AxisWire,
    ratio_bits: u64,
    spawn: SpawnView,
    client: Option<u64>,
    answer: Placed,
    lived: Option<Result<(), Seq<char>>>,
)
    requires
        plane.wf(),
    ensures
        ({
            let (after, step) = plane.split(
                window,
                target,
                axis,
                ratio_bits,
                spawn,
                client,
                answer,
                lived,
            );
            let open = plane.ring.sequence < u64::MAX && spawn.fault() is None && window != 0
                && target != 0 && plane.domain.windows.contains_key(window)
                && plane.domain.next_pane < u64::MAX && may_act(plane, client, target);
            &&& !open ==> after == plane && refuses(step)
            &&& open && answer is None ==> after == plane && step == StepView::Wait(
                AskView::Split {
                    layout: plane.domain.windows[window].layout,
                    target,
                    new_pane: plane.domain.next_pane,
                    axis,
                    ratio_bits,
                    bounds: plane.frames[window].bounds,
                },
            )
            &&& step is Wait && answer is Some ==> after == plane && plane.live && lived is None
        }),
        plane.split(window, target, axis, ratio_bits, spawn, client, answer, lived).1 matches
            StepView::Wait(ask) ==> (answer matches Some(Ok(p)) ==> {
            &&& ask matches AskView::Spawn { pane: place, spec, inherit, agent, geometry }
            &&& place.pane_id == plane.domain.next_pane
            &&& geometry.contains(place)
            &&& spec == spawn
            &&& inherit == Some(target)
            &&& agent == plane.domain.sessions[plane.domain.windows[window].session].agent_id
            &&& shows(p.rects@, geometry)
        }),
        ({
            let (after, step) = plane.split(
                window,
                target,
                axis,
                ratio_bits,
                spawn,
                client,
                answer,
                lived,
            );
            let pane = plane.domain.next_pane;
            !refuses(step) && !(step is Wait) ==> {
                &&& answer matches Some(Ok(p))
                &&& acknowledges(after, step)
                &&& retreed(plane, after, window, p.layout)
                &&& forall|x: u64|
                    #![trigger p.layout.leaves().contains(x)]
                    p.layout.leaves().contains(x) <==> plane.domain.windows[window].layout.leaves().contains(
                        x,
                    ) || x == pane
                &&& shows(p.rects@, after.frames[window].geometry)
                &&& tells(
                    plane.ring,
                    after.ring,
                    EventView::PaneSplit {
                        window_id: window,
                        target_pane_id: target,
                        new_pane_id: pane,
                        axis,
                        ratio_bits,
                        spawn,
                        geometry: after.frames[window].geometry,
                    },
                )
            }
        }),
        ({
            let (after, step) = plane.split(
                window,
                target,
                axis,
                ratio_bits,
                spawn,
                client,
                answer,
                lived,
            );
            let pane = plane.domain.next_pane;
            !refuses(step) && !(step is Wait) ==> {
                &&& !plane.domain.panes.contains_key(pane)
                &&& after.domain.panes.contains_key(pane)
                &&& after.domain.panes[pane].window == window
                &&& after.domain.panes[pane].controller is None
                &&& after.domain.panes[pane].title.len() == 0
                &&& !after.domain.panes[pane].title_pinned
                &&& after.domain.next_pane == pane + 1
                &&& after.panes[pane].spawn == Some(spawn)
                &&& other_panes_stay(plane, after, pane)
                &&& other_windows_stay(plane, after, window)
                &&& after.domain.sessions == plane.domain.sessions
                &&& after.effects == plane.effects
                &&& same_clients(plane, after)
            }
        }),
{
    let pane = plane.domain.next_pane;
    let leaves = plane.domain.windows[window].layout.leaves();
    assert(leaves.push(pane).drop_last() =~= leaves);
    lemma_last_contained(leaves.push(pane));
    if let Some(Ok(p)) = answer {
        let geometry = wire_rects(p.rects@);
        lemma_entry_of(geometry, pane);
        assert(pane_ids(geometry) =~= rect_ids(p.rects@));
        assert(p.layout.leaves().contains(pane) ==> rect_ids(p.rects@).contains(pane) || !relists(
            rect_ids(p.rects@),
            p.layout.leaves(),
        ));
    }
}

/// Closing a pane takes that one pane out of its window and tells of it; the focus that
/// was suggested is told along.
pub proof fn a_close_removes_the_pane(
    plane: PlaneView,
    window: u64,
    pane: u64,
    prior_focus: u64,
    client: Option<u64>,
    answer: Placed,
    lived: Option<Result<(), Seq<char>>>,
)
    requires
        plane.wf(),
    ensures
        ({
            let (after, step) = plane.close(window, pane, prior_focus, client, answer, lived);
            let leaves = plane.domain.windows[window].layout.leaves();
            let open = plane.ring.sequence < u64::MAX && window != 0 && pane != 0 && prior_focus
                != 0 && plane.domain.windows.contains_key(window) && leaves.contains(pane)
                && leaves.contains(prior_focus) && leaves.len() != 1 && may_act(
                plane,
                client,
                pane,
            );
            &&& !open ==> after == plane && refuses(step)
            &&& open && answer is None ==> after == plane && step == StepView::Wait(
                AskView::Close {
                    layout: plane.domain.windows[window].layout,
                    pane,
                    prior_focus,
                    bounds: plane.frames[window].bounds,
                },
            )
            &&& step is Wait && answer is Some ==> after == plane && plane.live && lived is None
        }),
        plane.close(window, pane, prior_focus, client, answer, lived).1 matches StepView::Wait(ask)
            ==> (answer matches Some(Ok(p)) ==> {
            &&& ask matches AskView::Apply { geometry, cell_width_px, cell_height_px, owner, sizes }
            &&& shows(p.rects@, geometry)
            &&& cell_width_px is None && cell_height_px is None && owner is None && !sizes
        }),
        ({
            let (after, step) = plane.close(window, pane, prior_focus, client, answer, lived);
            !refuses(step) && !(step is Wait) ==> {
                &&& answer matches Some(Ok(p))
                &&& p.focus matches Some(focus)
                &&& acknowledges(after, step)
                &&& retreed(plane, after, window, p.layout)
                &&& forall|x: u64|
                    #![trigger p.layout.leaves().contains(x)]
                    p.layout.leaves().contains(x) <==> plane.domain.windows[window].layout.leaves().contains(
                        x,
                    ) && x != pane
                &&& shows(p.rects@, after.frames[window].geometry)
                &&& plane.ring.sequence + 2 < u64::MAX ==> after.ring.events.len() > 0
                    && after.ring.events.last().event == (EventView::PaneClosed {
                    window_id: window,
                    pane_id: pane,
                    suggested_focus_id: focus,
                    geometry: after.frames[window].geometry,
                })
                &&& plane.panes[pane].mail is None && plane.panes[pane].status is None
                    ==> after.ring.sequence == plane.ring.sequence + 1
            }
        }),
        ({
            let (after, step) = plane.close(window, pane, prior_focus, client, answer, lived);
            !refuses(step) && !(step is Wait) ==> {
                &&& !after.domain.panes.contains_key(pane)
                &&& plane.domain.panes.contains_key(pane)
                &&& after.domain.next_pane == plane.domain.next_pane
                &&& other_panes_stay(plane, after, pane)
                &&& other_windows_stay(plane, after, window)
                &&& after.domain.sessions == plane.domain.sessions
                &&& plane.live && plane.panes[pane].mail is None ==> after.effects
                    == plane.effects.push(EffectView::RemovePane { pane })
                &&& plane.live ==> after.effects.len() > plane.effects.len()
                    && after.effects[plane.effects.len() as int] == (EffectView::RemovePane { pane })
            }
        }),
{
    lemma_without_id(plane.domain.windows[window].layout.leaves(), pane);
}

/// An arrangement is asked for by the kind that was requested, over all panes of the
/// window and only those; the window then has the tree that was answered.
pub proof fn an_arrangement_is_the_requested_one(
    plane: PlaneView,
    window: u64,
    kind: ArrangementWire,
    focused: Option<u64>,
    answer: Placed,
    lived: Option<Result<(), Seq<char>>>,
)
    requires
        plane.wf(),
    ensures
        ({
            let (after, step) = plane.arrange(window, kind, focused, answer, lived);
            let open = plane.ring.sequence < u64::MAX && plane.domain.windows.contains_key(window);
            &&& !open ==> after == plane && refuses(step)
            &&& open && answer is None ==> {
                &&& after == plane
                &&& step matches StepView::Wait(AskView::Arrange { kind: k, leaves, main, bounds })
                &&& k == kind
                &&& leaves == plane.domain.windows[window].layout.leaves()
                &&& bounds == plane.frames[window].bounds
                &&& main == match focused {
                    Some(pane) => if pane == 0 {
                        None
                    } else {
                        Some(pane)
                    },
                    None => None,
                }
            }
            &&& step is Wait && answer is Some ==> after == plane && plane.live && lived is None
        }),
        plane.arrange(window, kind, focused, answer, lived).1 matches StepView::Wait(ask) ==> (
        answer matches Some(Ok(p)) ==> {
            &&& ask matches AskView::Apply { geometry, cell_width_px, cell_height_px, owner, sizes }
            &&& shows(p.rects@, geometry)
            &&& cell_width_px is None && cell_height_px is None && owner is None && !sizes
        }),
        ({
            let (after, step) = plane.arrange(window, kind, focused, answer, lived);
            !refuses(step) && !(step is Wait) ==> {
                &&& answer matches Some(Ok(p))
                &&& acknowledges(after, step)
                &&& retreed(plane, after, window, p.layout)
                &&& forall|x: u64|
                    #![trigger p.layout.leaves().contains(x)]
                    p.layout.leaves().contains(x)
                        <==> plane.domain.windows[window].layout.leaves().contains(x)
                &&& shows(p.rects@, after.frames[window].geometry)
                &&& after.domain.panes == plane.domain.panes
                &&& after.panes == plane.panes
                &&& after.domain.sessions == plane.domain.sessions
                &&& other_windows_stay(plane, after, window)
                &&& same_clients(plane, after)
                &&& after.effects == plane.effects
                &&& tells(
                    plane.ring,
                    after.ring,
                    EventView::GeometryChanged {
                        window_id: window,
                        bounds: plane.frames[window].bounds,
                        geometry: after.frames[window].geometry,
                    },
                )
            }
        }),
{
}

} // verus!
