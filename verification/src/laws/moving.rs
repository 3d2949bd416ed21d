//! What moving panes, and handing panes and sessions over to another Space, is for.
use vstd::prelude::*;

use crate::event::EventView;
use crate::idmap::group_views;
use crate::laws::layout::{acknowledges, may_act, other_panes_stay, refuses};
use crate::laws::relations::{lemma_published_is_told, shows, tells};
use crate::model::{group_seq_views, lemma_last_contained};
use crate::panes::Placed;
use crate::plane::PlaneView;
use crate::state::{group_pane_states, AskView, EffectView};
use crate::step::StepView;
use crate::topology::{lemma_without_id, without_id, PaneLayout};
use crate::wire::{AxisWire, WindowBounds};

verus! {

broadcast use {group_views, group_seq_views, group_pane_states, lemma_published_is_told};

/// A step that is neither a refusal nor a question to the host.
pub open spec fn done(step: StepView) -> bool {
    !refuses(step) && !(step is Wait)
}

/// The pane that gets the mail of a session: the first one of its first window.
pub open spec fn gets_mail(plane: PlaneView, session: u64, pane: u64) -> bool {
    let windows = plane.domain.sessions[session].windows;
    &&& windows.len() > 0
    &&& plane.domain.windows[windows.first()].layout.leaves().first() == pane
}

/// The session in whose window a pane stands.
pub open spec fn home(plane: PlaneView, pane: u64) -> u64 {
    plane.domain.windows[plane.domain.panes[pane].window].session
}

/// A window lost one pane: its other panes are in the tree that is left of it, or it had
/// no other and is gone, its session with it where that has no other window.
pub open spec fn left_by(
    before: PlaneView,
    after: PlaneView,
    window: u64,
    pane: u64,
    rest: Option<PaneLayout>,
) -> bool {
    let leaves = before.domain.windows[window].layout.leaves();
    let session = before.domain.windows[window].session;
    match rest {
        Some(tree) => {
            &&& after.domain.windows.contains_key(window)
            &&& after.domain.windows[window].layout == tree
            &&& after.domain.windows[window].title == before.domain.windows[window].title
            &&& after.domain.windows[window].session == session
            &&& after.frames[window].bounds == before.frames[window].bounds
            &&& forall|x: u64|
                #![trigger tree.leaves().contains(x)]
                tree.leaves().contains(x) <==> leaves.contains(x) && x != pane
            &&& after.domain.sessions.contains_key(session)
        },
        None => {
            &&& !after.domain.windows.contains_key(window)
            &&& !after.frames.contains_key(window)
            &&& forall|x: u64| #[trigger] leaves.contains(x) ==> x == pane
            &&& after.domain.sessions.contains_key(session)
                <==> exists|w: u64| #[trigger]
                before.domain.sessions[session].windows.contains(w) && w != window
        },
    }
}

/// Nothing is left of a list without an entry exactly where it holds no other.
pub proof fn lemma_nothing_left(ids: Seq<u64>, id: u64)
    ensures
        without_id(ids, id).len() == 0 <==> !exists|x: u64| #[trigger] ids.contains(x) && x != id,
        forall|x: u64| #[trigger]
            without_id(ids, id).contains(x) <==> ids.contains(x) && x != id,
{
    lemma_without_id(ids, id);
    let rest = without_id(ids, id);
    if rest.len() > 0 {
        assert(rest.contains(rest[0]));
        assert(ids.contains(rest[0]));
    }
    if exists|x: u64| #[trigger] ids.contains(x) && x != id {
        let x = choose|x: u64| #[trigger] ids.contains(x) && x != id;
        assert(rest.contains(x));
    }
}

/// A move asks for exactly the move that was requested: this pane, beside that one, cut
/// this way. It then leaves the one window and stands in the other, as was answered.
pub proof fn a_move_takes_the_pane_over(
    plane: PlaneView,
    from: u64,
    to: u64,
    pane: u64,
    target: u64,
    axis: AxisWire,
    ratio_bits: u64,
    client: Option<u64>,
    answer: Placed,
    lived: Option<Result<(), Seq<char>>>,
)
    requires
        plane.wf(),
    ensures
        ({
            let (after, step) = plane.move_pane(
                from,
                to,
                pane,
                target,
                axis,
                ratio_bits,
                client,
                answer,
                lived,
            );
            let open = plane.ring.sequence < u64::MAX && from != 0 && to != 0 && pane != 0
                && target != 0 && plane.domain.windows.contains_key(from)
                && plane.domain.windows.contains_key(to) && from != to
                && plane.domain.windows[from].layout.leaves().contains(pane)
                && plane.domain.windows[to].layout.leaves().contains(target) && may_act(
                plane,
                client,
                pane,
            );
            &&& !open ==> after == plane && refuses(step)
            &&& open && answer is None ==> after == plane && step == StepView::Wait(
                AskView::Move {
                    source: plane.domain.windows[from].layout,
                    source_bounds: plane.frames[from].bounds,
                    layout: plane.domain.windows[to].layout,
                    bounds: plane.frames[to].bounds,
                    pane,
                    target,
                    axis,
                    ratio_bits,
                },
            )
            &&& answer is Some && answer->0 is Err ==> after == plane && refuses(step)
            &&& step is Wait && answer is Some ==> after == plane && plane.live && lived is None
        }),
        ({
            let (after, step) = plane.move_pane(
                from,
                to,
                pane,
                target,
                axis,
                ratio_bits,
                client,
                answer,
                lived,
            );
            done(step) ==> {
                &&& answer matches Some(Ok(p))
                &&& acknowledges(after, step)
                &&& after.domain.panes.contains_key(pane)
                &&& after.domain.panes[pane].window == to
                &&& after.domain.panes[pane].title == plane.domain.panes[pane].title
                &&& after.domain.panes[pane].title_pinned == plane.domain.panes[pane].title_pinned
                &&& after.domain.panes[pane].controller == plane.domain.panes[pane].controller
                &&& after.panes == plane.panes
                &&& other_panes_stay(plane, after, pane)
                &&& after.domain.next_pane == plane.domain.next_pane
                &&& after.domain.next_window == plane.domain.next_window
                &&& after.effects == plane.effects
            }
        }),
        ({
            let (after, step) = plane.move_pane(
                from,
                to,
                pane,
                target,
                axis,
                ratio_bits,
                client,
                answer,
                lived,
            );
            done(step) ==> {
                &&& answer matches Some(Ok(p))
                &&& left_by(plane, after, from, pane, p.rest)
                &&& after.domain.windows.contains_key(to)
                &&& after.domain.windows[to].layout == p.layout
                &&& after.domain.windows[to].title == plane.domain.windows[to].title
                &&& after.domain.windows[to].session == plane.domain.windows[to].session
                &&& after.frames[to].bounds == plane.frames[to].bounds
                &&& shows(p.rects@, after.frames[to].geometry)
                &&& forall|x: u64|
                    #![trigger p.layout.leaves().contains(x)]
                    p.layout.leaves().contains(x)
                        <==> plane.domain.windows[to].layout.leaves().contains(x) || x == pane
                &&& forall|w: u64|
                    #![trigger after.domain.windows.contains_key(w)]
                    w != from && w != to ==> (after.domain.windows.contains_key(w)
                        <==> plane.domain.windows.contains_key(w)) && (
                    plane.domain.windows.contains_key(w) ==> after.domain.windows[w]
                        == plane.domain.windows[w] && after.frames[w] == plane.frames[w])
                &&& tells(
                    plane.ring,
                    after.ring,
                    EventView::PaneMoved {
                        from_window_id: from,
                        to_window_id: to,
                        pane_id: pane,
                        source_suggested_focus_id: p.focus,
                        geometry: (if p.rest is Some {
                            after.frames[from].geometry
                        } else {
                            Seq::empty()
                        }) + after.frames[to].geometry,
                    },
                )
            }
        }),
{
    lemma_nothing_left(plane.domain.windows[from].layout.leaves(), pane);
    lemma_nothing_left(plane.domain.sessions[plane.domain.windows[from].session].windows, from);
    let there = plane.domain.windows[to].layout.leaves();
    assert(there.push(pane).drop_last() =~= there);
    lemma_last_contained(there.push(pane));
}

/// Each client is as it was, but that nobody looks at a window that is gone.
pub open spec fn no_stale_looks(before: PlaneView, after: PlaneView) -> bool {
    forall|c: u64|
        #![trigger after.clients.contains_key(c)]
        {
            &&& after.clients.contains_key(c) <==> before.clients.contains_key(c)
            &&& before.clients.contains_key(c) ==> {
                let was = before.clients[c];
                let is = after.clients[c];
                &&& is.focus == was.focus
                &&& is.view == was.view
                &&& is.viewer == was.viewer
                &&& is.space == was.space
                &&& is.viewports == was.viewports
                &&& is.agent == was.agent
                &&& is.host == was.host
                &&& is.window_view == if was.window_view is Some
                    && !after.domain.windows.contains_key(was.window_view->0) {
                    None
                } else {
                    was.window_view
                }
            }
        }
}

/// A transfer is for a pane of a session in the one Space, to a session in the other.
pub open spec fn may_transfer(
    plane: PlaneView,
    pane: u64,
    target: u64,
    from_space: Seq<char>,
    to_space: Seq<char>,
) -> bool {
    let source = home(plane, pane);
    &&& plane.ring.sequence < u64::MAX
    &&& pane != 0 && target != 0
    &&& plane.domain.panes.contains_key(pane)
    &&& plane.domain.sessions.contains_key(target)
    &&& plane.domain.sessions[source].space_id == Some(from_space)
    &&& plane.domain.sessions[target].space_id == Some(to_space)
    &&& from_space != to_space
    &&& !(gets_mail(plane, source, pane) && plane.domain.sessions[source].agent_id is Some
        && plane.domain.sessions[target].agent_id is Some)
}

/// After a transfer the pane stands in a window of the destination, nobody controls it and
/// nobody looks at a window that went away.
pub proof fn a_transfer_hands_the_pane_over(
    plane: PlaneView,
    pane: u64,
    target: u64,
    from_space: Seq<char>,
    to_space: Seq<char>,
    answer: Placed,
    lived: Option<Result<(), Seq<char>>>,
)
    requires
        plane.wf(),
    ensures
        ({
            let (after, step) = plane.transfer_pane(
                pane,
                target,
                from_space,
                to_space,
                answer,
                lived,
            );
            &&& !may_transfer(plane, pane, target, from_space, to_space) ==> after == plane
                && refuses(step)
            &&& !done(step) ==> after == plane
            &&& done(step) ==> {
                &&& after.domain.panes.contains_key(pane)
                &&& after.domain.windows.contains_key(after.domain.panes[pane].window)
                &&& home(after, pane) == target
                &&& after.domain.panes[pane].controller is None
                &&& after.domain.panes[pane].title == plane.domain.panes[pane].title
                &&& after.domain.sessions[target].name == plane.domain.sessions[target].name
                &&& after.domain.sessions[target].space_id == Some(to_space)
            }
        }),
        ({
            let (after, step) = plane.transfer_pane(
                pane,
                target,
                from_space,
                to_space,
                answer,
                lived,
            );
            done(step) ==> no_stale_looks(plane, after)
        }),
{
    let from = plane.domain.panes[pane].window;
    lemma_nothing_left(plane.domain.windows[from].layout.leaves(), pane);
    lemma_nothing_left(plane.domain.sessions[plane.domain.windows[from].session].windows, from);
    let there = plane.domain.sessions[target].windows;
    if there.len() > 0 {
        assert(there.contains(there[0]));
    }
    assert(plane.domain.sessions.contains_key(home(plane, pane)) || !plane.domain.panes.contains_key(
        pane,
    ));
}

/// The agent goes where its mail endpoint goes: the destination is then bound to it, and
/// the source, where it remains, to nobody. A pane that is no endpoint takes no agent
/// along. No other session is bound otherwise than before.
pub proof fn a_transfer_takes_the_agent_along(
    plane: PlaneView,
    pane: u64,
    target: u64,
    from_space: Seq<char>,
    to_space: Seq<char>,
    answer: Placed,
    lived: Option<Result<(), Seq<char>>>,
    agent: Seq<char>,
)
    requires
        plane.wf(),
    ensures
        ({
            let (after, step) = plane.transfer_pane(
                pane,
                target,
                from_space,
                to_space,
                answer,
                lived,
            );
            let source = home(plane, pane);
            done(step) && gets_mail(plane, source, pane) && plane.domain.sessions[source].agent_id
                == Some(agent) ==> {
                &&& after.domain.sessions.contains_key(target)
                &&& after.domain.sessions[target].agent_id == Some(agent)
                &&& after.domain.sessions.contains_key(source)
                    ==> after.domain.sessions[source].agent_id is None
                &&& after.effects.len() > 0
                &&& after.effects.last() == (EffectView::BindAgent {
                    session: plane.domain.sessions[target].name,
                    agent,
                })
            }
        }),
        ({
            let (after, step) = plane.transfer_pane(
                pane,
                target,
                from_space,
                to_space,
                answer,
                lived,
            );
            let source = home(plane, pane);
            done(step) && !(gets_mail(plane, source, pane) && plane.domain.sessions[source].agent_id
                is Some) ==> {
                &&& after.domain.sessions[target].agent_id
                    == plane.domain.sessions[target].agent_id
                &&& after.domain.sessions.contains_key(source)
                    ==> after.domain.sessions[source].agent_id
                    == plane.domain.sessions[source].agent_id
            }
        }),
        ({
            let (after, step) = plane.transfer_pane(
                pane,
                target,
                from_space,
                to_space,
                answer,
                lived,
            );
            forall|s: u64|
                #![trigger after.domain.sessions.contains_key(s)]
                done(step) && s != home(plane, pane) && s != target ==> (
                after.domain.sessions.contains_key(s) <==> plane.domain.sessions.contains_key(s))
                    && (plane.domain.sessions.contains_key(s) ==> after.domain.sessions[s]
                    == plane.domain.sessions[s])
        }),
{
    let from = plane.domain.panes[pane].window;
    lemma_nothing_left(plane.domain.windows[from].layout.leaves(), pane);
    lemma_nothing_left(plane.domain.sessions[plane.domain.windows[from].session].windows, from);
    let there = plane.domain.sessions[target].windows;
    if there.len() > 0 {
        assert(there.contains(there[0]));
    }
    assert(plane.domain.sessions.contains_key(home(plane, pane)) || !plane.domain.panes.contains_key(
        pane,
    ));
}

/// A transfer puts the pane beside the first pane of the destination, which it shares in
/// two halves side by side; where the destination has no window, the pane gets one.
pub proof fn a_transfer_asks_for_a_place(
    plane: PlaneView,
    pane: u64,
    target: u64,
    from_space: Seq<char>,
    to_space: Seq<char>,
    lived: Option<Result<(), Seq<char>>>,
)
    requires
        plane.wf(),
        may_transfer(plane, pane, target, from_space, to_space),
    ensures
        ({
            let (after, step) = plane.transfer_pane(
                pane,
                target,
                from_space,
                to_space,
                None,
                lived,
            );
            let from = plane.domain.panes[pane].window;
            let windows = plane.domain.sessions[target].windows;
            &&& windows.len() > 0 && plane.domain.windows[windows.first()].layout.leaves().len() > 0
                ==> after == plane && step == StepView::Wait(
                AskView::Move {
                    source: plane.domain.windows[from].layout,
                    source_bounds: plane.frames[from].bounds,
                    layout: plane.domain.windows[windows.first()].layout,
                    bounds: plane.frames[windows.first()].bounds,
                    pane,
                    target: plane.domain.windows[windows.first()].layout.leaves().first(),
                    axis: AxisWire::Horizontal,
                    ratio_bits: 0x3fe0_0000_0000_0000,
                },
            )
            &&& windows.len() == 0 && plane.domain.next_window < u64::MAX ==> after == plane
                && step == StepView::Wait(
                AskView::Open {
                    source: plane.domain.windows[from].layout,
                    source_bounds: plane.frames[from].bounds,
                    pane,
                    bounds: WindowBounds {
                        window_id: plane.domain.next_window,
                        cols: plane.frames[from].bounds.cols,
                        rows: plane.frames[from].bounds.rows,
                    },
                },
            )
        }),
{
    let from = plane.domain.panes[pane].window;
    let there = plane.domain.sessions[target].windows;
    assert(plane.domain.windows.contains_key(from));
    if there.len() > 0 {
        assert(there.contains(there[0]));
        let leaves = plane.domain.windows[there[0]].layout.leaves();
        if leaves.len() > 0 {
            assert(leaves.contains(leaves[0]));
            assert(plane.domain.panes.contains_key(leaves[0]));
        }
    }
}

/// A pane that is given a window of its own is alone in it; the window is the last of the
/// session and bears the pane's title.
pub proof fn an_opened_window_holds_the_pane(
    plane: PlaneView,
    pane: u64,
    session: u64,
    answer: Placed,
    lived: Option<Result<(), Seq<char>>>,
)
    requires
        plane.wf(),
        plane.ring.sequence < u64::MAX,
        plane.domain.panes.contains_key(pane),
        plane.domain.sessions.contains_key(session),
        home(plane, pane) != session,
    ensures
        ({
            let (after, step) = plane.open_pane(pane, session, answer, lived);
            let window = plane.domain.next_window;
            let from = plane.domain.panes[pane].window;
            &&& done(step) ==> {
                &&& answer matches Some(Ok(p))
                &&& acknowledges(after, step)
                &&& after.domain.windows.contains_key(window)
                &&& after.domain.windows[window].session == session
                &&& after.domain.windows[window].layout.leaves() =~= seq![pane]
                &&& !after.domain.windows[window].sync_input
                &&& after.domain.windows[window].title == if plane.domain.panes[pane].title.len()
                    == 0 {
                    "moved"@
                } else {
                    plane.domain.panes[pane].title
                }
                &&& after.domain.sessions[session].windows
                    =~= plane.domain.sessions[session].windows.push(window)
                &&& after.domain.next_window == window + 1
                &&& after.domain.panes[pane].window == window
                &&& after.frames[window].bounds.cols == plane.frames[from].bounds.cols
                &&& after.frames[window].bounds.rows == plane.frames[from].bounds.rows
                &&& after.frames[window].bounds.window_id == window
                &&& shows(p.rects@, after.frames[window].geometry)
                &&& left_by(plane, after, from, pane, p.rest)
            }
        }),
        ({
            let (after, step) = plane.open_pane(pane, session, answer, lived);
            let window = plane.domain.next_window;
            let from = plane.domain.panes[pane].window;
            done(step) ==> tells(
                plane.ring,
                after.ring,
                EventView::PaneMoved {
                    from_window_id: from,
                    to_window_id: window,
                    pane_id: pane,
                    source_suggested_focus_id: None,
                    geometry: (if answer->0->Ok_0.rest is Some {
                        after.frames[from].geometry
                    } else {
                        Seq::empty()
                    }) + after.frames[window].geometry,
                },
            )
        }),
{
    let from = plane.domain.panes[pane].window;
    assert(plane.domain.windows.contains_key(from));
    assert(PaneLayout::Leaf { pane_id: pane }.leaves() =~= seq![pane]);
    lemma_nothing_left(plane.domain.windows[from].layout.leaves(), pane);
    lemma_nothing_left(plane.domain.sessions[plane.domain.windows[from].session].windows, from);
}

/// Sessions change their Space together or not at all: exactly those that were listed are
/// then in the new one, and nothing else of the topology changed but the leases of their
/// panes, which are free.
pub proof fn sessions_change_their_space_together(
    plane: PlaneView,
    ids: Seq<u64>,
    from: Option<Seq<char>>,
    to: Option<Seq<char>>,
)
    requires
        plane.wf(),
    ensures
        ({
            let (after, result) = plane.transfer_sessions(ids, from, to);
            let open = plane.ring.sequence < u64::MAX && forall|i: int|
                0 <= i < ids.len() ==> (#[trigger] ids[i]) != 0
                    && plane.domain.sessions.contains_key(ids[i])
                    && plane.domain.sessions[ids[i]].space_id == from;
            &&& result is Ok <==> open
            &&& !open ==> after == plane
            &&& open ==> {
                &&& forall|s: u64|
                    #![trigger after.domain.sessions.contains_key(s)]
                    {
                        &&& after.domain.sessions.contains_key(s)
                            <==> plane.domain.sessions.contains_key(s)
                        &&& plane.domain.sessions.contains_key(s) ==> {
                            let was = plane.domain.sessions[s];
                            let is = after.domain.sessions[s];
                            &&& is.space_id == if ids.contains(s) {
                                to
                            } else {
                                was.space_id
                            }
                            &&& is.name == was.name
                            &&& is.agent_id == was.agent_id
                            &&& is.windows == was.windows
                        }
                    }
                &&& after.domain.windows == plane.domain.windows
                &&& after.frames == plane.frames
                &&& after.clients == plane.clients
                &&& after.panes == plane.panes
            }
        }),
        ({
            let (after, result) = plane.transfer_sessions(ids, from, to);
            result is Ok ==> tells(
                plane.ring,
                after.ring,
                EventView::SpaceOwnershipChanged { session_ids: ids, from, to },
            )
        }),
        ({
            let (after, result) = plane.transfer_sessions(ids, from, to);
            forall|p: u64|
                #![trigger after.domain.panes.contains_key(p)]
                result is Ok ==> {
                    &&& after.domain.panes.contains_key(p) <==> plane.domain.panes.contains_key(p)
                    &&& plane.domain.panes.contains_key(p) ==> {
                        let was = plane.domain.panes[p];
                        let is = after.domain.panes[p];
                        &&& is.window == was.window
                        &&& is.title == was.title
                        &&& is.title_pinned == was.title_pinned
                        &&& is.controller == if ids.contains(home(plane, p)) {
                            None
                        } else {
                            was.controller
                        }
                    }
                }
        }),
{
    lemma_space_owners(plane, ids, from);
    if plane.transfer_sessions_fault(ids, from) is None {
        let mid = PlaneView { domain: plane.domain.transfer_sessions(ids, to), ..plane };
        let panes = plane.domain.sessions_panes(ids);
        lemma_panes_of_sessions(plane, ids);
        lemma_revoked(mid, panes);
        let after = plane.transfer_sessions(ids, from, to).0;
        assert forall|p: u64| #[trigger]
            after.domain.panes.contains_key(p) implies freed(mid, after, panes, p) by {
            assert(freed(mid, mid.revoke_controllers(panes), panes, p));
        }
        assert forall|p: u64| #[trigger]
            plane.domain.panes.contains_key(p) implies freed(mid, after, panes, p) by {
            assert(freed(mid, mid.revoke_controllers(panes), panes, p));
        }
    }
}

/// Sessions may change their Space exactly where each is known and owned as expected.
proof fn lemma_space_owners(plane: PlaneView, ids: Seq<u64>, from: Option<Seq<char>>)
    ensures
        plane.domain.transfer_fault(ids, from) is None <==> forall|i: int|
            0 <= i < ids.len() ==> plane.domain.sessions.contains_key(#[trigger] ids[i])
                && plane.domain.sessions[ids[i]].space_id == from,
    decreases ids.len(),
{
    if ids.len() > 0 {
        let head = ids.drop_last();
        lemma_space_owners(plane, head, from);
        assert(forall|i: int| 0 <= i < head.len() ==> head[i] == ids[i]);
        assert(ids.last() == ids[ids.len() - 1]);
        if forall|i: int|
            0 <= i < ids.len() ==> plane.domain.sessions.contains_key(#[trigger] ids[i])
                && plane.domain.sessions[ids[i]].space_id == from {
            assert forall|i: int| 0 <= i < head.len() implies plane.domain.sessions.contains_key(
                #[trigger] head[i],
            ) && plane.domain.sessions[head[i]].space_id == from by {
                assert(head[i] == ids[i]);
            }
        }
        if plane.domain.transfer_fault(ids, from) is None {
            assert forall|i: int| 0 <= i < ids.len() implies plane.domain.sessions.contains_key(
                #[trigger] ids[i],
            ) && plane.domain.sessions[ids[i]].space_id == from by {
                if i < head.len() {
                    assert(head[i] == ids[i]);
                }
            }
        }
    }
}

/// The panes of some windows are those that stand in one of them.
pub proof fn lemma_panes_of_windows(plane: PlaneView, windows: Seq<u64>)
    requires
        plane.wf(),
        forall|w: u64| #[trigger] windows.contains(w) ==> plane.domain.windows.contains_key(w),
    ensures
        forall|p: u64| #[trigger]
            plane.domain.windows_panes(windows).contains(p) <==> plane.domain.panes.contains_key(p)
                && windows.contains(plane.domain.panes[p].window),
    decreases windows.len(),
{
    if windows.len() > 0 {
        let head = windows.drop_last();
        let last = windows.last();
        lemma_last_contained(windows);
        lemma_panes_of_windows(plane, head);
        let a = plane.domain.windows_panes(head);
        let b = plane.domain.windows[last].layout.leaves();
        assert forall|p: u64| #[trigger]
            plane.domain.windows_panes(windows).contains(p)
                <==> plane.domain.panes.contains_key(p) && windows.contains(
            plane.domain.panes[p].window,
        ) by {
            vstd::seq_lib::lemma_seq_concat_contains_all_elements(a, b, p);
            assert(plane.domain.windows[last].layout.leaves().contains(p) <==> b.contains(p));
            if plane.domain.panes.contains_key(p) {
                assert(windows =~= head.push(last));
                assert(windows.contains(plane.domain.panes[p].window) ==> head.contains(
                    plane.domain.panes[p].window,
                ) || plane.domain.panes[p].window == last);
            }
        }
    }
}

/// The panes of some sessions are those that are at home in one of them.
pub proof fn lemma_panes_of_sessions(plane: PlaneView, ids: Seq<u64>)
    requires
        plane.wf(),
        forall|i: int|
            0 <= i < ids.len() ==> plane.domain.sessions.contains_key(#[trigger] ids[i]),
    ensures
        forall|p: u64| #[trigger]
            plane.domain.sessions_panes(ids).contains(p) <==> plane.domain.panes.contains_key(p)
                && ids.contains(home(plane, p)),
    decreases ids.len(),
{
    if ids.len() > 0 {
        let head = ids.drop_last();
        let last = ids.last();
        lemma_last_contained(ids);
        assert forall|i: int| 0 <= i < head.len() implies plane.domain.sessions.contains_key(
            #[trigger] head[i],
        ) by {
            assert(head[i] == ids[i]);
        }
        lemma_panes_of_sessions(plane, head);
        assert(plane.domain.sessions.contains_key(ids[ids.len() - 1]));
        let windows = plane.domain.sessions[last].windows;
        assert forall|w: u64| #[trigger]
            windows.contains(w) implies plane.domain.windows.contains_key(w) by {
            assert(plane.domain.sessions[last].windows.contains(w));
        }
        lemma_panes_of_windows(plane, windows);
        let a = plane.domain.sessions_panes(head);
        let b = plane.domain.windows_panes(windows);
        assert forall|p: u64| #[trigger]
            plane.domain.sessions_panes(ids).contains(p) <==> plane.domain.panes.contains_key(p)
                && ids.contains(home(plane, p)) by {
            vstd::seq_lib::lemma_seq_concat_contains_all_elements(a, b, p);
            assert(a.contains(p) <==> plane.domain.panes.contains_key(p) && head.contains(
                home(plane, p),
            ));
            if plane.domain.panes.contains_key(p) {
                let w = plane.domain.panes[p].window;
                assert(plane.domain.windows.contains_key(w));
                assert(plane.domain.sessions[last].windows.contains(w) ==> home(plane, p) == last);
                assert(ids =~= head.push(last));
                assert(ids.contains(home(plane, p)) ==> head.contains(home(plane, p)) || home(
                    plane,
                    p,
                ) == last);
            }
        }
    }
}

/// A pane is as it was, but that nobody controls it where it is one of some.
spec fn freed(before: PlaneView, after: PlaneView, panes: Seq<u64>, p: u64) -> bool {
    &&& after.domain.panes.contains_key(p) <==> before.domain.panes.contains_key(p)
    &&& before.domain.panes.contains_key(p) ==> {
        let was = before.domain.panes[p];
        let is = after.domain.panes[p];
        &&& is.window == was.window
        &&& is.title == was.title
        &&& is.title_pinned == was.title_pinned
        &&& is.controller == if panes.contains(p) {
            None
        } else {
            was.controller
        }
    }
}

/// Taking the leases of some panes away frees those panes and changes nothing else.
proof fn lemma_revoked(plane: PlaneView, panes: Seq<u64>)
    requires
        forall|p: u64| #[trigger] panes.contains(p) ==> plane.domain.panes.contains_key(p),
    ensures
        ({
            let after = plane.revoke_controllers(panes);
            &&& after.domain.sessions == plane.domain.sessions
            &&& after.domain.windows == plane.domain.windows
            &&& after.frames == plane.frames
            &&& after.clients == plane.clients
            &&& after.panes == plane.panes
            &&& after.ring == plane.ring
        }),
        forall|p: u64| #[trigger] freed(plane, plane.revoke_controllers(panes), panes, p),
    decreases panes.len(),
{
    if panes.len() > 0 {
        let head = panes.drop_last();
        let last = panes.last();
        lemma_last_contained(panes);
        assert(panes =~= head.push(last));
        lemma_revoked(plane, head);
        let mid = plane.revoke_controllers(head);
        let after = plane.revoke_controllers(panes);
        assert(freed(plane, mid, head, last));
        assert forall|p: u64| #[trigger] freed(plane, after, panes, p) by {
            assert(freed(plane, mid, head, p));
            assert(mid.domain.panes.contains_key(p) <==> plane.domain.panes.contains_key(p));
            assert(panes.contains(p) <==> head.contains(p) || p == last);
        }
    }
}

} // verus!
