//! What creating, naming and ending sessions and windows is for.
use vstd::prelude::*;

use crate::event::EventView;
use crate::idmap::group_views;
use crate::laws::layout::{acknowledges, refuses};
use crate::laws::moving::{done, home, lemma_nothing_left, lemma_panes_of_windows};
use crate::laws::relations::{lemma_published_is_told, same_clients, shows, tells};
use crate::laws::sizing::lemma_first_id;
use crate::mailbox::AddressView;
use crate::model::{group_seq_views, lemma_last_contained};
use crate::order::text_less;
use crate::panes::Placed;
use crate::plane::PlaneView;
use crate::response::DataView;
use crate::sessions::ResolvedView;
use crate::state::{group_pane_states, AskView, EffectView};
use crate::step::StepView;
use crate::text::{byte_count, trimmed};
use crate::topology::PaneLayout;
use crate::wire::{SpawnView, WindowBounds};

verus! {

broadcast use {group_views, group_seq_views, group_pane_states, lemma_published_is_told};

/// A name that can be shown: neither empty nor longer than 64 bytes, and without a NUL.
pub open spec fn label_fits(label: Seq<char>) -> bool {
    label.len() > 0 && byte_count(label) <= 64 && !label.contains('\0')
}

/// The size of a new window: what is asked for; else that of the oldest window; else
/// eighty columns and twenty-four rows.
pub open spec fn sized(
    plane: PlaneView,
    bounds: WindowBounds,
    cols: Option<u32>,
    rows: Option<u32>,
) -> bool {
    &&& cols matches Some(n) ==> bounds.cols == n
    &&& rows matches Some(n) ==> bounds.rows == n
    &&& forall|w: u64|
        #![trigger plane.frames.contains_key(w)]
        plane.frames.contains_key(w) && (forall|v: u64| #[trigger]
            plane.frames.contains_key(v) ==> w <= v) ==> {
            &&& cols is None ==> bounds.cols == plane.frames[w].bounds.cols
            &&& rows is None ==> bounds.rows == plane.frames[w].bounds.rows
        }
    &&& (forall|w: u64| !(#[trigger] plane.frames.contains_key(w))) ==> {
        &&& cols is None ==> bounds.cols == 80
        &&& rows is None ==> bounds.rows == 24
    }
}

/// The size of the next window is asked for, inherited or the usual one.
pub proof fn a_new_window_is_sized(plane: PlaneView, cols: Option<u32>, rows: Option<u32>)
    ensures
        sized(plane, plane.next_bounds(cols, rows), cols, rows),
        plane.next_bounds(cols, rows).window_id == plane.domain.next_window,
{
    lemma_first_id(plane.frames.dom());
}

/// A session has one more window, its last, which holds one new pane and nothing else.
pub open spec fn window_opened(
    before: PlaneView,
    after: PlaneView,
    session: u64,
    title: Seq<char>,
    bounds: WindowBounds,
    spawn: SpawnView,
) -> bool {
    let window = before.domain.next_window;
    let pane = before.domain.next_pane;
    &&& after.domain.windows.contains_key(window)
    &&& after.domain.windows[window].session == session
    &&& after.domain.windows[window].title == title
    &&& after.domain.windows[window].layout == (PaneLayout::Leaf { pane_id: pane })
    &&& !after.domain.windows[window].sync_input
    &&& after.domain.panes.contains_key(pane)
    &&& after.domain.panes[pane].window == window
    &&& after.domain.panes[pane].title.len() == 0
    &&& !after.domain.panes[pane].title_pinned
    &&& after.domain.panes[pane].controller is None
    &&& after.panes[pane].spawn == Some(spawn)
    &&& after.frames[window].bounds == bounds
    &&& after.domain.next_window == window + 1
    &&& after.domain.next_pane == pane + 1
    &&& forall|w: u64|
        #![trigger after.domain.windows.contains_key(w)]
        w != window ==> (after.domain.windows.contains_key(w)
            <==> before.domain.windows.contains_key(w)) && (before.domain.windows.contains_key(w)
            ==> after.domain.windows[w] == before.domain.windows[w] && after.frames[w]
            == before.frames[w])
    &&& forall|p: u64|
        #![trigger after.domain.panes.contains_key(p)]
        p != pane ==> (after.domain.panes.contains_key(p)
            <==> before.domain.panes.contains_key(p)) && (before.domain.panes.contains_key(p)
            ==> after.domain.panes[p] == before.domain.panes[p])
    &&& forall|p: u64| p != pane ==> #[trigger] after.panes[p] == before.panes[p]
    &&& same_clients(before, after)
}

/// A new window is placed and started as requested, and is then the last window of its
/// session, under the requested title, with one pane.
pub proof fn a_new_window_is_the_requested_one(
    plane: PlaneView,
    session: u64,
    title: Seq<char>,
    spawn: SpawnView,
    cols: Option<u32>,
    rows: Option<u32>,
    answer: Placed,
    lived: Option<Result<(), Seq<char>>>,
)
    requires
        plane.wf(),
    ensures
        ({
            let (after, step) = plane.create_window(
                session,
                title,
                spawn,
                cols,
                rows,
                answer,
                lived,
            );
            let bounds = plane.next_bounds(cols, rows);
            let open = plane.ring.sequence < u64::MAX && spawn.fault() is None && label_fits(
                trimmed(title),
            ) && plane.domain.sessions.contains_key(session) && plane.domain.next_window < u64::MAX
                && plane.domain.next_pane < u64::MAX;
            &&& !open ==> after == plane && refuses(step)
            &&& open && (bounds.cols == 0 || bounds.rows == 0) ==> refuses(step)
            &&& open && bounds.cols > 0 && bounds.rows > 0 && answer is None ==> after == plane
                && step == StepView::Wait(
                AskView::Fit {
                    layout: PaneLayout::Leaf { pane_id: plane.domain.next_pane },
                    bounds,
                },
            )
            &&& step is Wait ==> after == plane
            &&& refuses(step) ==> after.domain.sessions == plane.domain.sessions
                && after.domain.windows == plane.domain.windows && after.domain.panes
                == plane.domain.panes && after.frames == plane.frames && after.ring == plane.ring
        }),
        plane.create_window(session, title, spawn, cols, rows, answer, lived).1 matches
            StepView::Wait(ask) ==> (answer matches Some(Ok(p)) ==> {
            &&& plane.live && lived is None
            &&& ask matches AskView::Spawn { pane, spec, inherit, agent, geometry }
            &&& pane.pane_id == plane.domain.next_pane
            &&& spec == spawn
            &&& inherit is None
            &&& agent == plane.domain.sessions[session].agent_id
            &&& geometry.len() == 0
        }),
        ({
            let (after, step) = plane.create_window(
                session,
                title,
                spawn,
                cols,
                rows,
                answer,
                lived,
            );
            let bounds = plane.next_bounds(cols, rows);
            done(step) ==> {
                &&& answer matches Some(Ok(p))
                &&& window_opened(plane, after, session, trimmed(title), bounds, spawn)
                &&& shows(p.rects@, after.frames[plane.domain.next_window].geometry)
                &&& after.effects == plane.effects
                &&& step == StepView::Reply(
                    Ok(
                        DataView::Window {
                            session_id: session,
                            window_id: plane.domain.next_window,
                            pane_id: plane.domain.next_pane,
                            title: trimmed(title),
                        },
                    ),
                )
            }
        }),
        ({
            let (after, step) = plane.create_window(
                session,
                title,
                spawn,
                cols,
                rows,
                answer,
                lived,
            );
            done(step) ==> {
                &&& after.domain.sessions.dom() =~= plane.domain.sessions.dom()
                &&& after.domain.sessions[session].windows
                    =~= plane.domain.sessions[session].windows.push(plane.domain.next_window)
                &&& after.domain.sessions[session].name == plane.domain.sessions[session].name
                &&& after.domain.sessions[session].agent_id
                    == plane.domain.sessions[session].agent_id
                &&& after.domain.sessions[session].space_id
                    == plane.domain.sessions[session].space_id
                &&& forall|s: u64|
                    s != session && #[trigger] plane.domain.sessions.contains_key(s)
                        ==> after.domain.sessions[s] == plane.domain.sessions[s]
                &&& tells(
                    plane.ring,
                    after.ring,
                    EventView::WindowCreated {
                        session_id: session,
                        window_id: plane.domain.next_window,
                        pane_id: plane.domain.next_pane,
                        title: trimmed(title),
                        bounds: plane.next_bounds(cols, rows),
                        spawn,
                    },
                )
            }
        }),
{
    let pane = plane.domain.next_pane;
    if let Some(Ok(p)) = answer {
        crate::place::lemma_entry_of(crate::place::wire_rects(p.rects@), pane);
        assert(crate::plane::pane_ids(crate::place::wire_rects(p.rects@))
            =~= crate::place::rect_ids(p.rects@));
        assert(PaneLayout::Leaf { pane_id: pane }.leaves() =~= seq![pane]);
        assert(seq![pane][0] == pane);
        assert(PaneLayout::Leaf { pane_id: pane }.leaves().contains(pane));
    }
}

/// A session may be called so and bound so: nobody is, the address is its own, and no
/// alias stands for it.
pub open spec fn may_be_called(
    plane: PlaneView,
    name: Seq<char>,
    agent: Option<Seq<char>>,
    resolved: Option<ResolvedView>,
) -> bool {
    &&& forall|s: u64| #[trigger]
        plane.domain.sessions.contains_key(s) ==> plane.domain.sessions[s].name != name
    &&& agent matches Some(a) ==> {
        &&& !plane.aliases.contains_key(a)
        &&& resolved matches Some(known)
        &&& known.address == Ok::<Seq<char>, Seq<char>>(a)
        &&& forall|s: u64| #[trigger]
            plane.domain.sessions.contains_key(s) ==> plane.domain.sessions[s].agent_id != Some(a)
    }
}

/// A new session bears the requested name and agent, and has no Space yet. Without a
/// terminal it has no window; else it has one, called `main`.
pub proof fn a_new_session_is_the_requested_one(
    plane: PlaneView,
    name: Seq<char>,
    spawn: SpawnView,
    cols: Option<u32>,
    rows: Option<u32>,
    agent: Option<Seq<char>>,
    headless: bool,
    resolved: Option<ResolvedView>,
    answer: Placed,
    lived: Option<Result<(), Seq<char>>>,
)
    requires
        plane.wf(),
    ensures
        ({
            let (after, step) = plane.create_session(
                name,
                spawn,
                cols,
                rows,
                agent,
                headless,
                resolved,
                answer,
                lived,
            );
            let open = plane.ring.sequence < u64::MAX && (headless || spawn.fault() is None)
                && label_fits(trimmed(name));
            &&& !open ==> after == plane && refuses(step)
            &&& open && agent is Some && resolved is None ==> after == plane && step
                == StepView::Wait(AskView::Resolve { name: agent->0 })
            &&& open && !(agent is Some && resolved is None) && !may_be_called(
                plane,
                trimmed(name),
                agent,
                resolved,
            ) ==> refuses(step)
            &&& refuses(step) ==> after.domain.sessions == plane.domain.sessions
                && after.domain.windows == plane.domain.windows && after.domain.panes
                == plane.domain.panes && after.frames == plane.frames && after.ring == plane.ring
            &&& step is Wait ==> after == plane
        }),
        ({
            let (after, step) = plane.create_session(
                name,
                spawn,
                cols,
                rows,
                agent,
                headless,
                resolved,
                answer,
                lived,
            );
            let session = plane.domain.next_session;
            done(step) ==> {
                &&& !plane.domain.sessions.contains_key(session)
                &&& after.domain.sessions.contains_key(session)
                &&& after.domain.next_session == session + 1
                &&& after.domain.sessions[session].name == trimmed(name)
                &&& after.domain.sessions[session].agent_id == agent
                &&& after.domain.sessions[session].space_id is None
                &&& forall|s: u64|
                    #![trigger after.domain.sessions.contains_key(s)]
                    s != session ==> (after.domain.sessions.contains_key(s)
                        <==> plane.domain.sessions.contains_key(s)) && (
                    plane.domain.sessions.contains_key(s) ==> after.domain.sessions[s]
                        == plane.domain.sessions[s])
                &&& after.effects =~= if agent is Some {
                    plane.effects.push(
                        EffectView::BindAgent { session: trimmed(name), agent: agent->0 },
                    )
                } else {
                    plane.effects
                }
            }
        }),
        ({
            let (after, step) = plane.create_session(
                name,
                spawn,
                cols,
                rows,
                agent,
                headless,
                resolved,
                answer,
                lived,
            );
            let session = plane.domain.next_session;
            done(step) && headless ==> {
                &&& after.domain.sessions[session].windows.len() == 0
                &&& after.domain.windows == plane.domain.windows
                &&& after.domain.panes == plane.domain.panes
                &&& after.frames == plane.frames
                &&& step == StepView::Reply(
                    Ok(
                        DataView::Session {
                            session_id: session,
                            name: trimmed(name),
                            window_id: 0,
                            pane_id: 0,
                        },
                    ),
                )
                &&& tells(
                    plane.ring,
                    after.ring,
                    EventView::SessionCreated {
                        session_id: session,
                        name: trimmed(name),
                        window_id: 0,
                        pane_id: 0,
                        bounds: WindowBounds { window_id: 0, cols: 80, rows: 24 },
                        spawn,
                    },
                )
            }
        }),
        ({
            let (after, step) = plane.create_session(
                name,
                spawn,
                cols,
                rows,
                agent,
                headless,
                resolved,
                answer,
                lived,
            );
            let session = plane.domain.next_session;
            let bounds = plane.next_bounds(cols, rows);
            done(step) && !headless ==> {
                &&& after.domain.sessions[session].windows =~= seq![plane.domain.next_window]
                &&& window_opened(plane, after, session, "main"@, bounds, spawn)
                &&& tells(
                    plane.ring,
                    after.ring,
                    EventView::SessionCreated {
                        session_id: session,
                        name: trimmed(name),
                        window_id: plane.domain.next_window,
                        pane_id: plane.domain.next_pane,
                        bounds,
                        spawn,
                    },
                )
            }
        }),
        ({
            let (after, step) = plane.create_session(
                name,
                spawn,
                cols,
                rows,
                agent,
                headless,
                resolved,
                answer,
                lived,
            );
            let told = DataView::Session {
                session_id: plane.domain.next_session,
                name: trimmed(name),
                window_id: plane.domain.next_window,
                pane_id: plane.domain.next_pane,
            };
            done(step) && !headless ==> if agent is Some && resolved is Some && resolved->0.open
                is Some && resolved->0.open->0 > 0 {
                &&& step matches StepView::Bells { rings, reply }
                &&& reply == told
                &&& rings.len() == 1
                &&& rings[0].agent == agent->0
                &&& rings[0].depth == resolved->0.open->0
            } else {
                step == StepView::Reply(Ok(told))
            }
        }),
{
    assert(Seq::<u64>::empty().push(plane.domain.next_window) =~= seq![plane.domain.next_window]);
}

/// What is left of the record of a pane that is gone.
pub open spec fn blank_but_request(before: PlaneView, after: PlaneView, pane: u64) -> bool {
    let is = after.panes[pane];
    &&& is.team == before.panes[pane].team
    &&& is.spawn is None
    &&& is.mail is None
    &&& is.attention is None
    &&& is.status is None
    &&& is.mail_rev is None
    &&& is.written is None
    &&& is.output.len() == 0
    &&& is.inject is None
    &&& is.nudge is None
}

/// A client is as it was but that it shows no pane of some.
pub open spec fn shows_none(before: PlaneView, after: PlaneView, panes: Seq<u64>, c: u64) -> bool {
    &&& after.clients.contains_key(c) <==> before.clients.contains_key(c)
    &&& before.clients.contains_key(c) ==> {
        let was = before.clients[c];
        let is = after.clients[c];
        &&& is.focus == if was.focus is Some && panes.contains(was.focus->0) {
            None
        } else {
            was.focus
        }
        &&& is.view == was.view
        &&& is.window_view == was.window_view
        &&& is.viewports == was.viewports
        &&& is.space == was.space
        &&& is.agent == was.agent
        &&& is.viewer == was.viewer
        &&& is.host == was.host
    }
}

/// Panes that are dropped are removed by the host, one after the other, and forgotten.
proof fn lemma_dropped(plane: PlaneView, panes: Seq<u64>)
    requires
        plane.ring.wf(),
        plane.panes.dom() == Set::<u64>::full(),
    ensures
        ({
            let after = plane.drop_panes(panes);
            &&& after.domain == plane.domain
            &&& after.frames == plane.frames
            &&& after.aliases == plane.aliases
            &&& after.live == plane.live
            &&& after.latest == plane.latest
            &&& after.panes.dom() == Set::<u64>::full()
            &&& after.ring.wf()
            &&& plane.ring.sequence <= after.ring.sequence <= plane.ring.sequence + 2 * panes.len()
            &&& after.ring.capacity == plane.ring.capacity
        }),
        forall|p: u64|
            panes.contains(p) ==> #[trigger] blank_but_request(
                plane,
                plane.drop_panes(panes),
                p,
            ),
        forall|p: u64|
            !panes.contains(p) ==> #[trigger] plane.drop_panes(panes).panes[p] == plane.panes[p],
        forall|c: u64| #[trigger] shows_none(plane, plane.drop_panes(panes), panes, c),
        plane.live ==> forall|i: int|
            0 <= i < panes.len() ==> #[trigger] plane.drop_panes(panes).effects.contains(
                EffectView::RemovePane { pane: panes[i] },
            ),
        plane.live ==> forall|e: EffectView| #[trigger]
            plane.effects.contains(e) ==> plane.drop_panes(panes).effects.contains(e),
    decreases panes.len(),
{
    if panes.len() > 0 {
        let head = panes.drop_last();
        let last = panes.last();
        lemma_last_contained(panes);
        lemma_dropped(plane, head);
        let mid = plane.drop_panes(head);
        let after = plane.drop_panes(panes);
        assert(panes =~= head.push(last));
        assert forall|p: u64| panes.contains(p) implies #[trigger] blank_but_request(
            plane,
            after,
            p,
        ) by {
            if p != last {
                assert(head.contains(p));
                assert(blank_but_request(plane, mid, p));
            } else if head.contains(p) {
                assert(blank_but_request(plane, mid, p));
            }
        }
        assert forall|c: u64| #[trigger] shows_none(plane, after, panes, c) by {
            assert(shows_none(plane, mid, head, c));
            if plane.clients.contains_key(c) && plane.clients[c].focus is Some {
                let f = plane.clients[c].focus->0;
                assert(panes.contains(f) <==> head.contains(f) || f == last);
            }
        }
        if plane.live {
            lemma_forgotten_effects(
                mid.live_note(EffectView::RemovePane { pane: last }),
                last,
            );
            let noted = mid.effects.push(EffectView::RemovePane { pane: last });
            assert(noted[mid.effects.len() as int] == (EffectView::RemovePane { pane: last }));
            assert forall|e: EffectView| mid.effects.contains(e) implies #[trigger] noted.contains(
                e,
            ) by {
                let k = choose|k: int| 0 <= k < mid.effects.len() && mid.effects[k] == e;
                assert(noted[k] == e);
            }
            assert forall|i: int| 0 <= i < panes.len() implies #[trigger] after.effects.contains(
                EffectView::RemovePane { pane: panes[i] },
            ) by {
                if i < head.len() {
                    assert(head[i] == panes[i]);
                    assert(mid.effects.contains(EffectView::RemovePane { pane: head[i] }));
                }
                assert(noted.contains(EffectView::RemovePane { pane: panes[i] }));
            }
            assert forall|e: EffectView| #[trigger]
                plane.effects.contains(e) implies after.effects.contains(e) by {
                assert(mid.effects.contains(e));
                assert(noted.contains(e));
            }
        }
    }
}

/// Work for the host is not lost when a pane is forgotten.
proof fn lemma_forgotten_effects(plane: PlaneView, pane: u64)
    ensures
        forall|e: EffectView| #[trigger]
            plane.effects.contains(e) ==> plane.forget_pane(pane).effects.contains(e),
{
    let after = plane.forget_pane(pane);
    assert forall|e: EffectView| #[trigger] plane.effects.contains(e) implies after.effects.contains(
        e,
    ) by {
        let k = choose|k: int| 0 <= k < plane.effects.len() && plane.effects[k] == e;
        assert(after.effects[k] == e);
    }
}

/// A window that is ended is gone with all its panes, and with its session where it was
/// the last one of that. Nothing else of the topology changes. The host removes the panes.
pub proof fn an_ended_window_is_gone(plane: PlaneView, window: u64)
    requires
        plane.wf(),
    ensures
        ({
            let (after, result) = plane.destroy_window(window);
            let open = plane.ring.sequence < u64::MAX && plane.domain.windows.contains_key(window);
            let session = plane.domain.windows[window].session;
            let others = exists|w: u64| #[trigger]
                plane.domain.sessions[session].windows.contains(w) && w != window;
            &&& result is Ok <==> open
            &&& !open ==> after == plane
            &&& open ==> {
                &&& forall|w: u64|
                    #![trigger after.domain.windows.contains_key(w)]
                    {
                        &&& after.domain.windows.contains_key(w)
                            <==> plane.domain.windows.contains_key(w) && w != window
                        &&& after.domain.windows.contains_key(w) ==> after.domain.windows[w]
                            == plane.domain.windows[w] && after.frames.contains_key(w)
                            && after.frames[w] == plane.frames[w]
                    }
                &&& !after.frames.contains_key(window)
                &&& forall|p: u64|
                    #![trigger after.domain.panes.contains_key(p)]
                    {
                        &&& after.domain.panes.contains_key(p)
                            <==> plane.domain.panes.contains_key(p)
                            && plane.domain.panes[p].window != window
                        &&& after.domain.panes.contains_key(p) ==> after.domain.panes[p]
                            == plane.domain.panes[p] && after.panes[p] == plane.panes[p]
                    }
                &&& after.domain.sessions.contains_key(session) <==> others
                &&& forall|s: u64|
                    #![trigger after.domain.sessions.contains_key(s)]
                    s != session ==> (after.domain.sessions.contains_key(s)
                        <==> plane.domain.sessions.contains_key(s)) && (
                    plane.domain.sessions.contains_key(s) ==> after.domain.sessions[s]
                        == plane.domain.sessions[s])
            }
        }),
        ({
            let (after, result) = plane.destroy_window(window);
            let leaves = plane.domain.windows[window].layout.leaves();
            result is Ok ==> {
                &&& forall|p: u64|
                    leaves.contains(p) ==> #[trigger] blank_but_request(plane, after, p)
                &&& plane.live ==> forall|i: int|
                    0 <= i < leaves.len() ==> #[trigger] after.effects.contains(
                        EffectView::RemovePane { pane: leaves[i] },
                    )
                &&& forall|c: u64|
                    #![trigger after.clients.contains_key(c)]
                    {
                        &&& after.clients.contains_key(c) <==> plane.clients.contains_key(c)
                        &&& plane.clients.contains_key(c) ==> after.clients[c].window_view != Some(
                            window,
                        ) && !(after.clients[c].focus matches Some(f) && leaves.contains(f))
                    }
            }
        }),
        ({
            let (after, result) = plane.destroy_window(window);
            let session = plane.domain.windows[window].session;
            let leaves = plane.domain.windows[window].layout.leaves();
            result is Ok && plane.ring.sequence + 2 * leaves.len() < u64::MAX ==> {
                &&& after.ring.events.len() > 0
                &&& after.ring.events.last().event == (EventView::WindowDestroyed {
                    session_id: session,
                    window_id: window,
                    session_destroyed: !after.domain.sessions.contains_key(session),
                })
            }
        }),
{
    if plane.ring.sequence < u64::MAX && plane.domain.windows.contains_key(window) {
        let session = plane.domain.windows[window].session;
        let leaves = plane.domain.windows[window].layout.leaves();
        let mid = PlaneView {
            domain: plane.domain.destroy_window(window),
            frames: plane.frames.remove(window),
            ..plane
        };
        lemma_dropped(mid, leaves);
        let dropped = mid.drop_panes(leaves);
        let after = plane.destroy_window(window).0;
        lemma_nothing_left(plane.domain.sessions[session].windows, window);
        assert forall|p: u64| leaves.contains(p) implies #[trigger] blank_but_request(
            plane,
            after,
            p,
        ) by {
            assert(blank_but_request(mid, dropped, p));
        }
        assert forall|c: u64| #[trigger] after.clients.contains_key(c)
            <==> plane.clients.contains_key(c) by {
            assert(shows_none(mid, dropped, leaves, c));
        }
        assert forall|c: u64| #[trigger] after.clients.contains_key(c) implies after.clients[c].window_view
            != Some(window) && !(after.clients[c].focus matches Some(f) && leaves.contains(f)) by {
            assert(shows_none(mid, dropped, leaves, c));
        }
        assert forall|p: u64| #[trigger] after.domain.panes.contains_key(p) implies after.panes[p]
            == plane.panes[p] by {
            if leaves.contains(p) {
                assert(plane.domain.windows[window].layout.leaves().contains(p));
            }
            assert(dropped.panes[p] == mid.panes[p]);
        }
    }
}

/// A client is as it was but that it looks at no window of some.
spec fn looks_elsewhere(before: PlaneView, after: PlaneView, windows: Seq<u64>, c: u64) -> bool {
    &&& after.clients.contains_key(c) <==> before.clients.contains_key(c)
    &&& before.clients.contains_key(c) ==> {
        let was = before.clients[c];
        let is = after.clients[c];
        &&& is.window_view == if was.window_view is Some && windows.contains(was.window_view->0) {
            None
        } else {
            was.window_view
        }
        &&& is.view == was.view
        &&& is.focus == was.focus
        &&& is.viewer == was.viewer
    }
}

proof fn lemma_windows_dropped(plane: PlaneView, windows: Seq<u64>)
    ensures
        ({
            let after = plane.drop_windows(windows);
            &&& after.domain == plane.domain
            &&& after.ring == plane.ring
            &&& after.panes == plane.panes
            &&& after.effects == plane.effects
            &&& after.live == plane.live
        }),
        forall|w: u64|
            #![trigger plane.drop_windows(windows).frames.contains_key(w)]
            {
                let after = plane.drop_windows(windows);
                &&& after.frames.contains_key(w) <==> plane.frames.contains_key(w)
                    && !windows.contains(w)
                &&& after.frames.contains_key(w) ==> after.frames[w] == plane.frames[w]
            },
        forall|c: u64| #[trigger]
            looks_elsewhere(plane, plane.drop_windows(windows), windows, c),
    decreases windows.len(),
{
    if windows.len() > 0 {
        let head = windows.drop_last();
        let last = windows.last();
        lemma_last_contained(windows);
        lemma_windows_dropped(plane, head);
        assert(windows =~= head.push(last));
        let mid = plane.drop_windows(head);
        let after = plane.drop_windows(windows);
        assert forall|w: u64| #[trigger] after.frames.contains_key(w)
            <==> plane.frames.contains_key(w) && !windows.contains(w) by {
            assert(windows.contains(w) <==> head.contains(w) || w == last);
            assert(mid.frames.contains_key(w) <==> plane.frames.contains_key(w) && !head.contains(
                w,
            ));
        }
        assert forall|w: u64| #[trigger] after.frames.contains_key(w) implies after.frames[w]
            == plane.frames[w] by {
            assert(mid.frames.contains_key(w));
        }
        assert forall|c: u64| #[trigger] looks_elsewhere(plane, after, windows, c) by {
            assert(looks_elsewhere(plane, mid, head, c));
            if plane.clients.contains_key(c) && plane.clients[c].window_view is Some {
                let v = plane.clients[c].window_view->0;
                assert(windows.contains(v) <==> head.contains(v) || v == last);
            }
        }
    }
}

/// A session that is ended is gone with all its windows and panes, and its name is free
/// again. Nothing else of the topology changes.
pub proof fn an_ended_session_is_gone(plane: PlaneView, session: u64)
    requires
        plane.wf(),
    ensures
        ({
            let (after, result) = plane.destroy_session(session);
            let open = plane.ring.sequence < u64::MAX && plane.domain.sessions.contains_key(
                session,
            );
            &&& result is Ok <==> open
            &&& !open ==> after == plane
            &&& open ==> {
                &&& after.domain.sessions =~= plane.domain.sessions.remove(session)
                &&& forall|w: u64|
                    #![trigger after.domain.windows.contains_key(w)]
                    {
                        &&& after.domain.windows.contains_key(w)
                            <==> plane.domain.windows.contains_key(w)
                            && plane.domain.windows[w].session != session
                        &&& after.domain.windows.contains_key(w) ==> after.domain.windows[w]
                            == plane.domain.windows[w] && after.frames[w] == plane.frames[w]
                    }
                &&& forall|p: u64|
                    #![trigger after.domain.panes.contains_key(p)]
                    {
                        &&& after.domain.panes.contains_key(p)
                            <==> plane.domain.panes.contains_key(p) && home(plane, p) != session
                        &&& after.domain.panes.contains_key(p) ==> after.domain.panes[p]
                            == plane.domain.panes[p] && after.panes[p] == plane.panes[p]
                    }
            }
        }),
        ({
            let (after, result) = plane.destroy_session(session);
            result is Ok ==> {
                &&& after.effects.contains(
                    EffectView::UnbindAgent { session: plane.domain.sessions[session].name },
                ) || !plane.live
                &&& forall|p: u64|
                    plane.domain.panes.contains_key(p) && home(plane, p) == session
                        ==> #[trigger] blank_but_request(plane, after, p)
                &&& plane.live ==> forall|p: u64| #[trigger]
                    plane.domain.panes.contains_key(p) && home(plane, p) == session
                        ==> after.effects.contains(EffectView::RemovePane { pane: p })
                &&& forall|c: u64|
                    #![trigger after.clients.contains_key(c)]
                    {
                        &&& after.clients.contains_key(c) <==> plane.clients.contains_key(c)
                        &&& plane.clients.contains_key(c) ==> {
                            &&& after.clients[c].view != Some(session)
                            &&& after.clients[c].view is None ==> plane.clients[c].view is None
                                || plane.clients[c].view == Some(session)
                            &&& after.clients[c].window_view matches Some(w)
                                ==> !plane.domain.sessions[session].windows.contains(w)
                        }
                    }
            }
        }),
        ({
            let (after, result) = plane.destroy_session(session);
            result is Ok && plane.ring.sequence + 2 * plane.domain.session_panes(session).len()
                < u64::MAX ==> {
                &&& after.ring.events.len() > 0
                &&& after.ring.events.last().event == (EventView::SessionDestroyed {
                    session_id: session,
                    name: plane.domain.sessions[session].name,
                })
            }
        }),
{
    if plane.ring.sequence < u64::MAX && plane.domain.sessions.contains_key(session) {
        let windows = plane.domain.sessions[session].windows;
        let panes = plane.domain.session_panes(session);
        let name = plane.domain.sessions[session].name;
        let unbound = plane.note(EffectView::UnbindAgent { session: name });
        let start = PlaneView { domain: plane.domain.destroy_session(session), ..unbound };
        lemma_windows_dropped(start, windows);
        let mid = start.drop_windows(windows);
        lemma_dropped(mid, panes);
        let dropped = mid.drop_panes(panes);
        let after = plane.destroy_session(session).0;
        assert forall|w: u64| #[trigger]
            windows.contains(w) implies plane.domain.windows.contains_key(w)
            && plane.domain.windows[w].session == session by {
            assert(plane.domain.sessions[session].windows.contains(w));
        }
        lemma_panes_of_windows(plane, windows);
        assert forall|p: u64| #[trigger] panes.contains(p) <==> plane.domain.panes.contains_key(p)
            && home(plane, p) == session by {
            if plane.domain.panes.contains_key(p) {
                assert(plane.domain.windows.contains_key(plane.domain.panes[p].window));
            }
        }
        assert(unbound.effects[plane.effects.len() as int] == (EffectView::UnbindAgent {
            session: name,
        }));
        assert(mid.effects.contains(EffectView::UnbindAgent { session: name }));
        assert forall|p: u64|
            plane.domain.panes.contains_key(p) && home(plane, p) == session implies #[trigger] blank_but_request(
        plane, after, p) by {
            assert(panes.contains(p));
            assert(blank_but_request(mid, dropped, p));
        }
        assert forall|p: u64| #[trigger] after.domain.panes.contains_key(p) implies after.panes[p]
            == plane.panes[p] by {
            assert(!panes.contains(p));
            assert(dropped.panes[p] == mid.panes[p]);
        }
        assert forall|w: u64| #[trigger] after.domain.windows.contains_key(w) implies after.frames[w]
            == plane.frames[w] by {
            assert(!windows.contains(w));
            assert(plane.frames.contains_key(w));
            assert(mid.frames.contains_key(w));
        }
        if plane.live {
            assert forall|p: u64| #[trigger] plane.domain.panes.contains_key(p) && home(plane, p)
                == session implies after.effects.contains(EffectView::RemovePane { pane: p }) by {
                assert(panes.contains(p));
                let i = choose|i: int| 0 <= i < panes.len() && panes[i] == p;
                assert(dropped.effects.contains(EffectView::RemovePane { pane: panes[i] }));
            }
        }
        assert forall|c: u64| #[trigger] after.clients.contains_key(c)
            <==> plane.clients.contains_key(c) by {
            assert(looks_elsewhere(start, mid, windows, c));
            assert(shows_none(mid, dropped, panes, c));
        }
        assert forall|c: u64| #[trigger] after.clients.contains_key(c) implies {
            &&& after.clients[c].view != Some(session)
            &&& after.clients[c].view is None ==> plane.clients[c].view is None
                || plane.clients[c].view == Some(session)
            &&& after.clients[c].window_view matches Some(w) ==> !windows.contains(w)
        } by {
            assert(looks_elsewhere(start, mid, windows, c));
            assert(shows_none(mid, dropped, panes, c));
        }
    }
}

/// Every name that a new session cannot take is listed, once, in order of the alphabet:
/// those of sessions and agents, the aliases, and the reserved ones.
pub proof fn used_names_are_told(plane: PlaneView, reserved: Seq<Seq<char>>)
    requires
        plane.wf(),
    ensures
        plane.session_names(None) == StepView::Wait(AskView::StoreReserved),
        ({
            let step = plane.session_names(Some(Ok(reserved)));
            &&& step matches StepView::Reply(Ok(DataView::SessionNames { names }))
            &&& forall|x: Seq<char>| #[trigger]
                names.contains(x) <==> reserved.contains(x) || plane.aliases.contains_key(x)
                    || exists|s: u64| #[trigger]
                    plane.domain.sessions.contains_key(s) && (plane.domain.sessions[s].name == x
                        || plane.domain.sessions[s].agent_id == Some(x))
            &&& forall|i: int, j: int|
                0 <= i < j < names.len() ==> text_less(#[trigger] names[i], #[trigger] names[j])
        }),
{
    plane.used_names_are_listed(reserved);
    let d = plane.used_names(reserved);
    let names = crate::order::sorted_texts(d);
    assert forall|x: Seq<char>| #[trigger] names.contains(x) <==> reserved.contains(x)
        || plane.aliases.contains_key(x) || exists|s: u64| #[trigger]
        plane.domain.sessions.contains_key(s) && (plane.domain.sessions[s].name == x
            || plane.domain.sessions[s].agent_id == Some(x)) by {
        assert(names.contains(x) <==> d.contains(x));
        if exists|s: u64| #[trigger]
            plane.domain.sessions.contains_key(s) && (plane.domain.sessions[s].name == x
                || plane.domain.sessions[s].agent_id == Some(x)) {
            let s = choose|s: u64| #[trigger]
                plane.domain.sessions.contains_key(s) && (plane.domain.sessions[s].name == x
                    || plane.domain.sessions[s].agent_id == Some(x));
            assert(s != 0);
        }
    }
}

/// A session that is named bears that name, and its agent does, too: who was addressed by
/// an alias of the agent still is. The store moves the letters first.
pub proof fn a_named_session_bears_the_name(
    plane: PlaneView,
    session: u64,
    asked: Seq<char>,
    name: Seq<char>,
    resolved: Seq<char>,
    renamed: Option<Result<Option<u32>, Seq<char>>>,
    now: u64,
)
    requires
        plane.wf(),
        plane.ring.sequence + 1 < u64::MAX,
    ensures
        plane.name_session(session, asked, None, renamed, now) == (
            plane,
            StepView::Wait(AskView::Seat { name: trimmed(asked) }),
        ),
        ({
            let address = Some(AddressView::Found { name, resolved });
            let (after, step) = plane.name_session(session, asked, address, renamed, now);
            let was = plane.domain.sessions[session];
            let agent = if was.agent_id is Some {
                was.agent_id->0
            } else {
                name
            };
            let open = plane.domain.sessions.contains_key(session) && (resolved == name || resolved
                == agent) && (plane.aliases.contains_key(name) ==> plane.aliases[name] == agent)
                && forall|s: u64| #[trigger]
                plane.domain.sessions.contains_key(s) && s != session
                    ==> plane.domain.sessions[s].name != name
                    && plane.domain.sessions[s].agent_id != Some(name);
            &&& !open ==> after == plane && refuses(step)
            &&& open && renamed is None ==> after == plane && step == StepView::Wait(
                AskView::StoreRename { old_agent: agent, agent: name },
            )
            &&& open && renamed is Some && renamed->0 is Err ==> after == plane && refuses(step)
            &&& open && renamed is Some && renamed->0 is Ok ==> {
                &&& acknowledges(after, step)
                &&& after.domain.sessions[session].name == name
                &&& after.domain.sessions[session].agent_id == Some(name)
                &&& after.domain.sessions[session].space_id == was.space_id
                &&& after.domain.sessions[session].windows == was.windows
                &&& forall|s: u64|
                    #![trigger after.domain.sessions.contains_key(s)]
                    {
                        &&& after.domain.sessions.contains_key(s)
                            <==> plane.domain.sessions.contains_key(s)
                        &&& s != session && plane.domain.sessions.contains_key(s)
                            ==> after.domain.sessions[s] == plane.domain.sessions[s]
                    }
                &&& after.domain.windows == plane.domain.windows
                &&& after.domain.panes == plane.domain.panes
                &&& after.frames == plane.frames
            }
        }),
        ({
            let address = Some(AddressView::Found { name, resolved });
            let (after, step) = plane.name_session(session, asked, address, renamed, now);
            let was = plane.domain.sessions[session];
            let agent = if was.agent_id is Some {
                was.agent_id->0
            } else {
                name
            };
            done(step) ==> {
                &&& forall|x: Seq<char>|
                    #![trigger after.aliases.contains_key(x)]
                    {
                        &&& after.aliases.contains_key(x) <==> plane.aliases.contains_key(x) && x
                            != name
                        &&& after.aliases.contains_key(x) ==> after.aliases[x]
                            == if plane.aliases[x] == agent {
                            name
                        } else {
                            plane.aliases[x]
                        }
                    }
                &&& after.effects.contains(EffectView::UnbindAgent { session: was.name })
                &&& after.effects.contains(EffectView::BindAgent { session: name, agent: name })
                &&& after.effects.contains(EffectView::RingMail)
                &&& after.ring.events.len() > 0
                &&& after.ring.events.last().event == (EventView::SessionNamed {
                    session_id: session,
                    name,
                })
            }
        }),
{
    let address = Some(AddressView::Found { name, resolved });
    let (after, step) = plane.name_session(session, asked, address, renamed, now);
    if done(step) {
        let was = plane.domain.sessions[session];
        let n = plane.effects.len() as int;
        assert(after.effects[n] == (EffectView::UnbindAgent { session: was.name }));
        assert(after.effects[n + 1] == (EffectView::BindAgent { session: name, agent: name }));
        assert(after.effects.last() == EffectView::RingMail);
        lemma_last_effect(after.effects);
    }
}

proof fn lemma_last_effect(effects: Seq<EffectView>)
    requires
        effects.len() > 0,
    ensures
        effects.contains(effects.last()),
{
    assert(effects[effects.len() - 1] == effects.last());
}

} // verus!
