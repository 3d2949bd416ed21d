//! What clients are for: who may write to a pane, who looks at what, and what becomes of
//! it when a client goes.
use vstd::prelude::*;

use crate::error::ControlErrorCode;
use crate::event::EventView;
use crate::idmap::group_views;
use crate::laws::layout::refuses;
use crate::laws::moving::home;
use crate::laws::relations::{lemma_published_is_told, same_settings, tells};
use crate::laws::sizing::lemma_first_id;
use crate::model::group_seq_views;
use crate::plane::PlaneView;
use crate::response::DataView;
use crate::state::{group_pane_states, EffectView};
use crate::step::StepView;
use crate::wire::ViewerId;

verus! {

broadcast use {group_views, group_seq_views, group_pane_states, lemma_published_is_told};

/// A client may touch a pane: it is bound to no Space, or to that of the pane.
pub open spec fn reaches(plane: PlaneView, client: u64, pane: u64) -> bool {
    plane.clients[client].space matches Some(space)
        ==> plane.domain.sessions[home(plane, pane)].space_id == Some(space)
}

/// Nothing but the controller of one pane changed in the topology.
pub open spec fn only_controller(
    before: PlaneView,
    after: PlaneView,
    pane: u64,
    controller: Option<u64>,
) -> bool {
    &&& after.domain.sessions == before.domain.sessions
    &&& after.domain.windows == before.domain.windows
    &&& after.frames == before.frames
    &&& after.panes == before.panes
    &&& after.clients == before.clients
    &&& same_settings(before, after)
    &&& forall|p: u64|
        #![trigger after.domain.panes.contains_key(p)]
        after.domain.panes.contains_key(p) <==> before.domain.panes.contains_key(p)
    &&& forall|p: u64|
        p != pane && #[trigger] before.domain.panes.contains_key(p) ==> after.domain.panes[p]
            == before.domain.panes[p]
    &&& after.domain.panes[pane].controller == controller
    &&& after.domain.panes[pane].title == before.domain.panes[pane].title
    &&& after.domain.panes[pane].window == before.domain.panes[pane].window
}

/// A new client gets a number that no client had, looks at the oldest session, and is
/// bound to nothing.
pub proof fn a_client_starts_unbound(plane: PlaneView, viewer: ViewerId)
    requires
        plane.wf(),
    ensures
        ({
            let (after, result) = plane.register(viewer);
            let client = plane.domain.next_client;
            &&& client == u64::MAX ==> after == plane && result is Err && result->Err_0.code
                == ControlErrorCode::Internal
            &&& client < u64::MAX ==> {
                &&& result == Ok::<DataView, crate::error::ErrorView>(
                    DataView::ClientRegistered { client_id: client },
                )
                &&& after.domain.next_client == client + 1
                &&& after.clients.contains_key(client)
                &&& after.clients[client].viewer == viewer
                &&& after.clients[client].space is None
                &&& after.clients[client].window_view is None
                &&& after.clients[client].focus is None
                &&& after.clients[client].agent is None
                &&& after.clients[client].viewports.dom() =~= Set::<u64>::empty()
                &&& !after.clients[client].host
                &&& after.domain.sessions == plane.domain.sessions
                &&& after.domain.windows == plane.domain.windows
                &&& after.domain.panes == plane.domain.panes
                &&& after.panes == plane.panes
                &&& after.frames == plane.frames
                &&& after.ring == plane.ring
                &&& after.effects == plane.effects
                &&& forall|c: u64|
                    #![trigger after.clients.contains_key(c)]
                    c != client ==> (after.clients.contains_key(c)
                        <==> plane.clients.contains_key(c)) && (plane.clients.contains_key(c)
                        ==> after.clients[c] == plane.clients[c])
            }
        }),
        ({
            let (after, result) = plane.register(viewer);
            result is Ok ==> match after.clients[plane.domain.next_client].view {
                Some(session) => plane.domain.sessions.contains_key(session) && forall|s: u64|
                    #[trigger]
                    plane.domain.sessions.contains_key(s) ==> session <= s,
                None => plane.domain.sessions.dom() =~= Set::<u64>::empty(),
            }
        }),
{
    lemma_first_id(plane.domain.sessions.dom());
}

/// A free lease goes to the client that asks for it; one that another client holds stays
/// where it is, and the answer names the holder.
pub proof fn a_lease_goes_to_who_asks_first(plane: PlaneView, client: u64, pane: u64)
    requires
        plane.wf(),
    ensures
        ({
            let (after, result) = plane.acquire_lease(client, pane);
            let open = plane.ring.sequence < u64::MAX && plane.clients.contains_key(client)
                && plane.domain.panes.contains_key(pane) && reaches(plane, client, pane);
            let holder = plane.domain.panes[pane].controller;
            let free = holder is None || holder == Some(client);
            &&& result is Ok <==> open && free
            &&& result is Err ==> after == plane
            &&& open && !free ==> result->Err_0.code == ControlErrorCode::LeaseHeld
                && result->Err_0.holder == holder
            &&& result is Ok ==> {
                &&& result->Ok_0 == (DataView::Lease {
                    pane_id: pane,
                    controller_id: Some(client),
                    previous_controller_id: holder,
                })
                &&& only_controller(plane, after, pane, Some(client))
                &&& plane.live ==> after.effects =~= plane.effects.push(
                    EffectView::NoteController { pane, controller: Some(client) },
                )
                &&& !plane.live ==> after.effects == plane.effects
            }
        }),
        ({
            let (after, result) = plane.acquire_lease(client, pane);
            result is Ok ==> tells(
                plane.ring,
                after.ring,
                EventView::LeaseChanged {
                    pane_id: pane,
                    controller_id: Some(client),
                    previous_controller_id: plane.domain.panes[pane].controller,
                },
            )
        }),
{
}

/// Only who holds a lease gives it up, and then nobody has it; the viewer of the client
/// leaves the pane in any case.
pub proof fn a_released_lease_is_free(plane: PlaneView, client: u64, pane: u64)
    requires
        plane.wf(),
    ensures
        ({
            let (after, result) = plane.release_lease(client, pane);
            let open = plane.ring.sequence < u64::MAX && plane.clients.contains_key(client)
                && plane.domain.panes.contains_key(pane);
            let holder = plane.domain.panes[pane].controller;
            let away = EffectView::RevokeViewer { pane, viewer: plane.clients[client].viewer };
            &&& result is Ok <==> open && holder == Some(client)
            &&& !open ==> after == plane
            &&& open && result is Err ==> {
                &&& result->Err_0.code == ControlErrorCode::NotController
                &&& result->Err_0.holder == holder
                &&& after.domain == plane.domain
                &&& after.ring == plane.ring
                &&& plane.live ==> after.effects =~= plane.effects.push(away)
            }
            &&& result is Ok ==> {
                &&& result->Ok_0 == (DataView::Lease {
                    pane_id: pane,
                    controller_id: None,
                    previous_controller_id: Some(client),
                })
                &&& only_controller(plane, after, pane, None)
                &&& plane.live ==> after.effects =~= plane.effects.push(away).push(
                    EffectView::NoteController { pane, controller: None },
                )
            }
        }),
        ({
            let (after, result) = plane.release_lease(client, pane);
            result is Ok ==> tells(
                plane.ring,
                after.ring,
                EventView::LeaseChanged {
                    pane_id: pane,
                    controller_id: None,
                    previous_controller_id: Some(client),
                },
            )
        }),
{
}

/// A takeover gives the lease to the client whoever held it; the viewer of the former
/// holder leaves the pane.
pub proof fn a_takeover_takes_the_lease(plane: PlaneView, client: u64, pane: u64)
    requires
        plane.wf(),
    ensures
        ({
            let (after, result) = plane.takeover_lease(client, pane);
            let open = plane.ring.sequence < u64::MAX && plane.clients.contains_key(client)
                && plane.domain.panes.contains_key(pane) && reaches(plane, client, pane);
            let holder = plane.domain.panes[pane].controller;
            let told = plane.effects.push(
                EffectView::NoteController { pane, controller: Some(client) },
            );
            &&& result is Ok <==> open
            &&& result is Err ==> after == plane
            &&& result is Ok ==> {
                &&& result->Ok_0 == (DataView::Lease {
                    pane_id: pane,
                    controller_id: Some(client),
                    previous_controller_id: holder,
                })
                &&& only_controller(plane, after, pane, Some(client))
                &&& plane.live && holder is Some && plane.clients.contains_key(holder->0)
                    ==> after.effects =~= told.push(
                    EffectView::RevokeViewer { pane, viewer: plane.clients[holder->0].viewer },
                )
                &&& plane.live && (holder is None || !plane.clients.contains_key(holder->0))
                    ==> after.effects =~= told
            }
        }),
        ({
            let (after, result) = plane.takeover_lease(client, pane);
            result is Ok ==> tells(
                plane.ring,
                after.ring,
                EventView::LeaseChanged {
                    pane_id: pane,
                    controller_id: Some(client),
                    previous_controller_id: plane.domain.panes[pane].controller,
                },
            )
        }),
{
}

/// A client that goes away is forgotten and holds nothing any more; what the others hold
/// stays. The answer lists, in order, the panes that it gave up, and the windows that it
/// had sized are fitted anew.
pub proof fn a_client_that_goes_holds_nothing(plane: PlaneView, client: u64)
    requires
        plane.wf(),
    ensures
        ({
            let (after, step) = plane.disconnect(client);
            let open = plane.ring.sequence < u64::MAX && plane.clients.contains_key(client);
            &&& !open ==> after == plane && refuses(step)
            &&& open ==> {
                &&& after.clients =~= plane.clients.remove(client)
                &&& after.domain.sessions == plane.domain.sessions
                &&& after.domain.windows == plane.domain.windows
                &&& after.frames == plane.frames
                &&& after.panes == plane.panes
                &&& after.latest == plane.latest
                &&& forall|p: u64|
                    #![trigger after.domain.panes.contains_key(p)]
                    {
                        &&& after.domain.panes.contains_key(p)
                            <==> plane.domain.panes.contains_key(p)
                        &&& plane.domain.panes.contains_key(p) ==> {
                            let was = plane.domain.panes[p];
                            let is = after.domain.panes[p];
                            &&& is.window == was.window
                            &&& is.title == was.title
                            &&& is.title_pinned == was.title_pinned
                            &&& is.controller == if was.controller == Some(client) {
                                None
                            } else {
                                was.controller
                            }
                        }
                    }
            }
        }),
        ({
            let (after, step) = plane.disconnect(client);
            plane.ring.sequence < u64::MAX && plane.clients.contains_key(client) ==> {
                &&& step matches StepView::Refit {
                    client: gone,
                    windows,
                    reply: DataView::LeasesReleased { client_id, pane_ids },
                }
                &&& gone == client
                &&& client_id == client
                &&& forall|p: u64| #[trigger]
                    pane_ids.contains(p) <==> plane.domain.panes.contains_key(p)
                        && plane.domain.panes[p].controller == Some(client)
                &&& forall|i: int, j: int|
                    0 <= i < j < pane_ids.len() ==> #[trigger] pane_ids[i] < #[trigger] pane_ids[j]
                &&& forall|w: u64| #[trigger]
                    windows.contains(w) <==> plane.clients[client].viewports.contains_key(w)
                &&& forall|i: int, j: int|
                    0 <= i < j < windows.len() ==> #[trigger] windows[i] < #[trigger] windows[j]
            }
        }),
{
    if plane.ring.sequence < u64::MAX && plane.clients.contains_key(client) {
        let panes = crate::idmap::sorted_ids(plane.domain.held_by(client));
        let freed = PlaneView { domain: plane.domain.release_all(client), ..plane };
        lemma_lost_leases(freed, panes, client, plane.clients[client].viewer);
        lemma_listed(plane.domain.held_by(client));
        lemma_listed(plane.clients[client].viewports.dom());
    }
}

/// Each lease that a client loses is told of, as free and as formerly its own; the last
/// event names the last of the panes. Its viewer leaves each of them.
pub proof fn lost_leases_are_told(plane: PlaneView, client: u64)
    requires
        plane.wf(),
        plane.clients.contains_key(client),
    ensures
        ({
            let (after, step) = plane.disconnect(client);
            step matches StepView::Refit {
                reply: DataView::LeasesReleased { pane_ids, .. },
                ..
            } ==> (plane.ring.sequence + pane_ids.len() <= u64::MAX ==> {
                &&& after.ring.sequence == plane.ring.sequence + pane_ids.len()
                &&& pane_ids.len() > 0 ==> after.ring.events.len() > 0
                    && after.ring.events.last().event == (EventView::LeaseChanged {
                    pane_id: pane_ids.last(),
                    controller_id: None,
                    previous_controller_id: Some(client),
                })
                &&& plane.live ==> after.effects.len() == plane.effects.len() + pane_ids.len()
                    && forall|i: int|
                    0 <= i < pane_ids.len() ==> #[trigger] after.effects[plane.effects.len() + i]
                        == (EffectView::RevokeViewer {
                        pane: pane_ids[i],
                        viewer: plane.clients[client].viewer,
                    })
            })
        }),
{
    if plane.ring.sequence < u64::MAX {
        let panes = crate::idmap::sorted_ids(plane.domain.held_by(client));
        let freed = PlaneView { domain: plane.domain.release_all(client), ..plane };
        lemma_lost_leases(freed, panes, client, plane.clients[client].viewer);
    }
}

/// A sorted list of ids holds exactly the ids, each before the larger ones.
pub proof fn lemma_listed(d: Set<u64>)
    ensures
        forall|k: u64| #[trigger] crate::idmap::sorted_ids(d).contains(k) <==> d.contains(k),
        forall|i: int, j: int|
            0 <= i < j < crate::idmap::sorted_ids(d).len() ==> #[trigger] crate::idmap::sorted_ids(
                d,
            )[i] < #[trigger] crate::idmap::sorted_ids(d)[j],
{
    crate::idmap::lemma_ids_are_listed(d);
}

/// Telling of lost leases changes the history and the work for the host, nothing else.
proof fn lemma_lost_leases(plane: PlaneView, panes: Seq<u64>, client: u64, viewer: ViewerId)
    requires
        plane.ring.wf(),
    ensures
        plane.leases_lost(panes, client, viewer).ring.wf(),
        plane.ring.sequence + panes.len() <= u64::MAX ==> ({
            let after = plane.leases_lost(panes, client, viewer);
            &&& after.ring.sequence == plane.ring.sequence + panes.len()
            &&& panes.len() > 0 ==> after.ring.events.len() > 0
                && after.ring.events.last().event == (EventView::LeaseChanged {
                pane_id: panes.last(),
                controller_id: None,
                previous_controller_id: Some(client),
            })
        }),
        ({
            let after = plane.leases_lost(panes, client, viewer);
            &&& after.domain == plane.domain
            &&& after.clients == plane.clients
            &&& after.frames == plane.frames
            &&& after.panes == plane.panes
            &&& after.latest == plane.latest
            &&& after.live == plane.live
            &&& plane.live ==> after.effects.len() == plane.effects.len() + panes.len()
                && after.effects.take(plane.effects.len() as int) =~= plane.effects && forall|
                i: int,
            |
                0 <= i < panes.len() ==> #[trigger] after.effects[plane.effects.len() + i]
                    == (EffectView::RevokeViewer { pane: panes[i], viewer })
        }),
    decreases panes.len(),
{
    if panes.len() > 0 {
        lemma_lost_leases(plane, panes.drop_last(), client, viewer);
    }
}

} // verus!
