//! What labels, focus and the views of clients are for.
use vstd::prelude::*;

use crate::error::ControlErrorCode;
use crate::event::EventView;
use crate::idmap::group_views;
use crate::laws::layout::{acknowledges, refuses};
use crate::laws::relations::{
    lemma_published_is_told,
    only_client,
    only_pane,
    same_clients,
    tells,
};
use crate::model::group_seq_views;
use crate::plane::PlaneView;
use crate::response::{DataView, MutationAck};
use crate::state::{group_pane_states, AskView, EffectView};
use crate::step::StepView;
use crate::text::{any_control, byte_count, trimmed};

verus! {

broadcast use {group_views, group_seq_views, group_pane_states, lemma_published_is_told};

/// A change was accepted, and the answer says how far the history is.
pub open spec fn accepted(
    after: PlaneView,
    result: Result<DataView, crate::error::ErrorView>,
) -> bool {
    result == Ok::<DataView, crate::error::ErrorView>(
        DataView::Mutation { ack: MutationAck { sequence: after.ring.sequence as u64 } },
    )
}

/// A client that turns elsewhere no longer shows the pane it showed: its viewer leaves.
pub open spec fn turned_away(before: PlaneView, after: PlaneView, client: u64) -> bool {
    &&& after.clients[client].focus is None
    &&& after.effects =~= if before.live && before.clients[client].focus is Some {
        before.effects.push(
            EffectView::RevokeViewer {
                pane: before.clients[client].focus->0,
                viewer: before.clients[client].viewer,
            },
        )
    } else {
        before.effects
    }
}

/// A client keeps everything but what it looks at.
pub open spec fn same_but_view(before: PlaneView, after: PlaneView, client: u64) -> bool {
    &&& after.clients.contains_key(client)
    &&& after.clients[client].viewer == before.clients[client].viewer
    &&& after.clients[client].space == before.clients[client].space
    &&& after.clients[client].agent == before.clients[client].agent
    &&& after.clients[client].viewports == before.clients[client].viewports
    &&& after.clients[client].host == before.clients[client].host
}

/// A client that selects a session looks at that one, and is told of its first window and
/// that window's first pane.
pub proof fn a_selected_session_is_looked_at(plane: PlaneView, client: u64, session: u64)
    requires
        plane.wf(),
    ensures
        ({
            let (after, result) = plane.switch_session(client, session);
            let windows = plane.domain.sessions[session].windows;
            let open = plane.ring.sequence < u64::MAX && plane.clients.contains_key(client)
                && plane.domain.sessions.contains_key(session) && windows.len() > 0;
            let window = windows.first();
            let pane = plane.domain.windows[window].layout.leaves().first();
            &&& result is Ok <==> open
            &&& !open ==> after == plane
            &&& open ==> {
                &&& after.clients[client].view == Some(session)
                &&& after.clients[client].window_view == plane.clients[client].window_view
                &&& same_but_view(plane, after, client)
                &&& turned_away(plane, after, client)
                &&& only_client(plane, after, client)
                &&& result->Ok_0 == (DataView::Session {
                    session_id: session,
                    name: plane.domain.sessions[session].name,
                    window_id: window,
                    pane_id: pane,
                })
                &&& tells(
                    plane.ring,
                    after.ring,
                    EventView::SessionSwitched {
                        client_id: client,
                        session_id: session,
                        window_id: window,
                        pane_id: pane,
                    },
                )
            }
        }),
{
}

/// A client that selects a window looks at that one, and is told of its first pane.
pub proof fn a_selected_window_is_looked_at(plane: PlaneView, client: u64, window: u64)
    requires
        plane.wf(),
    ensures
        ({
            let (after, result) = plane.switch_window(client, window);
            let open = plane.ring.sequence < u64::MAX && plane.clients.contains_key(client)
                && plane.domain.windows.contains_key(window);
            let pane = plane.domain.windows[window].layout.leaves().first();
            &&& result is Ok <==> open
            &&& !open ==> after == plane
            &&& open ==> {
                &&& after.clients[client].window_view == Some(window)
                &&& after.clients[client].view == plane.clients[client].view
                &&& same_but_view(plane, after, client)
                &&& turned_away(plane, after, client)
                &&& only_client(plane, after, client)
                &&& result->Ok_0 == (DataView::Window {
                    session_id: plane.domain.windows[window].session,
                    window_id: window,
                    pane_id: pane,
                    title: plane.domain.windows[window].title,
                })
                &&& tells(
                    plane.ring,
                    after.ring,
                    EventView::WindowSwitched {
                        client_id: client,
                        session_id: plane.domain.windows[window].session,
                        window_id: window,
                        pane_id: pane,
                    },
                )
            }
        }),
{
}

/// Nothing changed but one window's title and its setting for shared input.
pub open spec fn only_window_label(
    before: PlaneView,
    after: PlaneView,
    window: u64,
    title: Seq<char>,
    sync_input: bool,
) -> bool {
    &&& after.domain.sessions == before.domain.sessions
    &&& after.domain.panes == before.domain.panes
    &&& after.panes == before.panes
    &&& after.frames == before.frames
    &&& after.effects == before.effects
    &&& same_clients(before, after)
    &&& forall|w: u64|
        #![trigger after.domain.windows.contains_key(w)]
        {
            &&& after.domain.windows.contains_key(w) <==> before.domain.windows.contains_key(w)
            &&& w != window && before.domain.windows.contains_key(w) ==> after.domain.windows[w]
                == before.domain.windows[w]
        }
    &&& after.domain.windows[window].title == title
    &&& after.domain.windows[window].sync_input == sync_input
    &&& after.domain.windows[window].layout == before.domain.windows[window].layout
    &&& after.domain.windows[window].session == before.domain.windows[window].session
}

/// A window takes the title that was requested, without the white space around it, unless
/// that leaves nothing, more than 64 bytes, or a NUL.
pub proof fn a_renamed_window_bears_the_title(plane: PlaneView, window: u64, title: Seq<char>)
    requires
        plane.wf(),
    ensures
        ({
            let (after, result) = plane.rename_window(window, title);
            let label = trimmed(title);
            let open = plane.ring.sequence < u64::MAX && plane.domain.windows.contains_key(window)
                && label.len() > 0 && byte_count(label) <= 64 && !label.contains('\0');
            &&& result is Ok <==> open
            &&& !open ==> after == plane
            &&& open ==> {
                &&& only_window_label(
                    plane,
                    after,
                    window,
                    label,
                    plane.domain.windows[window].sync_input,
                )
                &&& result->Ok_0 == (DataView::Window {
                    session_id: plane.domain.windows[window].session,
                    window_id: window,
                    pane_id: plane.domain.windows[window].layout.leaves().first(),
                    title: label,
                })
                &&& tells(
                    plane.ring,
                    after.ring,
                    EventView::WindowRenamed { window_id: window, title: label },
                )
            }
        }),
{
}

/// A window shares its input exactly as it was last told to.
pub proof fn shared_input_is_as_set(plane: PlaneView, client: u64, window: u64, enabled: bool)
    requires
        plane.wf(),
    ensures
        ({
            let (after, result) = plane.set_sync_input(client, window, enabled);
            let open = plane.ring.sequence < u64::MAX && plane.clients.contains_key(client)
                && plane.domain.windows.contains_key(window);
            &&& result is Ok <==> open
            &&& !open ==> after == plane
            &&& open ==> {
                &&& accepted(after, result)
                &&& only_window_label(
                    plane,
                    after,
                    window,
                    plane.domain.windows[window].title,
                    enabled,
                )
                &&& tells(
                    plane.ring,
                    after.ring,
                    EventView::SyncInputChanged { window_id: window, enabled },
                )
            }
        }),
{
}

/// A note on a pane may be told: it is at most 64 bytes long without the white space around
/// it, and no control character stands in it.
pub open spec fn note_fits(text: Seq<char>) -> bool {
    byte_count(trimmed(text)) <= 64 && !any_control(trimmed(text))
}

/// A pane shows the status that was set last, without the white space around it; an empty
/// one clears it.
pub proof fn a_status_is_kept(plane: PlaneView, pane: u64, text: Option<Seq<char>>)
    requires
        plane.wf(),
    ensures
        ({
            let (after, result) = plane.set_pane_status(pane, text);
            let open = plane.ring.sequence < u64::MAX && plane.domain.panes.contains_key(pane) && (
            text matches Some(t) ==> note_fits(t));
            let status = if text is Some && trimmed(text->0).len() > 0 {
                Some(trimmed(text->0))
            } else {
                None
            };
            &&& result is Ok <==> open
            &&& !open ==> after == plane
            &&& open ==> {
                &&& accepted(after, result)
                &&& after.panes[pane].status == status
                &&& after.panes[pane].mail == plane.panes[pane].mail
                &&& after.panes[pane].attention == plane.panes[pane].attention
                &&& after.panes[pane].team == plane.panes[pane].team
                &&& after.panes[pane].spawn == plane.panes[pane].spawn
                &&& after.panes[pane].output == plane.panes[pane].output
                &&& after.panes[pane].nudge == plane.panes[pane].nudge
                &&& only_pane(plane, after, pane)
                &&& after.effects =~= if plane.live {
                    plane.effects.push(EffectView::LogStatus { pane, status })
                } else {
                    plane.effects
                }
                &&& tells(
                    plane.ring,
                    after.ring,
                    EventView::PaneStatusChanged { pane_id: pane, status },
                )
            }
        }),
{
}

/// A pane bears the title that was set last, without the white space around it, and keeps
/// it for good; an empty one lets it go.
pub proof fn a_renamed_pane_bears_the_title(plane: PlaneView, pane: u64, title: Seq<char>)
    requires
        plane.wf(),
    ensures
        ({
            let (after, result) = plane.rename_pane(pane, title);
            let open = plane.ring.sequence < u64::MAX && plane.domain.panes.contains_key(pane)
                && note_fits(title);
            &&& result is Ok <==> open
            &&& !open ==> after == plane
            &&& open ==> {
                &&& accepted(after, result)
                &&& after.domain.panes[pane].title == trimmed(title)
                &&& after.domain.panes[pane].title_pinned <==> trimmed(title).len() > 0
                &&& after.domain.panes[pane].window == plane.domain.panes[pane].window
                &&& after.domain.panes[pane].controller == plane.domain.panes[pane].controller
                &&& forall|p: u64|
                    #![trigger after.domain.panes.contains_key(p)]
                    {
                        &&& after.domain.panes.contains_key(p)
                            <==> plane.domain.panes.contains_key(p)
                        &&& p != pane && plane.domain.panes.contains_key(p)
                            ==> after.domain.panes[p] == plane.domain.panes[p]
                    }
                &&& after.domain.windows == plane.domain.windows
                &&& after.domain.sessions == plane.domain.sessions
                &&& after.panes == plane.panes
                &&& after.frames == plane.frames
                &&& same_clients(plane, after)
                &&& after.effects == plane.effects
                &&& tells(
                    plane.ring,
                    after.ring,
                    EventView::PaneRenamed { pane_id: pane, title: trimmed(title) },
                )
            }
        }),
{
}

/// A hint where to look is told with its reason and changes nothing.
pub proof fn a_hint_is_only_told(
    plane: PlaneView,
    window: u64,
    pane: u64,
    reason: Option<Seq<char>>,
)
    requires
        plane.wf(),
    ensures
        ({
            let (after, result) = plane.suggest_focus(window, pane, reason);
            let open = plane.ring.sequence < u64::MAX && plane.domain.windows.contains_key(window)
                && plane.domain.windows[window].layout.leaves().contains(pane);
            &&& result is Ok <==> open
            &&& !open ==> after == plane
            &&& open ==> {
                &&& accepted(after, result)
                &&& after == (PlaneView { ring: after.ring, ..plane })
                &&& tells(
                    plane.ring,
                    after.ring,
                    EventView::FocusSuggested { window_id: window, pane_id: pane, reason },
                )
            }
        }),
{
}

/// A client shows the pane that it reported last. Where it showed another one before, its
/// viewer leaves that one; a report that changes nothing is not told.
pub proof fn a_reported_pane_has_the_focus(
    plane: PlaneView,
    client: u64,
    window: u64,
    pane: u64,
    now: u64,
)
    requires
        plane.wf(),
        plane.ring.sequence < u64::MAX,
    ensures
        ({
            let (after, result) = plane.report_focus(client, window, pane, now);
            let open = plane.clients.contains_key(client) && plane.domain.windows.contains_key(
                window,
            ) && plane.domain.windows[window].layout.leaves().contains(pane);
            let was = plane.clients[client].focus;
            &&& result is Ok <==> open
            &&& !open ==> after == plane
            &&& open ==> {
                &&& after.clients[client].focus == Some(pane)
                &&& after.clients[client].view == plane.clients[client].view
                &&& after.clients[client].window_view == plane.clients[client].window_view
                &&& same_but_view(plane, after, client)
                &&& only_client(plane, after, client)
                &&& result->Ok_0 matches DataView::MailAttention { pane_id, attention, ledger }
                &&& pane_id == pane
                &&& attention == plane.panes[pane].mail
                &&& after.effects =~= if plane.live && was is Some && was != Some(pane) {
                    plane.effects.push(
                        EffectView::RevokeViewer {
                            pane: was->0,
                            viewer: plane.clients[client].viewer,
                        },
                    )
                } else {
                    plane.effects
                }
                &&& was == Some(pane) ==> after.ring == plane.ring
                &&& was != Some(pane) ==> tells(
                    plane.ring,
                    after.ring,
                    EventView::FocusReported {
                        client_id: client,
                        window_id: window,
                        pane_id: pane,
                    },
                )
            }
        }),
{
}

/// A client is bound to a Space once: from then on only to that one. Whether the name is
/// one of a Space, the host is asked.
pub proof fn a_client_stays_in_its_space(
    plane: PlaneView,
    client: u64,
    space: Seq<char>,
    valid: Option<bool>,
)
    requires
        plane.wf(),
    ensures
        ({
            let (after, step) = plane.set_client_space(client, space, valid);
            let was = plane.clients[client].space;
            let known = plane.clients.contains_key(client);
            let open = known && valid == Some(true) && (was is None || was == Some(space));
            &&& known && valid is None ==> step == StepView::Wait(AskView::SpaceIdValid { space })
            &&& !open ==> after == plane
            &&& !known || (valid is Some && !open) ==> refuses(step)
            &&& open ==> {
                &&& acknowledges(after, step)
                &&& after.clients[client].space == Some(space)
                &&& after.clients[client].viewer == plane.clients[client].viewer
                &&& after.clients[client].agent == plane.clients[client].agent
                &&& after.clients[client].viewports == plane.clients[client].viewports
                &&& after.clients[client].host == plane.clients[client].host
                &&& after.clients[client].view == plane.clients[client].view
                &&& after.clients[client].window_view == plane.clients[client].window_view
                &&& after.clients[client].focus == plane.clients[client].focus
                &&& only_client(plane, after, client)
                &&& after.ring == plane.ring
                &&& after.effects == plane.effects
            }
        }),
{
}

/// The daemon stops only where no session is left, and then for good.
pub proof fn only_an_idle_plane_stops(plane: PlaneView, client: u64)
    ensures
        ({
            let (after, result) = plane.shutdown_idle(client);
            let open = plane.clients.contains_key(client) && forall|s: u64|
                !(#[trigger] plane.domain.sessions.contains_key(s));
            &&& result is Ok <==> open
            &&& result is Ok ==> result->Ok_0 == DataView::ShutdownAccepted
            &&& result is Ok ==> after == (PlaneView { shutdown_pending: true, ..plane })
            &&& result is Err ==> after == plane
            &&& plane.clients.contains_key(client) && !open ==> result->Err_0.code
                == ControlErrorCode::InvalidRequest
        }),
{
    if forall|s: u64| !(#[trigger] plane.domain.sessions.contains_key(s)) {
        assert(plane.domain.sessions.dom() =~= Set::<u64>::empty());
    } else {
        let s = choose|s: u64| #[trigger] plane.domain.sessions.contains_key(s);
        assert(plane.domain.sessions.dom().contains(s));
    }
}

} // verus!
