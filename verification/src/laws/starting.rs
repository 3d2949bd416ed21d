//! What the start of a plane is for, and the lists by which the host looks after it.
use vstd::prelude::*;
use vstd::utf8::encode_utf8;

use crate::discovery::{runtime_usable, socket_path, DirFacts};
use crate::idmap::{group_views, sorted_ids};
use crate::laws::holding::lemma_listed;
use crate::laws::relations::{only_pane, shows};
use crate::model::group_seq_views;
use crate::plane::PlaneView;
use crate::setup::{
    fit_of, geometry_fault, lemma_session_windows, new_fault, new_plane, start_geometry,
    window_order, WindowFit,
};
use crate::state::group_pane_states;
use crate::text::{decimal, trimmed};
use crate::topology::DomainView;
use crate::wire::SpawnSpec;

verus! {

broadcast use {group_views, group_seq_views, group_pane_states};

/// The entry that is found for a window is one of the entries, and is for that window.
proof fn lemma_found(fits: Seq<WindowFit>, window: u64)
    ensures
        fit_of(fits, window) matches Some(f) ==> fits.contains(f) && f.bounds.window_id == window,
        fit_of(fits, window) is None ==> forall|i: int|
            0 <= i < fits.len() ==> (#[trigger] fits[i]).bounds.window_id != window,
    decreases fits.len(),
{
    if fits.len() > 0 {
        let rest = fits.drop_first();
        lemma_found(rest, window);
        assert(fits.contains(fits[0]));
        if let Some(f) = fit_of(rest, window) {
            let i = choose|i: int| 0 <= i < rest.len() && rest[i] == f;
            assert(fits[i + 1] == f);
        }
        if fit_of(fits, window) is None {
            assert forall|i: int| 0 <= i < fits.len() implies (
            #[trigger] fits[i]).bounds.window_id != window by {
                if i > 0 {
                    assert(rest[i - 1] == fits[i]);
                }
            }
        }
    }
}

/// A window whose geometry is in order was fitted.
proof fn lemma_fitted(domain: DomainView, fits: Seq<WindowFit>, windows: Seq<u64>, window: u64)
    requires
        geometry_fault(domain, fits, windows) is None,
        windows.contains(window),
    ensures
        fit_of(fits, window) is Some,
        fit_of(fits, window)->0.fit is Ok,
        start_geometry(domain, fits, window) is Ok,
    decreases windows.len(),
{
    if windows.last() != window {
        let head = windows.drop_last();
        let i = choose|i: int| 0 <= i < windows.len() && windows[i] == window;
        assert(head[i] == window);
        lemma_fitted(domain, fits, head, window);
    }
}

/// A new plane has the topology that it was given, nobody in it, no history, nothing to do
/// and nothing running; each window has the bounds that it was given, and its panes stand
/// where the layout engine put them.
pub proof fn a_new_plane_is_empty(
    domain: DomainView,
    fits: Seq<WindowFit>,
    capacity: Option<usize>,
    window: u64,
)
    requires
        domain.wf(),
        new_fault(domain, fits, capacity) is None,
        domain.windows.contains_key(window),
    ensures
        ({
            let plane = new_plane(domain, fits, capacity);
            &&& plane.domain.sessions == domain.sessions
            &&& plane.domain.windows == domain.windows
            &&& plane.domain.panes == domain.panes
            &&& plane.domain.next_session == domain.next_session
            &&& plane.domain.next_window == domain.next_window
            &&& plane.domain.next_pane == domain.next_pane
            &&& plane.domain.next_client == domain.next_client + 1
            &&& plane.doorbell == domain.next_client
            &&& plane.clients.dom() =~= Set::<u64>::empty()
            &&& plane.latest.dom() =~= Set::<u64>::empty()
            &&& plane.aliases.dom() =~= Set::<Seq<char>>::empty()
            &&& plane.effects.len() == 0
            &&& plane.ring.sequence == 0 && plane.ring.events.len() == 0
            &&& plane.ring.capacity == if capacity is Some {
                capacity->0 as int
            } else {
                256int
            }
            &&& 1 <= plane.ring.capacity <= 4_096
            &&& !plane.live && !plane.shutdown_pending
            &&& forall|p: u64|
                (#[trigger] plane.panes[p]).spawn is None && plane.panes[p].mail is None
                    && plane.panes[p].nudge is None && plane.panes[p].team is None
        }),
        ({
            let plane = new_plane(domain, fits, capacity);
            exists|f: WindowFit|
                {
                    &&& #[trigger] fits.contains(f)
                    &&& f.bounds.window_id == window
                    &&& plane.frames[window].bounds == f.bounds
                    &&& f.fit matches Ok(rects)
                    &&& shows(rects@, plane.frames[window].geometry)
                    &&& plane.host_viewports[window].cols == f.bounds.cols
                    &&& plane.host_viewports[window].rows == f.bounds.rows
                    &&& plane.host_viewports[window].cell_width_px is None
                    &&& plane.host_viewports[window].cell_height_px is None
                }
        }),
{
    lemma_found(fits, window);
    let ids = sorted_ids(domain.sessions.dom());
    lemma_listed(domain.sessions.dom());
    assert forall|s: u64| #[trigger] ids.contains(s) implies domain.sessions.contains_key(s) by {
        assert(domain.sessions.dom().contains(s));
    }
    lemma_session_windows(domain, ids);
    assert(domain.sessions.contains_key(domain.windows[window].session));
    assert(domain.sessions.dom().contains(domain.windows[window].session));
    lemma_fitted(domain, fits, window_order(domain), window);
    let f = fit_of(fits, window)->0;
    assert(fits.contains(f));
}

/// Children are seated one by one: each listed pane runs what is listed for it, and no
/// other pane changes.
proof fn lemma_seated(plane: PlaneView, spawns: Seq<(u64, SpawnSpec)>, i: int)
    requires
        plane.panes.dom() == Set::<u64>::full(),
        plane.with_children(spawns) is Ok,
    ensures
        ({
            let after = plane.with_children(spawns)->Ok_0;
            &&& after == (PlaneView { panes: after.panes, ..plane })
            &&& 0 <= i < spawns.len() ==> after.panes[spawns[i].0].spawn == Some(spawns[i].1@)
            &&& forall|p: u64|
                (#[trigger] plane.panes[p]).spawn is Some ==> after.panes[p].spawn
                    == plane.panes[p].spawn
            &&& forall|p: u64|
                #![trigger after.panes[p]]
                after.panes[p].mail == plane.panes[p].mail && after.panes[p].nudge
                    == plane.panes[p].nudge && after.panes[p].team == plane.panes[p].team
        }),
    decreases spawns.len(),
{
    if spawns.len() > 0 {
        let next = plane.with_child(spawns[0].0, spawns[0].1@);
        let rest = spawns.drop_first();
        assert(next.panes.dom() =~= Set::<u64>::full());
        lemma_seated(next, rest, i - 1);
        if 0 < i < spawns.len() {
            assert(rest[i - 1] == spawns[i]);
        }
        assert(next.panes[spawns[0].0].spawn == Some(spawns[0].1@));
    }
}

/// A plane that starts with children has one in every pane, each the one that is listed
/// for it, and nothing else of it changes.
pub proof fn every_pane_starts_with_its_child(
    plane: PlaneView,
    spawns: Seq<(u64, SpawnSpec)>,
    socket: Option<Seq<u8>>,
    i: int,
    pane: u64,
)
    requires
        plane.panes.dom() == Set::<u64>::full(),
    ensures
        plane.live_start(spawns, socket) matches Ok(after) ==> {
            &&& after.live
            &&& after == (PlaneView { panes: after.panes, live: true, ..plane })
            &&& 0 <= i < spawns.len() ==> after.panes[spawns[i].0].spawn == Some(spawns[i].1@)
            &&& plane.domain.panes.contains_key(pane) ==> after.panes[pane].spawn is Some
            &&& socket matches Some(path) ==> path.len() > 0 && path[0] == 0x2f
        },
{
    if plane.live_start(spawns, socket) is Ok {
        lemma_seated(plane, spawns, i);
        let seated = plane.with_children(spawns)->Ok_0;
        assert(seated.has_every_child());
        if plane.domain.panes.contains_key(pane) {
            assert(seated.panes[pane].spawn is Some);
        }
    }
}

/// A pane is due to be rung exactly where a ring was planned for a time that has come.
pub proof fn what_is_due_is_rung(plane: PlaneView, pane: u64, now: u64)
    ensures
        plane.due_panes(now).contains(pane) <==> plane.panes[pane].nudge is Some
            && plane.panes[pane].nudge->0.due_at_ms <= now,
{
}

/// A pane is lit exactly where unread mail of a named cell is shown.
pub proof fn what_is_lit_is_unread(plane: PlaneView, pane: u64)
    ensures
        plane.lit_panes().contains(pane) <==> plane.panes[pane].mail is Some
            && plane.panes[pane].mail->0.depth > 0 && trimmed(plane.panes[pane].mail->0.cell).len()
            > 0,
{
}

/// An agent that looks into its inbox is not rung any more for what is in there.
pub proof fn a_look_into_the_inbox_ends_the_rings(plane: PlaneView, agent: Seq<char>)
    requires
        plane.wf(),
    ensures
        plane.domain.doorbell_pane(agent) is None ==> plane.cancel_nudge(agent) == plane,
        plane.domain.doorbell_pane(agent) matches Some(pane) ==> {
            let after = plane.cancel_nudge(agent);
            &&& after.panes[pane].nudge is None
            &&& after.panes[pane].mail == plane.panes[pane].mail
            &&& after.panes[pane].mail_rev == plane.panes[pane].mail_rev
            &&& after.panes[pane].status == plane.panes[pane].status
            &&& only_pane(plane, after, pane)
            &&& after.ring == plane.ring
            &&& after.effects == plane.effects
        },
{
}

/// The log of a pane is kept under the name of its session and its place in it.
pub proof fn a_log_is_kept_under_its_place(domain: DomainView, session: u64, i: int)
    requires
        0 <= i < domain.session_panes(session).len(),
    ensures
        domain.session_keys(session).len() == domain.session_panes(session).len(),
        domain.session_keys(session)[i].pane_id == domain.session_panes(session)[i],
        domain.session_keys(session)[i].session == domain.sessions[session].name,
        domain.session_keys(session)[i].index == i,
{
}

/// A runtime directory is trusted where it is absolute, a directory, of this user, and
/// neither group nor others may do anything in it.
pub proof fn only_a_private_directory_is_trusted(path: Seq<u8>, facts: DirFacts, uid: u32)
    ensures
        runtime_usable(path, Some(facts), uid) <==> path.len() > 0 && path[0] == 0x2f
            && facts.is_dir && facts.uid == uid && facts.mode & 63 == 0,
        !runtime_usable(path, None, uid),
{
}

/// A socket stands in the directory of its user: below the runtime directory, or where
/// there is none below the one that bears the user's number.
pub proof fn a_socket_stands_with_its_user(
    instance: Seq<char>,
    dir: Seq<u8>,
    uid: u32,
)
    ensures
        dir.is_prefix_of(socket_path(instance, Some(dir), uid)),
        encode_utf8("/tmp/prismattyc-"@ + decimal(uid as nat)).is_prefix_of(
            socket_path(instance, None, uid),
        ),
{
    let sub = crate::discovery::joined(dir, "prismattyc"@);
    assert(dir.is_prefix_of(sub));
    assert(sub.is_prefix_of(socket_path(instance, Some(dir), uid)));
    let whole = socket_path(instance, Some(dir), uid);
    assert(whole.take(dir.len() as int) =~= dir);
}

} // verus!
