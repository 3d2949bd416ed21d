//! What reporting a size is for: every report is remembered as it was made, the last to
//! report owns the size, and the children get the size and the pixels that were decided.
use vstd::prelude::*;

use crate::event::EventView;
use crate::idmap::{group_views, lemma_ids_are_listed};
use crate::laws::layout::{acknowledges, other_windows_stay, refuses};
use crate::laws::relations::{lemma_published_is_told, same_settings, shows, tells};
use crate::model::group_seq_views;
use crate::panes::Placed;
use crate::plane::PlaneView;
use crate::sizes::reported_size;
use crate::state::{group_pane_states, AskView};
use crate::step::StepView;
use crate::wire::{ClientRole, SizeOwner, SizeOwnerKind, Viewport, WindowBounds};

verus! {

broadcast use {group_views, group_seq_views, group_pane_states, lemma_published_is_told};

/// A report says what the request says: columns as columns, rows as rows, the width of a
/// cell as its width and the height as its height. A size of zero pixels says nothing.
pub proof fn a_report_says_what_was_requested(cols: u32, rows: u32, w: Option<u32>, h: Option<u32>)
    ensures
        reported_size(cols, rows, w, h).cols == cols,
        reported_size(cols, rows, w, h).rows == rows,
        w matches Some(n) ==> (n > 0 ==> reported_size(cols, rows, w, h).cell_width_px == Some(n)),
        h matches Some(n) ==> (n > 0 ==> reported_size(cols, rows, w, h).cell_height_px == Some(n)),
        w is None || w == Some(0u32) ==> reported_size(cols, rows, w, h).cell_width_px is None,
        h is None || h == Some(0u32) ==> reported_size(cols, rows, w, h).cell_height_px is None,
{
}

/// The last to size a window owns its size: as a host where it is one.
pub proof fn the_last_to_size_owns_the_size(plane: PlaneView, window: u64)
    ensures
        !plane.latest.contains_key(window) ==> plane.size_owner(window) is None,
        plane.latest.contains_key(window) ==> {
            let client = plane.latest[window];
            &&& plane.size_owner(window) matches Some(owner)
            &&& owner.client_id == client
            &&& owner.kind == SizeOwnerKind::Host <==> plane.clients.contains_key(client)
                && plane.clients[client].host
            &&& owner.kind == SizeOwnerKind::Remote <==> !(plane.clients.contains_key(client)
                && plane.clients[client].host)
        },
{
}

/// A client may size a window: it is known, and no pane there is in another Space than
/// the one it is bound to.
pub open spec fn may_size(plane: PlaneView, client: Option<u64>, window: u64) -> bool {
    &&& plane.ring.sequence < u64::MAX
    &&& window != 0
    &&& client matches Some(c) ==> {
        &&& plane.clients.contains_key(c)
        &&& plane.domain.windows.contains_key(window) && plane.clients[c].space is Some
            ==> plane.domain.sessions[plane.domain.windows[window].session].space_id
            == plane.clients[c].space
    }
}

proof fn lemma_may_size(plane: PlaneView, client: u64, window: u64, panes: Seq<u64>)
    requires
        plane.wf(),
        plane.clients.contains_key(client),
        plane.domain.windows.contains_key(window),
        forall|p: u64| #[trigger]
            panes.contains(p) ==> plane.domain.windows[window].layout.leaves().contains(p),
    ensures
        plane.spaces_fault(client, panes) is None <==> panes.len() == 0
            || plane.clients[client].space is None
            || plane.domain.sessions[plane.domain.windows[window].session].space_id
            == plane.clients[client].space,
    decreases panes.len(),
{
    if panes.len() > 0 {
        crate::model::lemma_last_contained(panes);
        let p = panes.last();
        assert(plane.domain.windows[window].layout.leaves().contains(p));
        assert(plane.domain.panes.contains_key(p) && plane.domain.panes[p].window == window);
        lemma_may_size(plane, client, window, panes.drop_last());
    }
}

proof fn lemma_has_a_leaf(layout: crate::topology::PaneLayout)
    ensures
        layout.leaves().len() > 0,
    decreases layout,
{
    if let crate::topology::PaneLayout::Split { first, .. } = layout {
        lemma_has_a_leaf(*first);
    }
}

proof fn lemma_resize_gate(plane: PlaneView, window: u64, client: Option<u64>)
    requires
        plane.wf(),
    ensures
        plane.resize_fault(window, client) is None <==> may_size(plane, client, window),
{
    if let Some(c) = client {
        if plane.clients.contains_key(c) && plane.domain.windows.contains_key(window) {
            let layout = plane.domain.windows[window].layout;
            lemma_has_a_leaf(layout);
            lemma_may_size(plane, c, window, layout.leaves());
        }
    }
}

/// What a client reported is remembered for that window as it was reported, and it is now
/// the last to have sized it. Nothing else is.
pub open spec fn remembers(
    before: PlaneView,
    after: PlaneView,
    client: u64,
    window: u64,
    reported: Viewport,
    host: bool,
    chosen: bool,
) -> bool {
    &&& after.clients.contains_key(client)
    &&& after.clients[client].viewports == before.clients[client].viewports.insert(window, reported)
    &&& after.clients[client].host == (before.clients[client].host || host)
    &&& after.clients[client].space == before.clients[client].space
    &&& after.clients[client].viewer == before.clients[client].viewer
    &&& after.clients[client].view == before.clients[client].view
    &&& after.clients[client].window_view == before.clients[client].window_view
    &&& after.clients[client].focus == before.clients[client].focus
    &&& after.clients[client].agent == before.clients[client].agent
    &&& forall|c: u64|
        #![trigger after.clients.contains_key(c)]
        c != client ==> (after.clients.contains_key(c) <==> before.clients.contains_key(c)) && (
        before.clients.contains_key(c) ==> after.clients[c] == before.clients[c])
    &&& after.latest == before.latest.insert(window, client)
    &&& after.host_viewports == if host && chosen {
        before.host_viewports.insert(window, reported)
    } else {
        before.host_viewports
    }
}

/// A request for a size is refused from a client that may not size the window; otherwise
/// the policy is asked about exactly what was reported, by whom and over which size.
pub proof fn the_policy_decides_over_the_report(
    plane: PlaneView,
    window: u64,
    reported: Viewport,
    client: u64,
    fit: bool,
    host: bool,
    chosen: Option<bool>,
    answer: Placed,
    lived: Option<Result<(), Seq<char>>>,
)
    requires
        plane.wf(),
    ensures
        ({
            let (after, step) = plane.resize(
                window,
                reported,
                Some(client),
                fit,
                host,
                chosen,
                None,
                answer,
                lived,
            );
            let current = if plane.domain.windows.contains_key(window) {
                Some((plane.frames[window].bounds.cols, plane.frames[window].bounds.rows))
            } else {
                None
            };
            let was_remote = plane.latest.contains_key(window) && !(plane.clients.contains_key(
                plane.latest[window],
            ) && plane.clients[plane.latest[window]].host);
            &&& after == plane
            &&& !may_size(plane, Some(client), window) ==> refuses(step)
            &&& may_size(plane, Some(client), window) && host && chosen is None ==> step
                == StepView::Wait(
                AskView::RecordHost {
                    cols: reported.cols,
                    rows: reported.rows,
                    current,
                    latest_is_remote: was_remote,
                },
            )
            &&& may_size(plane, Some(client), window) && (host ==> chosen is Some) ==> {
                &&& step matches StepView::Wait(
                    AskView::DecideSize { policy, role, reported: r, fit: f, host: h, current: c },
                )
                &&& policy == plane.remote_size
                &&& role == ClientRole::Host <==> host || plane.clients[client].host
                &&& r == reported
                &&& f == fit
                &&& c == current
                &&& h == if host && chosen == Some(true) {
                    Some(reported)
                } else if plane.host_viewports.contains_key(window) {
                    Some(plane.host_viewports[window])
                } else {
                    None
                }
            }
        }),
{
    lemma_resize_gate(plane, window, Some(client));
    assert(plane.frames.dom().contains(window) <==> plane.domain.windows.dom().contains(window));
}

/// A size that the policy does not take is remembered all the same, and nothing is
/// resized; who owns the size now is told where that changed.
pub proof fn a_size_that_is_not_taken_is_remembered(
    plane: PlaneView,
    window: u64,
    reported: Viewport,
    client: u64,
    fit: bool,
    host: bool,
    chosen: Option<bool>,
    answer: Placed,
    lived: Option<Result<(), Seq<char>>>,
)
    requires
        plane.wf(),
        may_size(plane, Some(client), window),
        host ==> chosen is Some,
    ensures
        ({
            let (after, step) = plane.resize(
                window,
                reported,
                Some(client),
                fit,
                host,
                chosen,
                Some(None),
                answer,
                lived,
            );
            let kind = if host || plane.clients[client].host {
                SizeOwnerKind::Host
            } else {
                SizeOwnerKind::Remote
            };
            let owner = Some(SizeOwner { client_id: client, kind });
            &&& acknowledges(after, step)
            &&& remembers(plane, after, client, window, reported, host, chosen == Some(true))
            &&& after.domain == plane.domain
            &&& after.frames == plane.frames
            &&& after.panes == plane.panes
            &&& same_settings(plane, after)
            &&& plane.size_owner(window) == owner ==> after.ring == plane.ring && after.effects
                == plane.effects
            &&& plane.size_owner(window) != owner ==> tells(
                plane.ring,
                after.ring,
                EventView::SizeOwnerChanged { window_id: window, owner },
            )
        }),
{
    lemma_resize_gate(plane, window, Some(client));
    let told = plane.size_reported(client, window, reported, host, chosen == Some(true));
    lemma_owner_noted(
        told.publish(
            EventView::SizeOwnerChanged { window_id: window, owner: told.size_owner(window) },
        ),
        told.leaves_of(window),
        told.size_owner(window),
    );
}

proof fn lemma_owner_noted(plane: PlaneView, panes: Seq<u64>, owner: Option<SizeOwner>)
    ensures
        plane.owner_noted(panes, owner) == (PlaneView {
            effects: plane.owner_noted(panes, owner).effects,
            ..plane
        }),
        plane.live ==> plane.owner_noted(panes, owner).effects.len() == plane.effects.len()
            + panes.len(),
        plane.live ==> forall|i: int|
            0 <= i < panes.len() ==> #[trigger] plane.owner_noted(
                panes,
                owner,
            ).effects[plane.effects.len() + i] == (crate::state::EffectView::RecordSizeOwner {
                pane: panes[i],
                owner,
            }),
        !plane.live ==> plane.owner_noted(panes, owner).effects == plane.effects,
    decreases panes.len(),
{
    if panes.len() > 0 {
        lemma_owner_noted(plane, panes.drop_last(), owner);
    }
}

/// The children of every pane of a window learn who sizes it when that changes.
pub proof fn every_pane_learns_the_owner(
    plane: PlaneView,
    window: u64,
    previous: Option<SizeOwner>,
    i: int,
)
    requires
        plane.live,
        plane.domain.windows.contains_key(window),
        plane.size_owner(window) != previous,
        0 <= i < plane.domain.windows[window].layout.leaves().len(),
    ensures
        plane.publish_owner(window, previous).effects[plane.effects.len() + i] == (
        crate::state::EffectView::RecordSizeOwner {
            pane: plane.domain.windows[window].layout.leaves()[i],
            owner: plane.size_owner(window),
        }),
{
    let owner = plane.size_owner(window);
    let told = plane.publish(EventView::SizeOwnerChanged { window_id: window, owner });
    lemma_owner_noted(told, plane.leaves_of(window), owner);
}

/// The layout engine is asked to fit the tree of the window into the size that was decided
/// on, and the children are asked to take that size with the pixels that came with it, on
/// behalf of the client that asked.
pub proof fn the_decided_size_is_asked_for(
    plane: PlaneView,
    window: u64,
    reported: Viewport,
    client: u64,
    fit: bool,
    host: bool,
    chosen: Option<bool>,
    view: Viewport,
    answer: Placed,
    lived: Option<Result<(), Seq<char>>>,
)
    requires
        plane.wf(),
        may_size(plane, Some(client), window),
        host ==> chosen is Some,
    ensures
        ({
            let (after, step) = plane.resize(
                window,
                reported,
                Some(client),
                fit,
                host,
                chosen,
                Some(Some(view)),
                answer,
                lived,
            );
            let kind = if host || plane.clients[client].host {
                SizeOwnerKind::Host
            } else {
                SizeOwnerKind::Remote
            };
            let open = view.cols > 0 && view.rows > 0 && plane.domain.windows.contains_key(window);
            &&& !open ==> refuses(step)
            &&& open && answer is None ==> after == plane && step == StepView::Wait(
                AskView::Fit {
                    layout: plane.domain.windows[window].layout,
                    bounds: WindowBounds { window_id: window, cols: view.cols, rows: view.rows },
                },
            )
            &&& step is Wait && answer is Some ==> {
                &&& after == plane
                &&& plane.live
                &&& step matches StepView::Wait(
                    AskView::Apply { geometry, cell_width_px, cell_height_px, owner, sizes },
                )
                &&& answer matches Some(Ok(p))
                &&& shows(p.rects@, geometry)
                &&& cell_width_px == view.cell_width_px
                &&& cell_height_px == view.cell_height_px
                &&& owner == Some(SizeOwner { client_id: client, kind })
                &&& sizes
            }
            &&& !refuses(step) && !(step is Wait) ==> {
                &&& answer matches Some(Ok(p))
                &&& acknowledges(after, step)
                &&& remembers(plane, after, client, window, reported, host, chosen == Some(true))
                &&& after.frames[window].bounds.cols == view.cols
                &&& after.frames[window].bounds.rows == view.rows
                &&& after.frames[window].bounds.window_id == window
                &&& shows(p.rects@, after.frames[window].geometry)
                &&& other_windows_stay(plane, after, window)
                &&& after.domain == plane.domain
                &&& after.panes == plane.panes
                &&& after.size_owner(window) == Some(SizeOwner { client_id: client, kind })
            }
        }),
{
    lemma_resize_gate(plane, window, Some(client));
    let told = plane.size_reported(client, window, reported, host, chosen == Some(true));
    if let Some(Ok(p)) = answer {
        let bounds = WindowBounds { window_id: window, cols: view.cols, rows: view.rows };
        let sized = told.with_frame(window, bounds, crate::place::wire_rects(p.rects@)).publish(
            EventView::GeometryChanged {
                window_id: window,
                bounds,
                geometry: crate::place::wire_rects(p.rects@),
            },
        );
        let owner = sized.size_owner(window);
        lemma_owner_noted(
            sized.publish(EventView::SizeOwnerChanged { window_id: window, owner }),
            sized.leaves_of(window),
            owner,
        );
    }
}

/// A size without a client is applied as it was reported: the children are asked to take
/// its columns, its rows and its pixels. A size that stands is not applied again.
pub proof fn the_hosts_own_size_is_applied(
    plane: PlaneView,
    window: u64,
    reported: Viewport,
    fit: bool,
    host: bool,
    chosen: Option<bool>,
    decision: Option<Option<Viewport>>,
    answer: Placed,
    lived: Option<Result<(), Seq<char>>>,
)
    requires
        plane.wf(),
        may_size(plane, None, window),
        plane.domain.windows.contains_key(window),
        reported.cols > 0,
        reported.rows > 0,
    ensures
        ({
            let (after, step) = plane.resize(
                window,
                reported,
                None,
                fit,
                host,
                chosen,
                decision,
                answer,
                lived,
            );
            let bounds = WindowBounds {
                window_id: window,
                cols: reported.cols,
                rows: reported.rows,
            };
            let stands = plane.frames[window].bounds.cols == reported.cols
                && plane.frames[window].bounds.rows == reported.rows;
            &&& stands ==> after == plane && acknowledges(after, step)
            &&& !stands && answer is None ==> after == plane && step == StepView::Wait(
                AskView::Fit { layout: plane.domain.windows[window].layout, bounds },
            )
            &&& step is Wait && answer is Some ==> {
                &&& after == plane
                &&& step matches StepView::Wait(
                    AskView::Apply { geometry, cell_width_px, cell_height_px, owner, sizes },
                )
                &&& answer matches Some(Ok(p))
                &&& shows(p.rects@, geometry)
                &&& cell_width_px == reported.cell_width_px
                &&& cell_height_px == reported.cell_height_px
                &&& owner == plane.size_owner(window)
                &&& sizes
            }
            &&& !stands && !refuses(step) && !(step is Wait) ==> {
                &&& acknowledges(after, step)
                &&& after.frames[window].bounds == bounds
                &&& after.clients == plane.clients
                &&& after.latest == plane.latest
                &&& after.host_viewports == plane.host_viewports
                &&& after.domain == plane.domain
                &&& other_windows_stay(plane, after, window)
                &&& tells(
                    plane.ring,
                    after.ring,
                    EventView::GeometryChanged {
                        window_id: window,
                        bounds,
                        geometry: after.frames[window].geometry,
                    },
                )
            }
        }),
{
    lemma_resize_gate(plane, window, None);
}

/// When the owner of a size leaves, a host takes the window over, the smallest of them, or
/// nobody does where there is none. A client that did not own it takes nothing along.
pub proof fn a_host_takes_an_orphaned_size_over(plane: PlaneView, client: u64, window: u64)
    ensures
        ({
            let after = plane.size_released(client, window);
            let owned = plane.latest.contains_key(window) && plane.latest[window] == client;
            &&& !owned ==> after == plane
            &&& owned && !after.latest.contains_key(window) ==> forall|c: u64| #[trigger]
                plane.clients.contains_key(c) ==> !plane.clients[c].host
            &&& owned && after.latest.contains_key(window) ==> {
                let heir = after.latest[window];
                &&& plane.clients.contains_key(heir)
                &&& plane.clients[heir].host
                &&& forall|c: u64| #[trigger]
                    plane.clients.contains_key(c) && plane.clients[c].host ==> heir <= c
            }
            &&& forall|w: u64|
                #![trigger after.latest.contains_key(w)]
                w != window ==> (after.latest.contains_key(w) <==> plane.latest.contains_key(w))
                    && after.latest[w] == plane.latest[w]
            &&& after == PlaneView { latest: after.latest, ..plane }
        }),
{
    lemma_first_id(plane.hosts());
    assert forall|c: u64| #[trigger] plane.clients.contains_key(c) && plane.clients[c].host implies plane.hosts().contains(
        c,
    ) by {}
}

/// The smallest member of a set of ids is picked, and none from an empty one.
pub proof fn lemma_first_id(d: Set<u64>)
    ensures
        match crate::sizes::first_id(d) {
            Some(id) => d.contains(id) && forall|k: u64| #[trigger] d.contains(k) ==> id <= k,
            None => forall|k: u64| !(#[trigger] d.contains(k)),
        },
{
    lemma_ids_are_listed(d);
    let s = crate::idmap::sorted_ids(d);
    assert forall|k: u64| #[trigger] d.contains(k) implies s.len() > 0 && s[0] <= k by {
        let i = choose|i: int| 0 <= i < s.len() && s[i] == k;
        if i > 0 {
            assert(s[0] < s[i]);
        }
    }
    if s.len() > 0 {
        assert(s.contains(s[0]));
    }
}

/// The size that remains for a window is one that a client still there reported for that
/// window: the owner's own where the owner reported one, else that of the smallest client.
pub proof fn the_size_that_remains_was_reported(plane: PlaneView, window: u64)
    ensures
        match plane.remaining_viewport(window) {
            None => forall|c: u64| #[trigger]
                plane.clients.contains_key(c) ==> !plane.clients[c].viewports.contains_key(window),
            Some(view) => exists|c: u64|
                #![trigger plane.clients.contains_key(c)]
                {
                    &&& plane.clients.contains_key(c)
                    &&& plane.clients[c].viewports.contains_key(window)
                    &&& plane.clients[c].viewports[window] == view
                    &&& forall|o: u64|
                        #![trigger plane.clients.contains_key(o)]
                        plane.clients.contains_key(o)
                            && plane.clients[o].viewports.contains_key(window) ==> c <= o || c
                            == plane.latest[window]
                },
        },
        plane.latest.contains_key(window) && plane.clients.contains_key(plane.latest[window])
            && plane.clients[plane.latest[window]].viewports.contains_key(window)
            ==> plane.remaining_viewport(window) == Some(
            plane.clients[plane.latest[window]].viewports[window],
        ),
{
    lemma_first_id(plane.sizers(window));
    assert forall|c: u64| #[trigger] plane.clients.contains_key(c)
        && plane.clients[c].viewports.contains_key(window) implies plane.sizers(window).contains(
        c,
    ) by {}
    if plane.latest.contains_key(window) && plane.sizers(window).contains(plane.latest[window]) {
        assert(plane.clients.contains_key(plane.latest[window]));
    } else if let Some(c) = crate::sizes::first_id(plane.sizers(window)) {
        assert(plane.clients.contains_key(c));
    }
}

/// A window whose sizer left is refitted to what the policy decides between the size of
/// the host and the one that remains, with the pixels that belong to it.
pub proof fn a_refit_follows_the_decision(
    plane: PlaneView,
    client: u64,
    window: u64,
    view: Viewport,
    answer: Placed,
    lived: Option<Result<(), Seq<char>>>,
)
    requires
        plane.wf(),
    ensures
        ({
            let freed = plane.size_released(client, window);
            plane.refit_window(client, window, None, answer, lived) == (
                plane,
                StepView::Wait(
                    AskView::DecideRefit {
                        host: if plane.host_viewports.contains_key(window) {
                            Some(plane.host_viewports[window])
                        } else {
                            None
                        },
                        remaining: freed.remaining_viewport(window),
                    },
                ),
            )
        }),
        ({
            let (after, step) = plane.refit_window(client, window, Some(Some(view)), answer, lived);
            &&& step matches StepView::Wait(AskView::Fit { layout, bounds }) ==> {
                &&& layout == plane.domain.windows[window].layout
                &&& bounds.cols == view.cols && bounds.rows == view.rows && bounds.window_id
                    == window
            }
            &&& step matches StepView::Wait(
                AskView::Apply { geometry, cell_width_px, cell_height_px, .. },
            ) ==> {
                &&& cell_width_px == view.cell_width_px && cell_height_px == view.cell_height_px
                &&& answer matches Some(Ok(p)) && shows(p.rects@, geometry)
            }
            &&& step is Wait ==> after == plane
            &&& after.domain == plane.domain
            &&& after.clients == plane.clients
            &&& other_windows_stay(plane, after, window)
        }),
        ({
            let (after, step) = plane.refit_window(client, window, Some(None), answer, lived);
            &&& acknowledges(after, step)
            &&& after.frames == plane.frames
            &&& after.latest == plane.size_released(client, window).latest
        }),
{
    let freed = plane.size_released(client, window);
    assert(freed.host_viewports == plane.host_viewports);
    lemma_owner_keeps(freed, window, plane.size_owner(window));
    let (sized, step) = freed.refit(window, view, answer, lived);
    lemma_owner_keeps(sized, window, plane.size_owner(window));
    if let Some(Ok(p)) = answer {
        let bounds = WindowBounds { window_id: window, cols: view.cols, rows: view.rows };
        let geometry = crate::place::wire_rects(p.rects@);
        lemma_owner_keeps(
            freed.with_frame(window, bounds, geometry).publish(
                EventView::GeometryChanged { window_id: window, bounds, geometry },
            ),
            window,
            freed.size_owner(window),
        );
    }
}

proof fn lemma_owner_keeps(plane: PlaneView, window: u64, previous: Option<SizeOwner>)
    ensures
        plane.publish_owner(window, previous) == (PlaneView {
            effects: plane.publish_owner(window, previous).effects,
            ring: plane.publish_owner(window, previous).ring,
            ..plane
        }),
{
    let owner = plane.size_owner(window);
    lemma_owner_noted(
        plane.publish(EventView::SizeOwnerChanged { window_id: window, owner }),
        plane.leaves_of(window),
        owner,
    );
}

/// Input from the desktop makes the host that sized the window, the smallest of them, the
/// owner of its size.
pub proof fn typing_on_the_host_takes_the_size(plane: PlaneView, pane: u64)
    ensures
        ({
            let after = plane.host_active(pane);
            let window = plane.domain.panes[pane].window;
            &&& after == PlaneView { latest: after.latest, ..plane }
            &&& !plane.domain.panes.contains_key(pane) ==> after == plane
            &&& forall|w: u64|
                #![trigger after.latest.contains_key(w)]
                w != window ==> (after.latest.contains_key(w) <==> plane.latest.contains_key(w))
                    && after.latest[w] == plane.latest[w]
            &&& forall|c: u64| #[trigger]
                plane.clients.contains_key(c) && plane.clients[c].host
                    && plane.clients[c].viewports.contains_key(window)
                    && plane.domain.panes.contains_key(pane) ==> {
                    let owner = after.latest[window];
                    &&& after.latest.contains_key(window)
                    &&& plane.clients.contains_key(owner) && plane.clients[owner].host
                    &&& plane.clients[owner].viewports.contains_key(window)
                    &&& owner <= c
                }
        }),
{
    let window = plane.domain.panes[pane].window;
    lemma_first_id(plane.host_sizers(window));
    assert forall|c: u64| #[trigger] plane.clients.contains_key(c) && plane.clients[c].host
        && plane.clients[c].viewports.contains_key(window) implies plane.host_sizers(
        window,
    ).contains(c) by {}
}

} // verus!
