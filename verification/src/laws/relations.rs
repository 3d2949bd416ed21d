//! Relations between the state before a request and the state after it.
use vstd::prelude::*;

use crate::event::{EnvelopeView, EventView, RingView};
use crate::plane::PlaneView;
use crate::wire::{CellRect, PaneGeometry};

verus! {

/// The history went on by one event, which is now its last.
pub open spec fn tells(before: RingView, after: RingView, event: EventView) -> bool {
    &&& after.sequence == before.sequence + 1
    &&& after.capacity == before.capacity
    &&& after.events.len() > 0
    &&& after.events.last() == (EnvelopeView { sequence: before.sequence + 1, event })
    &&& forall|e: EnvelopeView|
        #![trigger after.events.contains(e)]
        before.events.contains(e) && e != before.events[0] ==> after.events.contains(e)
}

/// What is published is told.
pub broadcast proof fn lemma_published_is_told(ring: RingView, event: EventView)
    requires
        ring.wf(),
    ensures
        #![trigger ring.publish(event)]
        tells_if_it_can(ring, ring.publish(event), event),
{
    if ring.sequence < u64::MAX {
        ring.publish_appends(event);
    }
}

/// The history went on by one event, as long as there are numbers left for it.
pub open spec fn tells_if_it_can(before: RingView, after: RingView, event: EventView) -> bool {
    if before.sequence < u64::MAX {
        tells(before, after, event)
    } else {
        after == before
    }
}

/// Everything but the topology, its frames, the panes' records, the history and the work
/// for the host is as it was.
pub open spec fn same_clients(before: PlaneView, after: PlaneView) -> bool {
    &&& after.clients == before.clients
    &&& same_settings(before, after)
    &&& after.host_viewports == before.host_viewports
    &&& after.latest == before.latest
}

/// The settings of the plane, its aliases and its own client are as they were.
pub open spec fn same_settings(before: PlaneView, after: PlaneView) -> bool {
    &&& after.aliases == before.aliases
    &&& after.remote_size == before.remote_size
    &&& after.live == before.live
    &&& after.shutdown_pending == before.shutdown_pending
    &&& after.doorbell == before.doorbell
    &&& after.domain.next_client == before.domain.next_client
}

/// Nothing changed but the history, the work for the host and the record of one pane.
pub open spec fn only_pane(before: PlaneView, after: PlaneView, pane: u64) -> bool {
    &&& after.domain == before.domain
    &&& after.frames == before.frames
    &&& same_clients(before, after)
    &&& forall|p: u64| p != pane ==> #[trigger] after.panes[p] == before.panes[p]
}

/// Nothing changed but the history, the work for the host and one client.
pub open spec fn only_client(before: PlaneView, after: PlaneView, client: u64) -> bool {
    &&& after.domain == before.domain
    &&& after.frames == before.frames
    &&& after.panes == before.panes
    &&& same_settings(before, after)
    &&& after.host_viewports == before.host_viewports
    &&& after.latest == before.latest
    &&& forall|c: u64| c != client ==> (#[trigger] after.clients.contains_key(c)
        <==> before.clients.contains_key(c))
    &&& forall|c: u64|
        c != client && #[trigger] before.clients.contains_key(c) ==> after.clients[c]
            == before.clients[c]
}

/// Geometry entries say where an answer of the layout engine put each pane.
pub open spec fn shows(rects: Seq<(u64, CellRect)>, geometry: Seq<PaneGeometry>) -> bool {
    &&& geometry.len() == rects.len()
    &&& forall|i: int|
        0 <= i < rects.len() ==> {
            let (pane, rect) = rects[i];
            let entry = #[trigger] geometry[i];
            &&& entry.pane_id == pane
            &&& entry.col == rect.col
            &&& entry.row == rect.row
            &&& entry.cols == rect.cols
            &&& entry.rows == rect.rows
        }
}

} // verus!
