//! Ordered event history: a bounded ring of contiguously numbered events.
use std::collections::VecDeque;
use vstd::prelude::*;
use vstd::string::*;

use crate::error::{ControlError, ControlErrorCode, plain_error, resnapshot_error};
use crate::text::{concat2, concat3, decimal, decimal_text};
use crate::wire::{AxisWire, MailWake, PaneGeometry, SizeOwner, SpawnSpec, SpawnView, WindowBounds};

verus! {

pub const DEFAULT_EVENT_CAPACITY: usize = 256;

pub const MAX_EVENT_CAPACITY: usize = 4096;

pub const MAX_EVENT_BATCH: usize = 256;

/// A change that clients can replay.
#[derive(Debug, PartialEq)]
pub enum Event {
    PaneSplit {
        window_id: u64,
        target_pane_id: u64,
        new_pane_id: u64,
        axis: AxisWire,
        ratio_bits: u64,
        spawn: SpawnSpec,
        geometry: Vec<PaneGeometry>,
    },
    PaneClosed {
        window_id: u64,
        pane_id: u64,
        suggested_focus_id: u64,
        geometry: Vec<PaneGeometry>,
    },
    GeometryChanged { window_id: u64, bounds: WindowBounds, geometry: Vec<PaneGeometry> },
    /// Who owns the window size. Not a geometry change.
    SizeOwnerChanged { window_id: u64, owner: Option<SizeOwner> },
    FocusSuggested { window_id: u64, pane_id: u64, reason: Option<String> },
    /// Operator-reported pane focus. Not server topology.
    FocusReported { client_id: u64, window_id: u64, pane_id: u64 },
    /// Sticky mail attention changed. Zero depth means cleared.
    MailAttentionChanged {
        pane_id: u64,
        cell: Option<String>,
        gen: Option<u64>,
        queue_rev: Option<u64>,
        depth: u32,
        wake: Option<MailWake>,
    },
    /// Generic agent attention raised for a pane.
    PaneAttention { pane_id: u64, message: String },
    /// Generic agent attention cleared after successful pane input.
    PaneAttentionCleared { pane_id: u64 },
    LeaseChanged {
        pane_id: u64,
        controller_id: Option<u64>,
        previous_controller_id: Option<u64>,
    },
    SpaceOwnershipChanged { session_ids: Vec<u64>, from: Option<String>, to: Option<String> },
    /// Window and pane are 0 when the session is headless.
    SessionCreated {
        session_id: u64,
        name: String,
        window_id: u64,
        pane_id: u64,
        bounds: WindowBounds,
        spawn: SpawnSpec,
    },
    SessionNamed { session_id: u64, name: String },
    SessionSwitched { client_id: u64, session_id: u64, window_id: u64, pane_id: u64 },
    SessionDestroyed { session_id: u64, name: String },
    /// Coalesced live-pane output (at most one ring entry per pane).
    OutputActivity { pane_id: u64, revision: u64, child_alive: bool },
    WindowCreated {
        session_id: u64,
        window_id: u64,
        pane_id: u64,
        title: String,
        bounds: WindowBounds,
        spawn: SpawnSpec,
    },
    WindowDestroyed { session_id: u64, window_id: u64, session_destroyed: bool },
    WindowSwitched { client_id: u64, session_id: u64, window_id: u64, pane_id: u64 },
    WindowRenamed { window_id: u64, title: String },
    PaneStatusChanged { pane_id: u64, status: Option<String> },
    /// A pane title changed; empty means cleared.
    PaneRenamed { pane_id: u64, title: String },
    SyncInputChanged { window_id: u64, enabled: bool },
    /// Single two-window move. Never a close and a split.
    PaneMoved {
        from_window_id: u64,
        to_window_id: u64,
        pane_id: u64,
        source_suggested_focus_id: Option<u64>,
        geometry: Vec<PaneGeometry>,
    },
}

/// What an event says.
pub enum EventView {
    PaneSplit {
        window_id: u64,
        target_pane_id: u64,
        new_pane_id: u64,
        axis: AxisWire,
        ratio_bits: u64,
        spawn: SpawnView,
        geometry: Seq<PaneGeometry>,
    },
    PaneClosed {
        window_id: u64,
        pane_id: u64,
        suggested_focus_id: u64,
        geometry: Seq<PaneGeometry>,
    },
    GeometryChanged { window_id: u64, bounds: WindowBounds, geometry: Seq<PaneGeometry> },
    SizeOwnerChanged { window_id: u64, owner: Option<SizeOwner> },
    FocusSuggested { window_id: u64, pane_id: u64, reason: Option<Seq<char>> },
    FocusReported { client_id: u64, window_id: u64, pane_id: u64 },
    MailAttentionChanged {
        pane_id: u64,
        cell: Option<Seq<char>>,
        gen: Option<u64>,
        queue_rev: Option<u64>,
        depth: u32,
        wake: Option<MailWake>,
    },
    PaneAttention { pane_id: u64, message: Seq<char> },
    PaneAttentionCleared { pane_id: u64 },
    LeaseChanged { pane_id: u64, controller_id: Option<u64>, previous_controller_id: Option<u64> },
    SpaceOwnershipChanged {
        session_ids: Seq<u64>,
        from: Option<Seq<char>>,
        to: Option<Seq<char>>,
    },
    SessionCreated {
        session_id: u64,
        name: Seq<char>,
        window_id: u64,
        pane_id: u64,
        bounds: WindowBounds,
        spawn: SpawnView,
    },
    SessionNamed { session_id: u64, name: Seq<char> },
    SessionSwitched { client_id: u64, session_id: u64, window_id: u64, pane_id: u64 },
    SessionDestroyed { session_id: u64, name: Seq<char> },
    OutputActivity { pane_id: u64, revision: u64, child_alive: bool },
    WindowCreated {
        session_id: u64,
        window_id: u64,
        pane_id: u64,
        title: Seq<char>,
        bounds: WindowBounds,
        spawn: SpawnView,
    },
    WindowDestroyed { session_id: u64, window_id: u64, session_destroyed: bool },
    WindowSwitched { client_id: u64, session_id: u64, window_id: u64, pane_id: u64 },
    WindowRenamed { window_id: u64, title: Seq<char> },
    PaneStatusChanged { pane_id: u64, status: Option<Seq<char>> },
    PaneRenamed { pane_id: u64, title: Seq<char> },
    SyncInputChanged { window_id: u64, enabled: bool },
    PaneMoved {
        from_window_id: u64,
        to_window_id: u64,
        pane_id: u64,
        source_suggested_focus_id: Option<u64>,
        geometry: Seq<PaneGeometry>,
    },
}

pub open spec fn option_text(s: Option<String>) -> Option<Seq<char>> {
    match s {
        Some(text) => Some(text@),
        None => None,
    }
}

impl View for Event {
    type V = EventView;

    open spec fn view(&self) -> EventView {
        match *self {
            Event::PaneSplit {
                window_id,
                target_pane_id,
                new_pane_id,
                axis,
                ratio_bits,
                spawn,
                geometry,
            } => EventView::PaneSplit {
                window_id,
                target_pane_id,
                new_pane_id,
                axis,
                ratio_bits,
                spawn: spawn@,
                geometry: geometry@,
            },
            Event::PaneClosed {
                window_id,
                pane_id,
                suggested_focus_id,
                geometry,
            } => EventView::PaneClosed {
                window_id,
                pane_id,
                suggested_focus_id,
                geometry: geometry@,
            },
            Event::GeometryChanged { window_id, bounds, geometry } => EventView::GeometryChanged {
                window_id,
                bounds,
                geometry: geometry@,
            },
            Event::SizeOwnerChanged { window_id, owner } => EventView::SizeOwnerChanged {
                window_id,
                owner,
            },
            Event::FocusSuggested { window_id, pane_id, reason } => EventView::FocusSuggested {
                window_id,
                pane_id,
                reason: option_text(reason),
            },
            Event::FocusReported { client_id, window_id, pane_id } => EventView::FocusReported {
                client_id,
                window_id,
                pane_id,
            },
            Event::MailAttentionChanged {
                pane_id,
                cell,
                gen,
                queue_rev,
                depth,
                wake,
            } => EventView::MailAttentionChanged {
                pane_id,
                cell: option_text(cell),
                gen,
                queue_rev,
                depth,
                wake,
            },
            Event::PaneAttention { pane_id, message } => EventView::PaneAttention {
                pane_id,
                message: message@,
            },
            Event::PaneAttentionCleared { pane_id } => EventView::PaneAttentionCleared { pane_id },
            Event::LeaseChanged {
                pane_id,
                controller_id,
                previous_controller_id,
            } => EventView::LeaseChanged {
                pane_id,
                controller_id,
                previous_controller_id,
            },
            Event::SpaceOwnershipChanged {
                session_ids,
                from,
                to,
            } => EventView::SpaceOwnershipChanged {
                session_ids: session_ids@,
                from: option_text(from),
                to: option_text(to),
            },
            Event::SessionCreated {
                session_id,
                name,
                window_id,
                pane_id,
                bounds,
                spawn,
            } => EventView::SessionCreated {
                session_id,
                name: name@,
                window_id,
                pane_id,
                bounds,
                spawn: spawn@,
            },
            Event::SessionNamed { session_id, name } => EventView::SessionNamed {
                session_id,
                name: name@,
            },
            Event::SessionSwitched {
                client_id,
                session_id,
                window_id,
                pane_id,
            } => EventView::SessionSwitched {
                client_id,
                session_id,
                window_id,
                pane_id,
            },
            Event::SessionDestroyed { session_id, name } => EventView::SessionDestroyed {
                session_id,
                name: name@,
            },
            Event::OutputActivity { pane_id, revision, child_alive } => EventView::OutputActivity {
                pane_id,
                revision,
                child_alive,
            },
            Event::WindowCreated {
                session_id,
                window_id,
                pane_id,
                title,
                bounds,
                spawn,
            } => EventView::WindowCreated {
                session_id,
                window_id,
                pane_id,
                title: title@,
                bounds,
                spawn: spawn@,
            },
            Event::WindowDestroyed {
                session_id,
                window_id,
                session_destroyed,
            } => EventView::WindowDestroyed {
                session_id,
                window_id,
                session_destroyed,
            },
            Event::WindowSwitched {
                client_id,
                session_id,
                window_id,
                pane_id,
            } => EventView::WindowSwitched {
                client_id,
                session_id,
                window_id,
                pane_id,
            },
            Event::WindowRenamed { window_id, title } => EventView::WindowRenamed {
                window_id,
                title: title@,
            },
            Event::PaneStatusChanged { pane_id, status } => EventView::PaneStatusChanged {
                pane_id,
                status: option_text(status),
            },
            Event::PaneRenamed { pane_id, title } => EventView::PaneRenamed {
                pane_id,
                title: title@,
            },
            Event::SyncInputChanged { window_id, enabled } => EventView::SyncInputChanged {
                window_id,
                enabled,
            },
            Event::PaneMoved {
                from_window_id,
                to_window_id,
                pane_id,
                source_suggested_focus_id,
                geometry,
            } => EventView::PaneMoved {
                from_window_id,
                to_window_id,
                pane_id,
                source_suggested_focus_id,
                geometry: geometry@,
            },
        }
    }
}

/// Copies a list of pane rectangles.
pub fn clone_geometry(v: &Vec<PaneGeometry>) -> (r: Vec<PaneGeometry>)
    ensures
        r@ == v@,
{
    let mut r: Vec<PaneGeometry> = Vec::new();
    let mut i: usize = 0;
    while i < v.len()
        invariant
            i <= v@.len(),
            r@ == v@.take(i as int),
        decreases v@.len() - i,
    {
        r.push(v[i]);
        i = i + 1;
    }
    assert(v@.take(i as int) =~= v@);
    r
}

/// Copies a list of ids.
pub fn clone_ids(v: &Vec<u64>) -> (r: Vec<u64>)
    ensures
        r@ == v@,
{
    let mut r: Vec<u64> = Vec::new();
    let mut i: usize = 0;
    while i < v.len()
        invariant
            i <= v@.len(),
            r@ == v@.take(i as int),
        decreases v@.len() - i,
    {
        r.push(v[i]);
        i = i + 1;
    }
    assert(v@.take(i as int) =~= v@);
    r
}

/// Copies an optional text.
pub fn clone_option_text(s: &Option<String>) -> (r: Option<String>)
    ensures
        r == *s,
{
    match s {
        Some(text) => Some(text.clone()),
        None => None,
    }
}

impl Clone for Event {
    fn clone(&self) -> (r: Self)
        ensures
            r@ == self@,
    {
        match self {
            Event::PaneSplit {
                window_id,
                target_pane_id,
                new_pane_id,
                axis,
                ratio_bits,
                spawn,
                geometry,
            } => Event::PaneSplit {
                window_id: *window_id,
                target_pane_id: *target_pane_id,
                new_pane_id: *new_pane_id,
                axis: *axis,
                ratio_bits: *ratio_bits,
                spawn: spawn.clone(),
                geometry: clone_geometry(geometry),
            },
            Event::PaneClosed { window_id, pane_id, suggested_focus_id, geometry } =>
                Event::PaneClosed {
                window_id: *window_id,
                pane_id: *pane_id,
                suggested_focus_id: *suggested_focus_id,
                geometry: clone_geometry(geometry),
            },
            Event::GeometryChanged { window_id, bounds, geometry } => Event::GeometryChanged {
                window_id: *window_id,
                bounds: *bounds,
                geometry: clone_geometry(geometry),
            },
            Event::SizeOwnerChanged { window_id, owner } => Event::SizeOwnerChanged {
                window_id: *window_id,
                owner: *owner,
            },
            Event::FocusSuggested { window_id, pane_id, reason } => Event::FocusSuggested {
                window_id: *window_id,
                pane_id: *pane_id,
                reason: clone_option_text(reason),
            },
            Event::FocusReported { client_id, window_id, pane_id } => Event::FocusReported {
                client_id: *client_id,
                window_id: *window_id,
                pane_id: *pane_id,
            },
            Event::MailAttentionChanged { pane_id, cell, gen, queue_rev, depth, wake } =>
                Event::MailAttentionChanged {
                pane_id: *pane_id,
                cell: clone_option_text(cell),
                gen: *gen,
                queue_rev: *queue_rev,
                depth: *depth,
                wake: *wake,
            },
            Event::PaneAttention { pane_id, message } => Event::PaneAttention {
                pane_id: *pane_id,
                message: message.clone(),
            },
            Event::PaneAttentionCleared { pane_id } => Event::PaneAttentionCleared {
                pane_id: *pane_id,
            },
            Event::LeaseChanged { pane_id, controller_id, previous_controller_id } =>
                Event::LeaseChanged {
                pane_id: *pane_id,
                controller_id: *controller_id,
                previous_controller_id: *previous_controller_id,
            },
            Event::SpaceOwnershipChanged { session_ids, from, to } =>
                Event::SpaceOwnershipChanged {
                session_ids: clone_ids(session_ids),
                from: clone_option_text(from),
                to: clone_option_text(to),
            },
            Event::SessionCreated { session_id, name, window_id, pane_id, bounds, spawn } =>
                Event::SessionCreated {
                session_id: *session_id,
                name: name.clone(),
                window_id: *window_id,
                pane_id: *pane_id,
                bounds: *bounds,
                spawn: spawn.clone(),
            },
            Event::SessionNamed { session_id, name } => Event::SessionNamed {
                session_id: *session_id,
                name: name.clone(),
            },
            Event::SessionSwitched { client_id, session_id, window_id, pane_id } =>
                Event::SessionSwitched {
                client_id: *client_id,
                session_id: *session_id,
                window_id: *window_id,
                pane_id: *pane_id,
            },
            Event::SessionDestroyed { session_id, name } => Event::SessionDestroyed {
                session_id: *session_id,
                name: name.clone(),
            },
            Event::OutputActivity { pane_id, revision, child_alive } => Event::OutputActivity {
                pane_id: *pane_id,
                revision: *revision,
                child_alive: *child_alive,
            },
            Event::WindowCreated { session_id, window_id, pane_id, title, bounds, spawn } =>
                Event::WindowCreated {
                session_id: *session_id,
                window_id: *window_id,
                pane_id: *pane_id,
                title: title.clone(),
                bounds: *bounds,
                spawn: spawn.clone(),
            },
            Event::WindowDestroyed { session_id, window_id, session_destroyed } =>
                Event::WindowDestroyed {
                session_id: *session_id,
                window_id: *window_id,
                session_destroyed: *session_destroyed,
            },
            Event::WindowSwitched { client_id, session_id, window_id, pane_id } =>
                Event::WindowSwitched {
                client_id: *client_id,
                session_id: *session_id,
                window_id: *window_id,
                pane_id: *pane_id,
            },
            Event::WindowRenamed { window_id, title } => Event::WindowRenamed {
                window_id: *window_id,
                title: title.clone(),
            },
            Event::PaneStatusChanged { pane_id, status } => Event::PaneStatusChanged {
                pane_id: *pane_id,
                status: clone_option_text(status),
            },
            Event::PaneRenamed { pane_id, title } => Event::PaneRenamed {
                pane_id: *pane_id,
                title: title.clone(),
            },
            Event::SyncInputChanged { window_id, enabled } => Event::SyncInputChanged {
                window_id: *window_id,
                enabled: *enabled,
            },
            Event::PaneMoved {
                from_window_id,
                to_window_id,
                pane_id,
                source_suggested_focus_id,
                geometry,
            } => Event::PaneMoved {
                from_window_id: *from_window_id,
                to_window_id: *to_window_id,
                pane_id: *pane_id,
                source_suggested_focus_id: *source_suggested_focus_id,
                geometry: clone_geometry(geometry),
            },
        }
    }
}

/// An event with its place in the domain-wide order.
#[derive(Debug, PartialEq)]
pub struct EventEnvelope {
    pub sequence: u64,
    pub event: Event,
}

/// What an envelope says.
pub struct EnvelopeView {
    pub sequence: int,
    pub event: EventView,
}

impl View for EventEnvelope {
    type V = EnvelopeView;

    open spec fn view(&self) -> EnvelopeView {
        EnvelopeView { sequence: self.sequence as int, event: self.event@ }
    }
}

pub open spec fn envelopes(v: Seq<EventEnvelope>) -> Seq<EnvelopeView> {
    v.map_values(|e: EventEnvelope| e@)
}

/// A replay answer.
#[derive(Debug, PartialEq)]
pub struct EventBatch {
    pub after_sequence: u64,
    /// Last sequence in this batch (or `after_sequence` when empty).
    pub through_sequence: u64,
    pub current_sequence: u64,
    pub has_more: bool,
    pub events: Vec<EventEnvelope>,
}

#[verifier::ext_equal]
pub struct BatchView {
    pub after_sequence: u64,
    pub through_sequence: u64,
    pub current_sequence: u64,
    pub has_more: bool,
    pub events: Seq<EnvelopeView>,
}

impl View for EventBatch {
    type V = BatchView;

    open spec fn view(&self) -> BatchView {
        BatchView {
            after_sequence: self.after_sequence,
            through_sequence: self.through_sequence,
            current_sequence: self.current_sequence,
            has_more: self.has_more,
            events: envelopes(self.events@),
        }
    }
}

/// Bounded history of the most recent events.
#[derive(Debug, PartialEq)]
pub struct EventRing {
    pub sequence: u64,
    pub capacity: usize,
    pub events: VecDeque<EventEnvelope>,
}

/// What an `EventRing` holds.
pub struct RingView {
    pub sequence: int,
    pub capacity: nat,
    pub events: Seq<EnvelopeView>,
}

/// The pane whose output an event reports, if it reports output.
pub open spec fn activity_pane(event: EventView) -> Option<u64> {
    match event {
        EventView::OutputActivity { pane_id, .. } => Some(pane_id),
        _ => None,
    }
}

impl RingView {
    /// The most recent events are held, as many as fit; they are numbered without
    /// gap up to `sequence`; no pane has two output hints.
    pub open spec fn wf(self) -> bool {
        &&& 1 <= self.capacity <= MAX_EVENT_CAPACITY
        &&& 0 <= self.sequence <= u64::MAX
        &&& self.events.len() == if self.sequence < self.capacity {
            self.sequence
        } else {
            self.capacity as int
        }
        &&& forall|i: int|
            0 <= i < self.events.len() ==> (#[trigger] self.events[i]).sequence == self.sequence
                - self.events.len() + 1 + i
        &&& forall|i: int, j: int|
            #![trigger self.events[i], self.events[j]]
            0 <= i < j < self.events.len() && activity_pane(self.events[i].event) is Some
                ==> activity_pane(self.events[i].event) != activity_pane(self.events[j].event)
    }

    /// No more events are held than fit, numbered without gap up to `sequence`.
    pub open spec fn numbered(self) -> bool {
        &&& self.events.len() <= self.capacity
        &&& forall|i: int|
            0 <= i < self.events.len() ==> (#[trigger] self.events[i]).sequence == self.sequence
                - self.events.len() + 1 + i
    }

    /// An event can be appended without a second output hint for its pane.
    pub open spec fn admits(self, event: EventView) -> bool {
        activity_pane(event) matches Some(pane) ==> !self.has_activity(pane)
    }

    /// Append one event; at capacity the oldest one goes.
    pub open spec fn emit(self, event: EventView) -> RingView {
        let kept = if self.events.len() == self.capacity {
            self.events.drop_first()
        } else {
            self.events
        };
        RingView {
            sequence: self.sequence + 1,
            capacity: self.capacity,
            events: kept.push(EnvelopeView { sequence: self.sequence + 1, event }),
        }
    }

    /// Append one event, unless the sequence space is used up.
    pub open spec fn publish(self, event: EventView) -> RingView {
        if self.sequence < u64::MAX {
            self.emit(event)
        } else {
            self
        }
    }

    /// Place of the latest output hint of a pane.
    pub open spec fn activity_at(self, pane: u64, i: int) -> bool {
        0 <= i < self.events.len() && activity_pane(self.events[i].event) == Some(pane)
    }

    pub open spec fn has_activity(self, pane: u64) -> bool {
        exists|i: int| self.activity_at(pane, i)
    }

    /// Refresh the output hint of a pane in place, or append one.
    pub open spec fn note_activity(self, pane: u64, revision: u64, child_alive: bool) -> RingView {
        let event = EventView::OutputActivity { pane_id: pane, revision, child_alive };
        if self.has_activity(pane) {
            let i = choose|i: int| self.activity_at(pane, i);
            RingView {
                events: self.events.update(
                    i,
                    EnvelopeView { sequence: self.events[i].sequence, event },
                ),
                ..self
            }
        } else if self.sequence < u64::MAX {
            self.emit(event)
        } else {
            self
        }
    }

    /// Oldest sequence that replay can still start with.
    pub open spec fn oldest(self) -> int {
        if self.events.len() > 0 {
            self.sequence - self.events.len() + 1
        } else if self.sequence < u64::MAX {
            self.sequence + 1
        } else {
            u64::MAX as int
        }
    }

    /// Up to `limit` events that follow `after`.
    pub open spec fn replay(self, after: int, limit: int) -> Seq<EnvelopeView> {
        let start = after - (self.sequence - self.events.len());
        let end = if start + limit <= self.events.len() {
            start + limit
        } else {
            self.events.len() as int
        };
        self.events.subrange(start, end)
    }

    /// What a reader gets after `after`.
    pub open spec fn batch(self, after: u64, limit: Option<usize>) -> BatchView {
        let n = match limit {
            Some(n) => n,
            None => MAX_EVENT_BATCH,
        };
        let events = self.replay(after as int, n as int);
        BatchView {
            after_sequence: after,
            through_sequence: (after + events.len()) as u64,
            current_sequence: self.sequence as u64,
            has_more: after + events.len() < self.sequence,
            events,
        }
    }

    /// Replay yields the events that follow, numbered without gap, and a reader
    /// that goes on from where a batch ended sees each event once.
    pub proof fn replay_has_no_gap_and_no_repeat(self, after: int, n: int, m: int)
        requires
            self.wf(),
            self.sequence - self.events.len() <= after <= self.sequence,
            0 <= n,
            0 <= m,
        ensures
            ({
                let first = self.replay(after, n);
                &&& forall|i: int|
                    0 <= i < first.len() ==> (#[trigger] first[i]).sequence == after + 1 + i
                &&& first.len() == if n <= self.sequence - after {
                    n
                } else {
                    self.sequence - after
                }
                &&& first + self.replay(after + first.len(), m) =~= self.replay(after, n + m)
            }),
    {
        let first = self.replay(after, n);
        let start = after - (self.sequence - self.events.len());
        assert forall|i: int| 0 <= i < first.len() implies (#[trigger] first[i]).sequence == after
            + 1 + i by {
            assert(first[i] == self.events[start + i]);
        }
    }

    /// An emitted event, of whatever kind, gets the next sequence and is the last
    /// one held; the oldest one goes exactly where the history was full; what is
    /// held stays within the capacity and numbered without gap.
    pub proof fn an_emitted_event_is_next_and_last(self, event: EventView)
        requires
            1 <= self.capacity,
            self.numbered(),
        ensures
            self.emit(event).sequence == self.sequence + 1,
            self.emit(event).capacity == self.capacity,
            self.emit(event).events == (if self.events.len() == self.capacity {
                self.events.drop_first()
            } else {
                self.events
            }).push(EnvelopeView { sequence: self.sequence + 1, event }),
            self.emit(event).numbered(),
            self.wf() && self.sequence < u64::MAX && self.admits(event) ==> self.emit(event).wf(),
    {
        let after = self.emit(event);
        let off: int = if self.events.len() == self.capacity {
            1
        } else {
            0
        };
        assert forall|i: int| 0 <= i < after.events.len() implies (
        #[trigger] after.events[i]).sequence == after.sequence - after.events.len() + 1 + i by {
            if i < after.events.len() - 1 {
                assert(after.events[i] == self.events[i + off]);
            }
        }
        if self.wf() && self.admits(event) {
            assert forall|i: int, j: int|
                #![trigger after.events[i], after.events[j]]
                0 <= i < j < after.events.len() && activity_pane(
                    after.events[i].event,
                ) is Some implies activity_pane(after.events[i].event) != activity_pane(
                after.events[j].event,
            ) by {
                assert(after.events[i] == self.events[i + off]);
                if j < after.events.len() - 1 {
                    assert(after.events[j] == self.events[j + off]);
                } else if activity_pane(event) is Some {
                    assert(!self.activity_at(activity_pane(event)->0, i + off));
                }
            }
        }
    }

    /// Publishing raises the sequence by one, as long as the space lasts, and
    /// drops at most the oldest event.
    pub proof fn publish_appends(self, event: EventView)
        requires
            self.wf(),
            self.sequence < u64::MAX,
        ensures
            self.publish(event).sequence == self.sequence + 1,
            self.publish(event).events.last() == (EnvelopeView {
                sequence: self.sequence + 1,
                event,
            }),
            forall|e: EnvelopeView|
                #![trigger self.publish(event).events.contains(e)]
                self.events.contains(e) && e != self.events[0] ==> self.publish(
                    event,
                ).events.contains(e),
    {
        let after = self.publish(event).events;
        assert forall|e: EnvelopeView|
            #![trigger after.contains(e)]
            self.events.contains(e) && e != self.events[0] implies after.contains(e) by {
            let k = choose|k: int| 0 <= k < self.events.len() && self.events[k] == e;
            if self.events.len() == self.capacity {
                assert(after[k - 1] == e);
            } else {
                assert(after[k] == e);
            }
        }
    }

    /// Why replay after `after` is refused.
    pub open spec fn replay_fault(self, after: u64, limit: Option<usize>) -> Option<
        crate::error::ErrorView,
    > {
        let n = match limit {
            Some(n) => n,
            None => MAX_EVENT_BATCH,
        };
        if !(1 <= n <= MAX_EVENT_BATCH) {
            Some(
                plain_error(ControlErrorCode::InvalidRequest, "event limit must be in 1..=256"@),
            )
        } else if after > self.sequence {
            Some(
                resnapshot_error(
                    ControlErrorCode::StaleSequence,
                    "sequence "@ + decimal(after as nat) + (" is ahead of current "@ + decimal(
                        self.sequence as nat,
                    )),
                    self.oldest() as u64,
                    self.sequence as u64,
                ),
            )
        } else if after + 1 < self.oldest() {
            Some(
                resnapshot_error(
                    ControlErrorCode::EventGap,
                    "events after "@ + decimal(after as nat) + (
                    " are no longer retained; oldest is "@ + decimal(self.oldest() as nat)),
                    self.oldest() as u64,
                    self.sequence as u64,
                ),
            )
        } else {
            None
        }
    }
}

impl View for EventRing {
    type V = RingView;

    open spec fn view(&self) -> RingView {
        RingView {
            sequence: self.sequence as int,
            capacity: self.capacity as nat,
            events: envelopes(self.events@),
        }
    }
}

fn is_activity_of(event: &Event, pane: u64) -> (r: bool)
    ensures
        r == (activity_pane(event@) == Some(pane)),
{
    match event {
        Event::OutputActivity { pane_id, .. } => *pane_id == pane,
        _ => false,
    }
}

impl EventRing {
    /// An empty history, or the reason why the capacity is refused.
    pub fn new(capacity: usize) -> (r: Result<Self, ControlError>)
        ensures
            1 <= capacity <= MAX_EVENT_CAPACITY ==> (r matches Ok(ring) && ring@ == (RingView {
                sequence: 0,
                capacity: capacity as nat,
                events: Seq::empty(),
            }) && ring@.wf()),
            !(1 <= capacity <= MAX_EVENT_CAPACITY) ==> (r matches Err(e) && e@ == plain_error(
                ControlErrorCode::InvalidRequest,
                "event capacity must be in 1..=4096"@,
            )),
    {
        if capacity < 1 || capacity > MAX_EVENT_CAPACITY {
            return Err(
                ControlError::new(
                    ControlErrorCode::InvalidRequest,
                    "event capacity must be in 1..=4096",
                ),
            );
        }
        let ring = EventRing { sequence: 0, capacity, events: VecDeque::new() };
        assert(ring@.events =~= Seq::empty());
        Ok(ring)
    }

    pub fn has_capacity(&self) -> (r: Result<(), ControlError>)
        ensures
            self@.sequence < u64::MAX ==> r is Ok,
            self@.sequence == u64::MAX ==> (r matches Err(e) && e@ == sequence_exhausted()),
    {
        if self.sequence == u64::MAX {
            Err(
                ControlError::new(
                    ControlErrorCode::SequenceExhausted,
                    "event sequence space exhausted",
                ),
            )
        } else {
            Ok(())
        }
    }

    pub fn oldest_available_sequence(&self) -> (n: u64)
        requires
            self@.wf(),
        ensures
            n == self@.oldest(),
    {
        if self.events.len() > 0 {
            proof {
                assert(self@.events[0].sequence == self@.sequence - self@.events.len() + 1);
            }
            self.events[0].sequence
        } else {
            self.sequence.saturating_add(1)
        }
    }

    /// Append one event and return its sequence. A second output hint of a pane is
    /// the caller's to avoid.
    pub fn emit(&mut self, event: Event) -> (sequence: u64)
        requires
            old(self)@.wf(),
            old(self)@.sequence < u64::MAX,
        ensures
            final(self)@ == old(self)@.emit(event@),
            final(self)@.numbered(),
            old(self)@.admits(event@) ==> final(self)@.wf(),
            sequence == old(self)@.sequence + 1,
    {
        let ghost before = self@;
        let ghost said = event@;
        self.sequence = self.sequence + 1;
        if self.events.len() == self.capacity {
            let _ = self.events.pop_front();
            assert(self@.events =~= before.events.drop_first());
        }
        self.events.push_back(EventEnvelope { sequence: self.sequence, event });
        proof {
            assert(self@.events =~= before.emit(said).events);
            before.an_emitted_event_is_next_and_last(said);
        }
        self.sequence
    }

    /// Append one event, unless the sequence space is used up, and return the
    /// sequence that is reached.
    pub fn publish(&mut self, event: Event) -> (sequence: u64)
        requires
            old(self)@.wf(),
        ensures
            final(self)@ == old(self)@.publish(event@),
            final(self)@.numbered(),
            old(self)@.admits(event@) ==> final(self)@.wf(),
            sequence == final(self)@.sequence,
    {
        if self.sequence < u64::MAX {
            self.emit(event)
        } else {
            self.sequence
        }
    }

    /// Keep at most one output hint per pane: busy output must not evict other events.
    pub fn note_activity(&mut self, pane: u64, revision: u64, child_alive: bool)
        requires
            old(self)@.wf(),
        ensures
            final(self)@ == old(self)@.note_activity(pane, revision, child_alive),
            final(self)@.wf(),
    {
        let ghost before = self@;
        let event = Event::OutputActivity { pane_id: pane, revision, child_alive };
        let mut i: usize = self.events.len();
        while i > 0
            invariant
                i <= self.events@.len(),
                self@ == before,
                before == old(self)@,
                before.wf(),
                event == (Event::OutputActivity { pane_id: pane, revision, child_alive }),
                forall|k: int| i <= k < self.events@.len() ==> !before.activity_at(pane, k),
            decreases i,
        {
            i = i - 1;
            if is_activity_of(&self.events[i].event, pane) {
                proof {
                    assert(before.activity_at(pane, i as int));
                    let k = choose|k: int| before.activity_at(pane, k);
                    assert(before.activity_at(pane, k));
                    if k != i {
                        if k < i {
                            assert(activity_pane(before.events[k].event) != activity_pane(
                                before.events[i as int].event,
                            ));
                        }
                        assert(false);
                    }
                }
                let sequence: u64 = self.events[i].sequence;
                let _ = self.events.remove(i);
                self.events.insert(i, EventEnvelope { sequence, event });
                proof {
                    assert(self@.events =~= before.note_activity(
                        pane,
                        revision,
                        child_alive,
                    ).events);
                    assert forall|a: int, b: int|
                        #![trigger self@.events[a], self@.events[b]]
                        0 <= a < b < self@.events.len() && activity_pane(
                            self@.events[a].event,
                        ) is Some implies activity_pane(self@.events[a].event) != activity_pane(
                        self@.events[b].event,
                    ) by {
                        assert(activity_pane(self@.events[a].event) == activity_pane(
                            before.events[a].event,
                        ));
                        assert(activity_pane(self@.events[b].event) == activity_pane(
                            before.events[b].event,
                        ));
                    }
                }
                return ;
            }
            assert(!before.activity_at(pane, i as int));
        }
        assert(!before.has_activity(pane));
        if self.sequence < u64::MAX {
            let _ = self.emit(event);
        }
    }

    /// Events that follow `after_sequence`, or the reason to take a new snapshot.
    pub fn events_after(&self, after_sequence: u64, limit: Option<usize>) -> (r: Result<
        EventBatch,
        ControlError,
    >)
        requires
            self@.wf(),
        ensures
            match self@.replay_fault(after_sequence, limit) {
                Some(fault) => r matches Err(e) && e@ == fault,
                None => r matches Ok(batch) && batch@ == self@.batch(after_sequence, limit),
            },
    {
        let limit: usize = match limit {
            Some(n) => n,
            None => MAX_EVENT_BATCH,
        };
        if limit < 1 || limit > MAX_EVENT_BATCH {
            return Err(
                ControlError::new(
                    ControlErrorCode::InvalidRequest,
                    "event limit must be in 1..=256",
                ),
            );
        }
        let oldest: u64 = self.oldest_available_sequence();
        if after_sequence > self.sequence {
            let tail: String = concat2(
                " is ahead of current ",
                decimal_text(self.sequence).as_str(),
            );
            let message: String = concat3(
                "sequence ",
                decimal_text(after_sequence).as_str(),
                tail.as_str(),
            );
            return Err(
                ControlError::resnapshot(
                    ControlErrorCode::StaleSequence,
                    message.as_str(),
                    oldest,
                    self.sequence,
                ),
            );
        }
        if after_sequence.saturating_add(1) < oldest {
            let tail: String = concat2(
                " are no longer retained; oldest is ",
                decimal_text(oldest).as_str(),
            );
            let message: String = concat3(
                "events after ",
                decimal_text(after_sequence).as_str(),
                tail.as_str(),
            );
            return Err(
                ControlError::resnapshot(
                    ControlErrorCode::EventGap,
                    message.as_str(),
                    oldest,
                    self.sequence,
                ),
            );
        }
        let mut events: Vec<EventEnvelope> = Vec::new();
        assert(self.sequence - after_sequence <= self@.events.len());
        let ghost wanted = self@.replay(after_sequence as int, limit as int);
        let skip: usize = self.events.len() - (self.sequence - after_sequence) as usize;
        let mut i: usize = skip;
        while i < self.events.len() && events.len() < limit
            invariant
                self@.wf(),
                1 <= limit <= MAX_EVENT_BATCH,
                after_sequence <= self.sequence,
                skip == self@.events.len() - (self.sequence - after_sequence),
                skip <= i <= self@.events.len(),
                events@.len() == i - skip,
                events@.len() <= limit,
                wanted == self@.replay(after_sequence as int, limit as int),
                envelopes(events@) == wanted.take(events@.len() as int),
                events@.len() <= wanted.len(),
            decreases self@.events.len() - i,
        {
            let next = EventEnvelope {
                sequence: self.events[i].sequence,
                event: self.events[i].event.clone(),
            };
            proof {
                assert(wanted[i - skip] == self@.events[i as int]);
                assert(wanted.take(i - skip + 1).drop_last() =~= wanted.take(i - skip));
            }
            events.push(next);
            i = i + 1;
        }
        assert(wanted.take(events@.len() as int) =~= wanted);
        let through_sequence: u64 = if events.len() > 0 {
            proof {
                let last = events@.len() - 1;
                assert(events@[last].sequence == wanted[last].sequence);
                assert(wanted[last] == self@.events[skip + last]);
            }
            events[events.len() - 1].sequence
        } else {
            after_sequence
        };
        Ok(
            EventBatch {
                after_sequence,
                through_sequence,
                current_sequence: self.sequence,
                has_more: through_sequence < self.sequence,
                events,
            },
        )
    }

    /// Error for a reader that has no snapshot on its connection yet.
    pub fn snapshot_required_error(&self) -> (e: ControlError)
        requires
            self@.wf(),
        ensures
            e@ == resnapshot_error(
                ControlErrorCode::SnapshotRequired,
                "take a fresh snapshot before reading events on this connection"@,
                self@.oldest() as u64,
                self.sequence,
            ),
    {
        ControlError::resnapshot(
            ControlErrorCode::SnapshotRequired,
            "take a fresh snapshot before reading events on this connection",
            self.oldest_available_sequence(),
            self.sequence,
        )
    }
}

pub open spec fn sequence_exhausted() -> crate::error::ErrorView {
    plain_error(ControlErrorCode::SequenceExhausted, "event sequence space exhausted"@)
}

} // verus!
