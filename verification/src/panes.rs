//! Panes come, go and move: split, close, arrange, move.
//!
//! Each handler first asks the layout engine for a placement and then, on a
//! live plane, the runtime to carry it out. The change is made when both have
//! answered; a refusal anywhere leaves the state as it was, but for the number of a
//! pane that was not started.
use vstd::prelude::*;
use vstd::string::*;

use crate::attention::ack;
use crate::error::{
    control_domain_error, domain_error_view, live_internal_error, live_internal_view, plain_error,
    stale_error, stale_id, ControlError, ControlErrorCode, DomainError, ErrorView,
};
use crate::event::{clone_geometry, clone_option_text, option_text, Event, EventView};
use crate::idmap::group_views;
use crate::model::group_seq_views;
use crate::place::{
    check_placed, entry_of, find_entry, lemma_entry_of, misplaced, misplaced_view, placed,
    reject_zero, zero_fault, Placement,
};
use crate::plane::{checked, first_fault, pane_ids, ControlPlane, PlaneView};
use crate::state::{
    group_pane_states, Ask, AskView, Effect, EffectView, Frame, FrameView, PaneState, PaneStateView,
};
use crate::step::{accept, refusal, refuse, Step, StepView};
use crate::topology::{contains_id, drop_id, without_id, PaneLayout};
use crate::wire::{
    ArrangementWire, AxisWire, PaneGeometry, SpawnSpec, SpawnView, WindowBounds,
};

verus! {

broadcast use {group_views, group_seq_views, group_pane_states};

/// Answer of the layout engine.
pub type Placed = Option<Result<Placement, DomainError>>;

/// Answer of the runtime: done, or why not.
pub type Lived = Option<Result<(), String>>;

/// An answer of the runtime taken by view.
pub open spec fn lived_view(r: Lived) -> Option<Result<(), Seq<char>>> {
    match r {
        None => None,
        Some(Ok(())) => Some(Ok(())),
        Some(Err(text)) => Some(Err(text@)),
    }
}

/// Where a change stands with the runtime.
pub enum LiveGate {
    /// Nothing stands in the way.
    Go,
    /// The runtime has to answer first.
    Ask,
    /// The runtime refused.
    Refused(ControlError),
}

pub enum LiveGateView {
    Go,
    Ask,
    Refused(ErrorView),
}

impl View for LiveGate {
    type V = LiveGateView;

    open spec fn view(&self) -> LiveGateView {
        match *self {
            LiveGate::Go => LiveGateView::Go,
            LiveGate::Ask => LiveGateView::Ask,
            LiveGate::Refused(error) => LiveGateView::Refused(error@),
        }
    }
}

pub open spec fn live_gate_of(live: bool, lived: Option<Result<(), Seq<char>>>) -> LiveGateView {
    if !live {
        LiveGateView::Go
    } else {
        match lived {
            None => LiveGateView::Ask,
            Some(Ok(())) => LiveGateView::Go,
            Some(Err(text)) => LiveGateView::Refused(live_internal_view(text)),
        }
    }
}

pub fn live_gate(live: bool, lived: &Lived) -> (g: LiveGate)
    ensures
        g@ == live_gate_of(live, lived_view(*lived)),
{
    if !live {
        return LiveGate::Go;
    }
    match lived {
        None => LiveGate::Ask,
        Some(Ok(())) => LiveGate::Go,
        Some(Err(text)) => LiveGate::Refused(live_internal_error(text.as_str())),
    }
}

impl PlaneView {
    pub open spec fn with_frame(
        self,
        window: u64,
        bounds: WindowBounds,
        geometry: Seq<PaneGeometry>,
    ) -> PlaneView {
        PlaneView { frames: self.frames.insert(window, FrameView { bounds, geometry }), ..self }
    }

    pub open spec fn leaves_of(self, window: u64) -> Seq<u64> {
        self.domain.windows[window].layout.leaves()
    }

    /// The agent of the session that holds a window.
    pub open spec fn agent_of_window(self, window: u64) -> Option<Seq<char>> {
        self.domain.sessions[self.domain.windows[window].session].agent_id
    }

    /// A client that acts on a pane must hold its lease; no client is the host.
    pub open spec fn controller_fault(self, client: Option<u64>, pane: u64) -> Option<ErrorView> {
        match client {
            None => None,
            Some(raw) => if self.client_fault(raw) is Some {
                self.client_fault(raw)
            } else {
                match self.domain.holder_fault(pane, raw) {
                    Some(error) => Some(domain_error_view(error)),
                    None => None,
                }
            },
        }
    }

    pub open spec fn split_fault(
        self,
        window: u64,
        target: u64,
        spawn: SpawnView,
        client: Option<u64>,
    ) -> Option<ErrorView> {
        first_fault(
            self.capacity_fault(),
            first_fault(
                spawn_fault(spawn),
                first_fault(
                    zero_fault("window"@, window),
                    first_fault(
                        zero_fault("pane"@, target),
                        first_fault(
                            self.controller_fault(client, target),
                            first_fault(
                                self.window_fault(window),
                                if self.domain.next_pane == u64::MAX {
                                    Some(domain_error_view(DomainError::IdSpaceExhausted))
                                } else {
                                    None
                                },
                            ),
                        ),
                    ),
                ),
            ),
        )
    }

    pub open spec fn split_done(
        self,
        window: u64,
        target: u64,
        axis: AxisWire,
        ratio_bits: u64,
        spawn: SpawnView,
        layout: PaneLayout,
        geometry: Seq<PaneGeometry>,
    ) -> PlaneView {
        let pane = self.domain.next_pane;
        PlaneView { domain: self.domain.add_pane(window, layout), ..self }.with_frame(
            window,
            self.frames[window].bounds,
            geometry,
        ).with_pane(pane, PaneStateView { spawn: Some(spawn), ..self.panes[pane] }).publish(
            EventView::PaneSplit {
                window_id: window,
                target_pane_id: target,
                new_pane_id: pane,
                axis,
                ratio_bits,
                spawn,
                geometry,
            },
        )
    }

    /// Split a pane: a new pane beside `target`.
    pub open spec fn split(
        self,
        window: u64,
        target: u64,
        axis: AxisWire,
        ratio_bits: u64,
        spawn: SpawnView,
        client: Option<u64>,
        answer: Placed,
        lived: Option<Result<(), Seq<char>>>,
    ) -> (PlaneView, StepView) {
        let pane = self.domain.next_pane;
        match self.split_fault(window, target, spawn, client) {
            Some(fault) => (self, refusal(fault)),
            None => match answer {
                None => (
                    self,
                    StepView::Wait(
                        AskView::Split {
                            layout: self.domain.windows[window].layout,
                            target,
                            new_pane: pane,
                            axis,
                            ratio_bits,
                            bounds: self.frames[window].bounds,
                        },
                    ),
                ),
                Some(Err(error)) => (self, refusal(domain_error_view(error))),
                Some(Ok(p)) => match placed(
                    p.layout,
                    p.rects@,
                    self.leaves_of(window).push(pane),
                ) {
                    Err(fault) => (self, refusal(fault)),
                    Ok(geometry) => match live_gate_of(self.live, lived) {
                        LiveGateView::Ask => (
                            self,
                            StepView::Wait(
                                AskView::Spawn {
                                    pane: entry_of(geometry, pane)->0,
                                    spec: spawn,
                                    inherit: Some(target),
                                    agent: self.agent_of_window(window),
                                    geometry,
                                },
                            ),
                        ),
                        LiveGateView::Refused(fault) => (
                            PlaneView { domain: self.domain.pane_undone(), ..self }.note(
                                EffectView::RemovePane { pane },
                            ),
                            refusal(fault),
                        ),
                        LiveGateView::Go => {
                            let after = self.split_done(
                                window,
                                target,
                                axis,
                                ratio_bits,
                                spawn,
                                p.layout,
                                geometry,
                            );
                            (after, StepView::Reply(Ok(ack(after))))
                        },
                    },
                },
            },
        }
    }

    pub open spec fn close_fault(
        self,
        window: u64,
        pane: u64,
        prior_focus: u64,
        client: Option<u64>,
    ) -> Option<ErrorView> {
        first_fault(
            self.capacity_fault(),
            first_fault(
                zero_fault("window"@, window),
                first_fault(
                    zero_fault("pane"@, pane),
                    first_fault(
                        zero_fault("pane"@, prior_focus),
                        first_fault(
                            self.controller_fault(client, pane),
                            first_fault(
                                self.window_fault(window),
                                if !self.leaves_of(window).contains(prior_focus) {
                                    Some(stale_error("prior focus pane"@, prior_focus))
                                } else if !self.leaves_of(window).contains(pane) {
                                    Some(stale_error("pane"@, pane))
                                } else if self.leaves_of(window).len() == 1 {
                                    Some(domain_error_view(DomainError::LastLeafRefused))
                                } else {
                                    None
                                },
                            ),
                        ),
                    ),
                ),
            ),
        )
    }

    pub open spec fn close_done(
        self,
        window: u64,
        pane: u64,
        focus: u64,
        layout: PaneLayout,
        geometry: Seq<PaneGeometry>,
    ) -> PlaneView {
        PlaneView { domain: self.domain.remove_pane(pane, layout), ..self }.with_frame(
            window,
            self.frames[window].bounds,
            geometry,
        ).live_note(EffectView::RemovePane { pane }).forget_pane(pane).publish(
            EventView::PaneClosed {
                window_id: window,
                pane_id: pane,
                suggested_focus_id: focus,
                geometry,
            },
        )
    }

    /// Close a pane and suggest a focus among the others. The last pane of a window is
    /// not closed.
    pub open spec fn close(
        self,
        window: u64,
        pane: u64,
        prior_focus: u64,
        client: Option<u64>,
        answer: Placed,
        lived: Option<Result<(), Seq<char>>>,
    ) -> (PlaneView, StepView) {
        match self.close_fault(window, pane, prior_focus, client) {
            Some(fault) => (self, refusal(fault)),
            None => match answer {
                None => (
                    self,
                    StepView::Wait(
                        AskView::Close {
                            layout: self.domain.windows[window].layout,
                            pane,
                            prior_focus,
                            bounds: self.frames[window].bounds,
                        },
                    ),
                ),
                Some(Err(error)) => (self, refusal(domain_error_view(error))),
                Some(Ok(p)) => match placed(
                    p.layout,
                    p.rects@,
                    without_id(self.leaves_of(window), pane),
                ) {
                    Err(fault) => (self, refusal(fault)),
                    Ok(geometry) => match p.focus {
                        None => (self, refusal(misplaced_view())),
                        Some(focus) => match live_gate_of(self.live, lived) {
                            LiveGateView::Ask => (self, StepView::Wait(apply_ask(geometry))),
                            LiveGateView::Refused(fault) => (self, refusal(fault)),
                            LiveGateView::Go => {
                                let after = self.close_done(
                                    window,
                                    pane,
                                    focus,
                                    p.layout,
                                    geometry,
                                );
                                (after, StepView::Reply(Ok(ack(after))))
                            },
                        },
                    },
                },
            },
        }
    }

    /// The last pane of a window is not closed, whatever the host would answer.
    pub proof fn the_last_pane_stays(
        self,
        window: u64,
        pane: u64,
        prior_focus: u64,
        client: Option<u64>,
        answer: Placed,
        lived: Option<Result<(), Seq<char>>>,
    )
        requires
            self.leaves_of(window).len() == 1,
        ensures
            ({
                let (after, step) = self.close(window, pane, prior_focus, client, answer, lived);
                &&& after == self
                &&& step matches StepView::Reply(Err(_))
                &&& first_fault(self.capacity_fault(), self.controller_fault(client, pane)) is None
                    && zero_fault("window"@, window) is None && zero_fault("pane"@, pane) is None
                    && self.window_fault(window) is None && self.leaves_of(window)[0] == pane
                    && prior_focus == pane ==> step == refusal(
                    domain_error_view(DomainError::LastLeafRefused),
                )
            }),
    {
    }

    /// Arrange the panes of a window in a named way.
    pub open spec fn arrange(
        self,
        window: u64,
        kind: ArrangementWire,
        focused: Option<u64>,
        answer: Placed,
        lived: Option<Result<(), Seq<char>>>,
    ) -> (PlaneView, StepView) {
        let bounds = self.frames[window].bounds;
        match first_fault(self.capacity_fault(), self.window_fault(window)) {
            Some(fault) => (self, refusal(fault)),
            None => match answer {
                None => (
                    self,
                    StepView::Wait(
                        AskView::Arrange {
                            kind,
                            leaves: self.leaves_of(window),
                            main: match focused {
                                Some(0) => None,
                                _ => focused,
                            },
                            bounds,
                        },
                    ),
                ),
                Some(Err(error)) => (self, refusal(domain_error_view(error))),
                Some(Ok(p)) => match placed(p.layout, p.rects@, self.leaves_of(window)) {
                    Err(fault) => (self, refusal(fault)),
                    Ok(geometry) => match live_gate_of(self.live, lived) {
                        LiveGateView::Ask => (self, StepView::Wait(apply_ask(geometry))),
                        LiveGateView::Refused(fault) => (self, refusal(fault)),
                        LiveGateView::Go => {
                            let after = PlaneView {
                                domain: self.domain.with_layout(window, p.layout),
                                ..self
                            }.with_frame(window, bounds, geometry).publish(
                                EventView::GeometryChanged { window_id: window, bounds, geometry },
                            );
                            (after, StepView::Reply(Ok(ack(after))))
                        },
                    },
                },
            },
        }
    }
}

/// Apply geometry that no resize caused.
pub open spec fn apply_ask(geometry: Seq<PaneGeometry>) -> AskView {
    AskView::Apply {
        geometry,
        cell_width_px: None,
        cell_height_px: None,
        owner: None,
        sizes: false,
    }
}

pub fn ask_apply(geometry: &Vec<PaneGeometry>) -> (a: Ask)
    ensures
        a@ == apply_ask(geometry@),
{
    Ask::Apply {
        geometry: clone_geometry(geometry),
        cell_width_px: None,
        cell_height_px: None,
        owner: None,
        sizes: false,
    }
}

/// Launch data that breaks a limit.
pub open spec fn spawn_fault(spawn: SpawnView) -> Option<ErrorView> {
    match spawn.fault() {
        Some(message) => Some(plain_error(ControlErrorCode::InvalidRequest, message)),
        None => None,
    }
}

impl ControlPlane {
    pub(crate) fn put_frame(&mut self, window: u64, bounds: WindowBounds, geometry: Vec<
        PaneGeometry,
    >)
        ensures
            final(self)@ == old(self)@.with_frame(window, bounds, geometry@),
    {
        let _ = self.frames.insert(window, Frame { bounds, geometry });
    }

    /// The tree of a window that exists.
    pub(crate) fn layout_of(&self, window: u64) -> (r: PaneLayout)
        requires
            self@.domain.windows.contains_key(window),
        ensures
            r == self@.domain.windows[window].layout,
    {
        match self.domain.windows.get(window) {
            Some(w) => w.layout.copy(),
            None => PaneLayout::Leaf { pane_id: 0 },
        }
    }

    pub(crate) fn leaves_of(&self, window: u64) -> (v: Vec<u64>)
        requires
            self@.domain.windows.contains_key(window),
        ensures
            v@ == self@.leaves_of(window),
    {
        match self.domain.windows.get(window) {
            Some(w) => w.layout.panes(),
            None => Vec::new(),
        }
    }

    pub(crate) fn bounds_of(&self, window: u64) -> (r: WindowBounds)
        requires
            self@.frames.contains_key(window),
        ensures
            r == self@.frames[window].bounds,
    {
        match self.frames.get(window) {
            Some(frame) => frame.bounds,
            None => WindowBounds { window_id: window, cols: 0, rows: 0 },
        }
    }

    /// Agent of the session that holds a window.
    pub(crate) fn agent_id_for_window(&self, window: u64) -> (r: Option<String>)
        requires
            self@.domain.wf(),
            self@.domain.windows.contains_key(window),
        ensures
            option_text(r) == self@.agent_of_window(window),
    {
        let session: u64 = match self.domain.windows.get(window) {
            Some(w) => w.session,
            None => 0,
        };
        match self.domain.sessions.get(session) {
            Some(s) => clone_option_text(&s.agent_id),
            None => None,
        }
    }

    pub(crate) fn require_controller(&self, client: Option<u64>, pane: u64) -> (r: Result<
        (),
        ControlError,
    >)
        ensures
            checked(self@.controller_fault(client, pane), r),
    {
        match client {
            None => Ok(()),
            Some(raw) => {
                let _ = self.require_active_client(raw)?;
                match self.domain.require_controller(pane, raw) {
                    Ok(()) => Ok(()),
                    Err(error) => Err(control_domain_error(error)),
                }
            },
        }
    }

    fn check_split(&self, window: u64, target: u64, spawn: &SpawnSpec, client: Option<u64>) -> (r:
        Result<(), ControlError>)
        requires
            self@.wf(),
        ensures
            checked(self@.split_fault(window, target, spawn@, client), r),
    {
        self.ensure_sequence_capacity()?;
        spawn.validate()?;
        reject_zero("window", window)?;
        reject_zero("pane", target)?;
        self.require_controller(client, target)?;
        self.require_window(window)?;
        if self.domain.next_pane == u64::MAX {
            return Err(control_domain_error(DomainError::IdSpaceExhausted));
        }
        Ok(())
    }

    pub fn split(
        &mut self,
        window: u64,
        target: u64,
        axis: AxisWire,
        ratio_bits: u64,
        spawn: &SpawnSpec,
        client: Option<u64>,
        answer: &Placed,
        lived: &Lived,
    ) -> (r: Step)
        requires
            old(self)@.wf(),
        ensures
            (final(self)@, r@) == old(self)@.split(
                window,
                target,
                axis,
                ratio_bits,
                spawn@,
                client,
                *answer,
                lived_view(*lived),
            ),
            final(self)@.wf(),
    {
        if let Err(error) = self.check_split(window, target, spawn, client) {
            return refuse(error);
        }
        let bounds: WindowBounds = self.bounds_of(window);
        let pane: u64 = self.domain.next_pane;
        let p: &Placement = match answer {
            None => {
                return Step::Wait(
                    Ask::Split {
                        layout: self.layout_of(window),
                        target,
                        new_pane: pane,
                        axis,
                        ratio_bits,
                        bounds,
                    },
                );
            },
            Some(Err(error)) => {
                return refuse(control_domain_error(*error));
            },
            Some(Ok(p)) => p,
        };
        let mut want: Vec<u64> = self.leaves_of(window);
        want.push(pane);
        let geometry: Vec<PaneGeometry> = match check_placed(&p.layout, &p.rects, &want) {
            Ok(geometry) => geometry,
            Err(error) => {
                return refuse(error);
            },
        };
        proof {
            assert(want@[want@.len() - 1] == pane);
            assert(want@.contains(pane));
            assert(p.layout.leaves().contains(pane));
            assert(pane_ids(geometry@).contains(pane));
            lemma_entry_of(geometry@, pane);
        }
        match live_gate(self.live, lived) {
            LiveGate::Ask => {
                let entry: PaneGeometry = match find_entry(&geometry, pane) {
                    Some(entry) => entry,
                    None => PaneGeometry { pane_id: pane, col: 0, row: 0, cols: 0, rows: 0 },
                };
                Step::Wait(
                    Ask::Spawn {
                        pane: entry,
                        spec: spawn.clone(),
                        inherit: Some(target),
                        agent: self.agent_id_for_window(window),
                        geometry,
                    },
                )
            },
            LiveGate::Refused(error) => {
                self.domain.undo_pane();
                self.note(Effect::RemovePane { pane });
                refuse(error)
            },
            LiveGate::Go => {
                proof {
                    self@.domain.add_pane_keeps_wf(window, p.layout);
                }
                let _ = self.domain.add_pane(window, p.layout.copy());
                self.put_frame(window, bounds, clone_geometry(&geometry));
                let mut state: PaneState = self.take_pane(pane);
                state.spawn = Some(spawn.clone());
                self.put_pane(pane, state);
                let _ = self.publish(
                    Event::PaneSplit {
                        window_id: window,
                        target_pane_id: target,
                        new_pane_id: pane,
                        axis,
                        ratio_bits,
                        spawn: spawn.clone(),
                        geometry,
                    },
                );
                accept(self.ack())
            },
        }
    }

    fn check_close(&self, window: u64, pane: u64, prior_focus: u64, client: Option<u64>) -> (r:
        Result<(), ControlError>)
        requires
            self@.wf(),
        ensures
            checked(self@.close_fault(window, pane, prior_focus, client), r),
    {
        self.ensure_sequence_capacity()?;
        reject_zero("window", window)?;
        reject_zero("pane", pane)?;
        reject_zero("pane", prior_focus)?;
        self.require_controller(client, pane)?;
        self.require_window(window)?;
        let leaves: Vec<u64> = self.leaves_of(window);
        if !contains_id(&leaves, prior_focus) {
            return Err(stale_id("prior focus pane", prior_focus));
        }
        if !contains_id(&leaves, pane) {
            return Err(stale_id("pane", pane));
        }
        if leaves.len() == 1 {
            return Err(control_domain_error(DomainError::LastLeafRefused));
        }
        Ok(())
    }

    pub fn close(
        &mut self,
        window: u64,
        pane: u64,
        prior_focus: u64,
        client: Option<u64>,
        answer: &Placed,
        lived: &Lived,
    ) -> (r: Step)
        requires
            old(self)@.wf(),
        ensures
            (final(self)@, r@) == old(self)@.close(
                window,
                pane,
                prior_focus,
                client,
                *answer,
                lived_view(*lived),
            ),
            final(self)@.wf(),
    {
        if let Err(error) = self.check_close(window, pane, prior_focus, client) {
            return refuse(error);
        }
        let bounds: WindowBounds = self.bounds_of(window);
        let p: &Placement = match answer {
            None => {
                return Step::Wait(
                    Ask::Close { layout: self.layout_of(window), pane, prior_focus, bounds },
                );
            },
            Some(Err(error)) => {
                return refuse(control_domain_error(*error));
            },
            Some(Ok(p)) => p,
        };
        let leaves: Vec<u64> = self.leaves_of(window);
        let want: Vec<u64> = drop_id(&leaves, pane);
        let geometry: Vec<PaneGeometry> = match check_placed(&p.layout, &p.rects, &want) {
            Ok(geometry) => geometry,
            Err(error) => {
                return refuse(error);
            },
        };
        let focus: u64 = match p.focus {
            Some(focus) => focus,
            None => {
                return refuse(misplaced());
            },
        };
        match live_gate(self.live, lived) {
            LiveGate::Ask => Step::Wait(ask_apply(&geometry)),
            LiveGate::Refused(error) => refuse(error),
            LiveGate::Go => {
                proof {
                    assert(self@.leaves_of(window).contains(pane));
                    assert(self@.domain.panes.contains_key(pane));
                    assert(self@.domain.panes[pane].window == window);
                    self@.domain.remove_pane_keeps_wf(pane, p.layout);
                }
                self.domain.remove_pane(pane, p.layout.copy());
                self.put_frame(window, bounds, clone_geometry(&geometry));
                self.live_note(Effect::RemovePane { pane });
                self.forget_pane(pane);
                let _ = self.publish(
                    Event::PaneClosed {
                        window_id: window,
                        pane_id: pane,
                        suggested_focus_id: focus,
                        geometry,
                    },
                );
                accept(self.ack())
            },
        }
    }

    pub fn apply_arrangement(
        &mut self,
        window: u64,
        kind: ArrangementWire,
        focused_pane_id: Option<u64>,
        answer: &Placed,
        lived: &Lived,
    ) -> (r: Step)
        requires
            old(self)@.wf(),
        ensures
            (final(self)@, r@) == old(self)@.arrange(
                window,
                kind,
                focused_pane_id,
                *answer,
                lived_view(*lived),
            ),
            final(self)@.wf(),
    {
        if let Err(error) = self.ensure_sequence_capacity() {
            return refuse(error);
        }
        if let Err(error) = self.require_window(window) {
            return refuse(error);
        }
        let bounds: WindowBounds = self.bounds_of(window);
        let leaves: Vec<u64> = self.leaves_of(window);
        let p: &Placement = match answer {
            None => {
                let main: Option<u64> = match focused_pane_id {
                    Some(0) => None,
                    other => other,
                };
                return Step::Wait(Ask::Arrange { kind, leaves, main, bounds });
            },
            Some(Err(error)) => {
                return refuse(control_domain_error(*error));
            },
            Some(Ok(p)) => p,
        };
        let geometry: Vec<PaneGeometry> = match check_placed(&p.layout, &p.rects, &leaves) {
            Ok(geometry) => geometry,
            Err(error) => {
                return refuse(error);
            },
        };
        match live_gate(self.live, lived) {
            LiveGate::Ask => Step::Wait(ask_apply(&geometry)),
            LiveGate::Refused(error) => refuse(error),
            LiveGate::Go => {
                proof {
                    self@.domain.with_layout_keeps_wf(window, p.layout);
                }
                self.domain.set_layout(window, p.layout.copy());
                self.put_frame(window, bounds, clone_geometry(&geometry));
                let _ = self.publish(
                    Event::GeometryChanged { window_id: window, bounds, geometry },
                );
                accept(self.ack())
            },
        }
    }
}

} // verus!
