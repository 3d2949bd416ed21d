//! Panes change windows, and Spaces.
use vstd::prelude::*;
use vstd::string::*;

use crate::attention::{ack, Gone};
use crate::error::{
    control_domain_error, domain_error_view, plain_error, stale_error, stale_id, ControlError,
    ControlErrorCode, DomainError, ErrorView,
};
use crate::event::{clone_geometry, clone_option_text, option_text, Event, EventView};
use crate::idmap::{group_views, lists_ids};
use crate::model::group_seq_views;
use crate::panes::{
    apply_ask, ask_apply, live_gate, live_gate_of, lived_view, LiveGate, LiveGateView, Lived, Placed,
};
use crate::place::{
    check_placed, misplaced, misplaced_view, placed, reject_zero, zero_fault, Placement,
};
use crate::plane::{checked, first_fault, pane_ids, ControlPlane, PlaneView};
use crate::state::{group_pane_states, Ask, AskView, ClientView, Effect, EffectView};
use crate::step::{accept, refusal, refuse, Step, StepView};
use crate::text::same_text;
use crate::topology::{contains_id, drop_id, leaves_rest, relists, without_id, PaneLayout};
use crate::wire::{AxisWire, PaneGeometry, WindowBounds};

verus! {

broadcast use {group_views, group_seq_views, group_pane_states};

/// One half, as the bits of a ratio.
pub const HALF_RATIO_BITS: u64 = 0x3fe0_0000_0000_0000;

/// What is left of the window that a pane leaves: nothing, or a tree and its
/// geometry.
pub open spec fn rest_placed(leaves: Seq<u64>, pane: u64, p: Placement) -> Result<
    Seq<PaneGeometry>,
    ErrorView,
> {
    let want = without_id(leaves, pane);
    match p.rest {
        None => if want.len() == 0 {
            Ok(Seq::empty())
        } else {
            Err(misplaced_view())
        },
        Some(layout) => if want.len() == 0 {
            Err(misplaced_view())
        } else {
            placed(layout, p.rest_rects@, want)
        },
    }
}

fn check_rest(leaves: &Vec<u64>, pane: u64, p: &Placement) -> (r: Result<
    Vec<PaneGeometry>,
    ControlError,
>)
    ensures
        crate::place::geometry_result(r) == rest_placed(leaves@, pane, *p),
        r matches Ok(g) ==> leaves_rest(leaves@, pane, p.rest) && (p.rest matches Some(layout)
            ==> relists(pane_ids(g@), layout.leaves())),
{
    let want: Vec<u64> = drop_id(leaves, pane);
    match &p.rest {
        None => {
            if want.len() == 0 {
                let none: Vec<PaneGeometry> = Vec::new();
                assert(none@ =~= Seq::empty());
                Ok(none)
            } else {
                Err(misplaced())
            }
        },
        Some(layout) => {
            if want.len() == 0 {
                Err(misplaced())
            } else {
                check_placed(layout, &p.rest_rects, &want)
            }
        },
    }
}

impl PlaneView {
    pub open spec fn move_fault(
        self,
        from: u64,
        to: u64,
        pane: u64,
        target: u64,
        client: Option<u64>,
    ) -> Option<ErrorView> {
        first_fault(
            self.capacity_fault(),
            first_fault(
                zero_fault("window"@, from),
                first_fault(
                    zero_fault("window"@, to),
                    first_fault(
                        zero_fault("pane"@, pane),
                        first_fault(
                            zero_fault("pane"@, target),
                            first_fault(
                                self.controller_fault(client, pane),
                                self.move_place_fault(from, to, pane, target),
                            ),
                        ),
                    ),
                ),
            ),
        )
    }

    /// A pane moves between two different windows, onto a pane of the second.
    pub open spec fn move_place_fault(
        self,
        from: u64,
        to: u64,
        pane: u64,
        target: u64,
    ) -> Option<ErrorView> {
        if self.window_fault(from) is Some {
            self.window_fault(from)
        } else if self.window_fault(to) is Some {
            self.window_fault(to)
        } else if from == to {
            Some(stale_error("window"@, to))
        } else if !self.leaves_of(from).contains(pane) {
            Some(stale_error("pane"@, pane))
        } else if !self.leaves_of(to).contains(target) {
            Some(stale_error("pane"@, target))
        } else {
            None
        }
    }

    /// The frame of the window that a pane left, or its end.
    pub open spec fn rest_framed(
        self,
        from: u64,
        rest: Option<PaneLayout>,
        geometry: Seq<PaneGeometry>,
    ) -> PlaneView {
        match rest {
            Some(_) => self.with_frame(from, self.frames[from].bounds, geometry),
            None => PlaneView { frames: self.frames.remove(from), ..self }.unreference(
                Gone::Window(from),
            ),
        }
    }

    pub open spec fn move_done(
        self,
        from: u64,
        to: u64,
        pane: u64,
        p: Placement,
        rest: Seq<PaneGeometry>,
        geometry: Seq<PaneGeometry>,
    ) -> PlaneView {
        PlaneView { domain: self.domain.move_pane(pane, to, p.rest, p.layout), ..self }.rest_framed(
            from,
            p.rest,
            rest,
        ).with_frame(to, self.frames[to].bounds, geometry).publish(
            EventView::PaneMoved {
                from_window_id: from,
                to_window_id: to,
                pane_id: pane,
                source_suggested_focus_id: p.focus,
                geometry: rest + geometry,
            },
        )
    }

    /// Move a pane beside `target` in another window. A window whose last pane
    /// leaves goes away.
    pub open spec fn move_pane(
        self,
        from: u64,
        to: u64,
        pane: u64,
        target: u64,
        axis: AxisWire,
        ratio_bits: u64,
        client: Option<u64>,
        answer: Placed,
        lived: Option<Result<(), Seq<char>>>,
    ) -> (PlaneView, StepView) {
        match self.move_fault(from, to, pane, target, client) {
            Some(fault) => (self, refusal(fault)),
            None => match answer {
                None => (
                    self,
                    StepView::Wait(
                        AskView::Move {
                            source: self.domain.windows[from].layout,
                            source_bounds: self.frames[from].bounds,
                            layout: self.domain.windows[to].layout,
                            bounds: self.frames[to].bounds,
                            pane,
                            target,
                            axis,
                            ratio_bits,
                        },
                    ),
                ),
                Some(Err(error)) => (self, refusal(domain_error_view(error))),
                Some(Ok(p)) => match rest_placed(self.leaves_of(from), pane, p) {
                    Err(fault) => (self, refusal(fault)),
                    Ok(rest) => match placed(p.layout, p.rects@, self.leaves_of(to).push(pane)) {
                        Err(fault) => (self, refusal(fault)),
                        Ok(geometry) => match live_gate_of(self.live, lived) {
                            LiveGateView::Ask => (
                                self,
                                StepView::Wait(apply_ask(rest + geometry)),
                            ),
                            LiveGateView::Refused(fault) => (self, refusal(fault)),
                            LiveGateView::Go => {
                                let after = self.move_done(from, to, pane, p, rest, geometry);
                                (after, StepView::Reply(Ok(ack(after))))
                            },
                        },
                    },
                },
            },
        }
    }

    /// Whoever controlled a pane loses it.
    pub open spec fn revoke_controller(self, pane: u64) -> PlaneView {
        match self.domain.panes[pane].controller {
            None => self,
            Some(client) => {
                let freed = PlaneView {
                    domain: self.domain.with_controller(pane, None),
                    ..self
                }.live_note(EffectView::NoteController { pane, controller: None });
                if self.clients.contains_key(client) {
                    freed.live_note(
                        EffectView::RevokeViewer { pane, viewer: self.clients[client].viewer },
                    )
                } else {
                    freed
                }
            },
        }
    }

    /// Clients no longer look at windows that are gone.
    pub open spec fn drop_lost_views(self) -> PlaneView {
        PlaneView {
            clients: Map::new(
                |c: u64| self.clients.contains_key(c),
                |c: u64| self.seen_by(self.clients[c]),
            ),
            ..self
        }
    }

    pub open spec fn seen_by(self, c: ClientView) -> ClientView {
        if c.window_view is Some && !self.domain.windows.contains_key(c.window_view->0) {
            ClientView { window_view: None, ..c }
        } else {
            c
        }
    }

    /// The pane that receives the mail of a session.
    pub open spec fn mail_endpoint(self, session: u64) -> Option<u64> {
        let windows = self.domain.sessions[session].windows;
        if windows.len() == 0 {
            None
        } else {
            Some(self.leaves_of(windows[0])[0])
        }
    }

    /// The agent that goes along when its mail endpoint moves.
    pub open spec fn moved_agent(self, pane: u64) -> Option<Seq<char>> {
        let session = self.session_of_pane(pane);
        if self.mail_endpoint(session) == Some(pane) {
            self.domain.sessions[session].agent_id
        } else {
            None
        }
    }

    pub open spec fn transfer_pane_fault(
        self,
        pane: u64,
        target: u64,
        from_space: Seq<char>,
        to_space: Seq<char>,
    ) -> Option<ErrorView> {
        first_fault(
            self.capacity_fault(),
            first_fault(
                zero_fault("pane"@, pane),
                first_fault(
                    zero_fault("session"@, target),
                    first_fault(
                        self.pane_fault(pane),
                        first_fault(
                            self.session_fault(target),
                            self.transfer_owner_fault(pane, target, from_space, to_space),
                        ),
                    ),
                ),
            ),
        )
    }

    pub open spec fn transfer_owner_fault(
        self,
        pane: u64,
        target: u64,
        from_space: Seq<char>,
        to_space: Seq<char>,
    ) -> Option<ErrorView> {
        let source = self.domain.sessions[self.session_of_pane(pane)];
        let destination = self.domain.sessions[target];
        if source.space_id != Some(from_space) || destination.space_id != Some(to_space)
            || from_space == to_space {
            Some(
                plain_error(
                    ControlErrorCode::InvalidRequest,
                    "pane transfer Space owner changed"@,
                ),
            )
        } else if self.moved_agent(pane) is Some && destination.agent_id is Some {
            Some(
                plain_error(
                    ControlErrorCode::InvalidRequest,
                    "destination session already has an agent; move to a new session"@,
                ),
            )
        } else {
            None
        }
    }

    /// Title of a window that is opened for a pane.
    pub open spec fn title_for(self, pane: u64) -> Seq<char> {
        if self.domain.panes[pane].title.len() == 0 {
            "moved"@
        } else {
            self.domain.panes[pane].title
        }
    }

    /// Give a pane a window of its own in a session that has none.
    pub open spec fn open_pane(
        self,
        pane: u64,
        session: u64,
        answer: Placed,
        lived: Option<Result<(), Seq<char>>>,
    ) -> (PlaneView, StepView) {
        let from = self.domain.panes[pane].window;
        let window = self.domain.next_window;
        let bounds = WindowBounds { window_id: window, ..self.frames[from].bounds };
        if window == u64::MAX {
            (self, refusal(domain_error_view(DomainError::IdSpaceExhausted)))
        } else {
            match answer {
                None => (
                    self,
                    StepView::Wait(
                        AskView::Open {
                            source: self.domain.windows[from].layout,
                            source_bounds: self.frames[from].bounds,
                            pane,
                            bounds,
                        },
                    ),
                ),
                Some(Err(error)) => (self, refusal(domain_error_view(error))),
                Some(Ok(p)) => match rest_placed(self.leaves_of(from), pane, p) {
                    Err(fault) => (self, refusal(fault)),
                    Ok(rest) => match placed(
                        PaneLayout::Leaf { pane_id: pane },
                        p.rects@,
                        seq![pane],
                    ) {
                        Err(fault) => (self, refusal(fault)),
                        Ok(geometry) => match live_gate_of(self.live, lived) {
                            LiveGateView::Ask => (
                                self,
                                StepView::Wait(apply_ask(rest + geometry)),
                            ),
                            LiveGateView::Refused(fault) => (self, refusal(fault)),
                            LiveGateView::Go => {
                                let after = PlaneView {
                                    domain: self.domain.open_window_with_pane(
                                        session,
                                        self.title_for(pane),
                                        pane,
                                        p.rest,
                                    ),
                                    ..self
                                }.rest_framed(from, p.rest, rest).with_frame(
                                    window,
                                    bounds,
                                    geometry,
                                ).publish(
                                    EventView::PaneMoved {
                                        from_window_id: from,
                                        to_window_id: window,
                                        pane_id: pane,
                                        source_suggested_focus_id: None,
                                        geometry: rest + geometry,
                                    },
                                );
                                (after, StepView::Reply(Ok(ack(after))))
                            },
                        },
                    },
                },
            }
        }
    }

    /// The move that a transfer makes: onto the first pane of the destination,
    /// or into a window of its own.
    pub open spec fn transfer_move(
        self,
        pane: u64,
        target: u64,
        answer: Placed,
        lived: Option<Result<(), Seq<char>>>,
    ) -> (PlaneView, StepView) {
        let windows = self.domain.sessions[target].windows;
        if windows.len() > 0 {
            self.move_pane(
                self.domain.panes[pane].window,
                windows[0],
                pane,
                self.leaves_of(windows[0])[0],
                AxisWire::Horizontal,
                HALF_RATIO_BITS,
                None,
                answer,
                lived,
            )
        } else {
            self.open_pane(pane, target, answer, lived)
        }
    }

    /// What follows the move: the lease goes, lost views go, and the agent comes
    /// along.
    pub open spec fn transfer_settled(
        self,
        pane: u64,
        source: u64,
        target: u64,
        agent: Option<Seq<char>>,
        name: Seq<char>,
    ) -> PlaneView {
        let free = self.revoke_controller(pane).drop_lost_views();
        match agent {
            None => free,
            Some(agent) => {
                let unbound = if free.domain.sessions.contains_key(source) {
                    PlaneView { domain: free.domain.with_agent(source, None), ..free }
                } else {
                    free
                };
                PlaneView {
                    domain: unbound.domain.with_agent(target, Some(agent)),
                    ..unbound
                }.note(EffectView::BindAgent { session: name, agent })
            },
        }
    }

    /// Hand a pane over to a session of another Space.
    pub open spec fn transfer_pane(
        self,
        pane: u64,
        target: u64,
        from_space: Seq<char>,
        to_space: Seq<char>,
        answer: Placed,
        lived: Option<Result<(), Seq<char>>>,
    ) -> (PlaneView, StepView) {
        match self.transfer_pane_fault(pane, target, from_space, to_space) {
            Some(fault) => (self, refusal(fault)),
            None => {
                let (moved, step) = self.transfer_move(pane, target, answer, lived);
                match step {
                    StepView::Reply(Ok(reply)) => (
                        moved.transfer_settled(
                            pane,
                            self.session_of_pane(pane),
                            target,
                            self.moved_agent(pane),
                            self.domain.sessions[target].name,
                        ),
                        StepView::Reply(Ok(reply)),
                    ),
                    _ => (moved, step),
                }
            },
        }
    }
}

impl ControlPlane {
    fn check_move(&self, from: u64, to: u64, pane: u64, target: u64, client: Option<u64>) -> (r:
        Result<(), ControlError>)
        requires
            self@.wf(),
        ensures
            checked(self@.move_fault(from, to, pane, target, client), r),
    {
        self.ensure_sequence_capacity()?;
        reject_zero("window", from)?;
        reject_zero("window", to)?;
        reject_zero("pane", pane)?;
        reject_zero("pane", target)?;
        self.require_controller(client, pane)?;
        self.require_window(from)?;
        self.require_window(to)?;
        if from == to {
            return Err(stale_id("window", to));
        }
        let source: Vec<u64> = self.leaves_of(from);
        if !contains_id(&source, pane) {
            return Err(stale_id("pane", pane));
        }
        let leaves: Vec<u64> = self.leaves_of(to);
        if !contains_id(&leaves, target) {
            return Err(stale_id("pane", target));
        }
        Ok(())
    }

    fn frame_rest(&mut self, from: u64, rest: &Option<PaneLayout>, geometry: &Vec<PaneGeometry>)
        requires
            old(self)@.frames.contains_key(from),
        ensures
            final(self)@ == old(self)@.rest_framed(from, *rest, geometry@),
    {
        match rest {
            Some(_) => {
                let bounds: WindowBounds = self.bounds_of(from);
                self.put_frame(from, bounds, clone_geometry(geometry));
            },
            None => {
                let _ = self.frames.remove(from);
                self.unreference(Gone::Window(from));
            },
        }
    }

    pub fn move_pane(
        &mut self,
        from: u64,
        to: u64,
        pane: u64,
        target: u64,
        axis: AxisWire,
        ratio_bits: u64,
        client: Option<u64>,
        answer: &Placed,
        lived: &Lived,
    ) -> (r: Step)
        requires
            old(self)@.wf(),
        ensures
            (final(self)@, r@) == old(self)@.move_pane(
                from,
                to,
                pane,
                target,
                axis,
                ratio_bits,
                client,
                *answer,
                lived_view(*lived),
            ),
            final(self)@.wf(),
    {
        if let Err(error) = self.check_move(from, to, pane, target, client) {
            return refuse(error);
        }
        let bounds: WindowBounds = self.bounds_of(to);
        let p: &Placement = match answer {
            None => {
                return Step::Wait(
                    Ask::Move {
                        source: self.layout_of(from),
                        source_bounds: self.bounds_of(from),
                        layout: self.layout_of(to),
                        bounds,
                        pane,
                        target,
                        axis,
                        ratio_bits,
                    },
                );
            },
            Some(Err(error)) => {
                return refuse(control_domain_error(*error));
            },
            Some(Ok(p)) => p,
        };
        let source: Vec<u64> = self.leaves_of(from);
        let rest: Vec<PaneGeometry> = match check_rest(&source, pane, p) {
            Ok(rest) => rest,
            Err(error) => {
                return refuse(error);
            },
        };
        let mut want: Vec<u64> = self.leaves_of(to);
        want.push(pane);
        let geometry: Vec<PaneGeometry> = match check_placed(&p.layout, &p.rects, &want) {
            Ok(geometry) => geometry,
            Err(error) => {
                return refuse(error);
            },
        };
        let mut all: Vec<PaneGeometry> = clone_geometry(&rest);
        let mut tail: Vec<PaneGeometry> = clone_geometry(&geometry);
        all.append(&mut tail);
        assert(all@ =~= rest@ + geometry@);
        match live_gate(self.live, lived) {
            LiveGate::Ask => Step::Wait(ask_apply(&all)),
            LiveGate::Refused(error) => refuse(error),
            LiveGate::Go => {
                let ghost before = self@;
                proof {
                    assert(before.leaves_of(from).contains(pane));
                    assert(before.domain.panes.contains_key(pane));
                    assert(before.domain.panes[pane].window == from);
                    before.domain.move_pane_keeps_wf(pane, to, p.rest, p.layout);
                }
                let left: Option<PaneLayout> = match &p.rest {
                    Some(layout) => Some(layout.copy()),
                    None => None,
                };
                self.domain.move_pane(pane, to, left, p.layout.copy());
                self.frame_rest(from, &p.rest, &rest);
                self.put_frame(to, bounds, clone_geometry(&geometry));
                proof {
                    before.lemma_moved_frames(from, to, pane, *p, rest@, geometry@);
                }
                let _ = self.publish(
                    Event::PaneMoved {
                        from_window_id: from,
                        to_window_id: to,
                        pane_id: pane,
                        source_suggested_focus_id: p.focus,
                        geometry: all,
                    },
                );
                accept(self.ack())
            },
        }
    }

    pub(crate) fn revoke_space_controller(&mut self, pane: u64)
        requires
            old(self)@.wf(),
            old(self)@.domain.panes.contains_key(pane),
        ensures
            final(self)@ == old(self)@.revoke_controller(pane),
            final(self)@.wf(),
    {
        if let Ok(Some(client)) = self.domain.controller(pane) {
            proof {
                self@.domain.leases_keep_topology(pane, None, client);
            }
            let _ = self.domain.release_controller(pane, client);
            self.live_note(Effect::NoteController { pane, controller: None });
            let viewer: Option<crate::wire::ViewerId> = match self.clients.get(client) {
                Some(c) => Some(c.viewer),
                None => None,
            };
            if let Some(viewer) = viewer {
                self.live_note(Effect::RevokeViewer { pane, viewer });
            }
        }
    }

    fn drop_lost_views(&mut self)
        ensures
            final(self)@ == old(self)@.drop_lost_views(),
    {
        let ids: Vec<u64> = self.clients.keys();
        let mut i: usize = 0;
        let ghost before = self@;
        assert(before.clients.dom() == self.clients@.dom());
        while i < ids.len()
            invariant
                i <= ids@.len(),
                lists_ids(ids@, before.clients.dom()),
                before == old(self)@,
                self@ == (PlaneView { clients: self@.clients, ..before }),
                self@.clients.dom() == before.clients.dom(),
                forall|k: int|
                    #![trigger ids@[k]]
                    0 <= k < ids@.len() ==> self@.clients[ids@[k]] == if k < i {
                        before.seen_by(before.clients[ids@[k]])
                    } else {
                        before.clients[ids@[k]]
                    },
            decreases ids@.len() - i,
        {
            let id: u64 = ids[i];
            assert(ids@.contains(id));
            let ghost at = self@;
            assert(at.clients.contains_key(id));
            if let Some(mut c) = self.clients.remove(id) {
                if let Some(window) = c.window_view {
                    if !self.domain.has_window(window) {
                        c.window_view = None;
                    }
                }
                assert(c@ == before.seen_by(at.clients[id]));
                let _ = self.clients.insert(id, c);
            }
            proof {
                assert(self@.clients =~= at.clients.insert(id, before.seen_by(at.clients[id])));
                assert(self@.clients.dom() =~= before.clients.dom());
                assert forall|k: int|
                    #![trigger ids@[k]]
                    0 <= k < ids@.len() implies self@.clients[ids@[k]] == if k < i + 1 {
                    before.seen_by(before.clients[ids@[k]])
                } else {
                    before.clients[ids@[k]]
                } by {
                    if k < i {
                        assert(ids@[k] < ids@[i as int]);
                    } else if k > i {
                        assert(ids@[i as int] < ids@[k]);
                    }
                }
            }
            i = i + 1;
        }
        proof {
            assert(self@.clients =~= before.drop_lost_views().clients) by {
                assert forall|c: u64| #[trigger] before.clients.contains_key(c) implies self@.clients[c]
                    == before.seen_by(before.clients[c]) by {
                    assert(before.clients.dom().contains(c));
                    let k = choose|k: int| 0 <= k < ids@.len() && ids@[k] == c;
                    assert(ids@[k] == c);
                }
            }
        }
    }
}

impl PlaneView {
    /// The frames after a move place exactly the panes of every window.
    proof fn lemma_moved_frames(
        self,
        from: u64,
        to: u64,
        pane: u64,
        p: Placement,
        rest: Seq<PaneGeometry>,
        geometry: Seq<PaneGeometry>,
    )
        requires
            self.wf(),
            from != to,
            self.domain.windows.contains_key(from),
            self.domain.windows.contains_key(to),
            self.domain.panes.contains_key(pane),
            self.domain.panes[pane].window == from,
            self.domain.move_pane(pane, to, p.rest, p.layout).wf(),
            relists(pane_ids(geometry), p.layout.leaves()),
            p.rest matches Some(layout) ==> relists(pane_ids(rest), layout.leaves()),
        ensures
            self.move_done(from, to, pane, p, rest, geometry).wf(),
    {
        let after = self.move_done(from, to, pane, p, rest, geometry);
        let domain = self.domain.move_pane(pane, to, p.rest, p.layout);
        assert(after.domain == domain);
        assert(after.frames.dom() =~= domain.windows.dom());
        assert forall|w: u64| #[trigger] after.frames.contains_key(w) implies after.frames[w].bounds.window_id
            == w && relists(
            pane_ids(after.frames[w].geometry),
            domain.windows[w].layout.leaves(),
        ) by {
            assert(self.frames.contains_key(w));
        }
    }
}

impl PlaneView {
    /// The frames after a pane got a window of its own.
    proof fn lemma_opened_frames(
        self,
        after: PlaneView,
        session: u64,
        pane: u64,
        p: Placement,
        rest: Seq<PaneGeometry>,
        geometry: Seq<PaneGeometry>,
    )
        requires
            self.wf(),
            self.domain.panes.contains_key(pane),
            self.domain.sessions.contains_key(session),
            self.domain.next_window < u64::MAX,
            leaves_rest(self.leaves_of(self.domain.panes[pane].window), pane, p.rest),
            relists(pane_ids(geometry), seq![pane]),
            p.rest matches Some(layout) ==> relists(pane_ids(rest), layout.leaves()),
            ({
                let from = self.domain.panes[pane].window;
                after == PlaneView {
                    domain: self.domain.open_window_with_pane(
                        session,
                        self.title_for(pane),
                        pane,
                        p.rest,
                    ),
                    ..self
                }.rest_framed(from, p.rest, rest).with_frame(
                    self.domain.next_window,
                    WindowBounds {
                        window_id: self.domain.next_window,
                        ..self.frames[from].bounds
                    },
                    geometry,
                )
            }),
        ensures
            after.wf(),
    {
        let window = self.domain.next_window;
        let from = self.domain.panes[pane].window;
        self.domain.open_window_keeps_wf(session, self.title_for(pane), pane, p.rest);
        assert(self.domain.windows.contains_key(from));
        assert(!self.domain.windows.contains_key(window));
        let leaf = PaneLayout::Leaf { pane_id: pane };
        assert(leaf.leaves() =~= seq![pane]);
        assert(after.frames.dom() =~= after.domain.windows.dom());
        assert forall|w: u64| #[trigger] after.frames.contains_key(w) implies after.frames[w].bounds.window_id
            == w && relists(
            pane_ids(after.frames[w].geometry),
            after.domain.windows[w].layout.leaves(),
        ) by {
            if w != window {
                assert(self.frames.contains_key(w));
            }
        }
    }
}

impl ControlPlane {
    fn open_pane(&mut self, pane: u64, session: u64, answer: &Placed, lived: &Lived) -> (r: Step)
        requires
            old(self)@.wf(),
            old(self)@.domain.panes.contains_key(pane),
            old(self)@.domain.sessions.contains_key(session),
        ensures
            (final(self)@, r@) == old(self)@.open_pane(pane, session, *answer, lived_view(*lived)),
            final(self)@.wf(),
    {
        let from: u64 = match self.domain.panes.get(pane) {
            Some(p) => p.window,
            None => 0,
        };
        proof {
            assert(self@.domain.windows.contains_key(from));
        }
        let window: u64 = self.domain.next_window;
        if window == u64::MAX {
            return refuse(control_domain_error(DomainError::IdSpaceExhausted));
        }
        let source_bounds: WindowBounds = self.bounds_of(from);
        let bounds = WindowBounds {
            window_id: window,
            cols: source_bounds.cols,
            rows: source_bounds.rows,
        };
        let p: &Placement = match answer {
            None => {
                return Step::Wait(
                    Ask::Open { source: self.layout_of(from), source_bounds, pane, bounds },
                );
            },
            Some(Err(error)) => {
                return refuse(control_domain_error(*error));
            },
            Some(Ok(p)) => p,
        };
        let source: Vec<u64> = self.leaves_of(from);
        let rest: Vec<PaneGeometry> = match check_rest(&source, pane, p) {
            Ok(rest) => rest,
            Err(error) => {
                return refuse(error);
            },
        };
        let leaf = PaneLayout::Leaf { pane_id: pane };
        let mut want: Vec<u64> = Vec::new();
        want.push(pane);
        assert(want@ =~= seq![pane]);
        assert(leaf.leaves() =~= seq![pane]);
        let geometry: Vec<PaneGeometry> = match check_placed(&leaf, &p.rects, &want) {
            Ok(geometry) => geometry,
            Err(error) => {
                return refuse(error);
            },
        };
        let mut all: Vec<PaneGeometry> = clone_geometry(&rest);
        let mut tail: Vec<PaneGeometry> = clone_geometry(&geometry);
        all.append(&mut tail);
        assert(all@ =~= rest@ + geometry@);
        match live_gate(self.live, lived) {
            LiveGate::Ask => Step::Wait(ask_apply(&all)),
            LiveGate::Refused(error) => refuse(error),
            LiveGate::Go => {
                let ghost before = self@;
                let title: String = match self.domain.panes.get(pane) {
                    Some(q) => if q.title.as_str().is_empty() {
                        String::from_str("moved")
                    } else {
                        q.title.clone()
                    },
                    None => String::from_str("moved"),
                };
                let left: Option<PaneLayout> = match &p.rest {
                    Some(layout) => Some(layout.copy()),
                    None => None,
                };
                let _ = self.domain.open_window_with_pane(session, title.as_str(), pane, left);
                self.frame_rest(from, &p.rest, &rest);
                self.put_frame(window, bounds, clone_geometry(&geometry));
                proof {
                    before.lemma_opened_frames(self@, session, pane, *p, rest@, geometry@);
                }
                let _ = self.publish(
                    Event::PaneMoved {
                        from_window_id: from,
                        to_window_id: window,
                        pane_id: pane,
                        source_suggested_focus_id: None,
                        geometry: all,
                    },
                );
                accept(self.ack())
            },
        }
    }

    fn session_of_pane(&self, pane: u64) -> (s: u64)
        requires
            self@.wf(),
            self@.domain.panes.contains_key(pane),
        ensures
            s == self@.session_of_pane(pane),
            self@.domain.sessions.contains_key(s),
    {
        let window: u64 = match self.domain.panes.get(pane) {
            Some(p) => p.window,
            None => 0,
        };
        proof {
            assert(self@.domain.windows.contains_key(window));
        }
        match self.domain.windows.get(window) {
            Some(w) => w.session,
            None => 0,
        }
    }

    fn moved_agent(&self, pane: u64) -> (r: Option<String>)
        requires
            self@.wf(),
            self@.domain.panes.contains_key(pane),
        ensures
            option_text(r) == self@.moved_agent(pane),
    {
        let session: u64 = self.session_of_pane(pane);
        match self.domain.sessions.get(session) {
            None => None,
            Some(s) => {
                if s.windows.len() == 0 {
                    return None;
                }
                let window: u64 = s.windows[0];
                proof {
                    assert(self@.domain.sessions[session].windows.contains(window));
                }
                let endpoint: u64 = match self.domain.windows.get(window) {
                    Some(w) => w.layout.first_pane(),
                    None => 0,
                };
                if endpoint == pane {
                    clone_option_text(&s.agent_id)
                } else {
                    None
                }
            },
        }
    }

    fn check_transfer_pane(&self, pane: u64, target: u64, from_space: &str, to_space: &str) -> (r:
        Result<(), ControlError>)
        requires
            self@.wf(),
        ensures
            checked(self@.transfer_pane_fault(pane, target, from_space@, to_space@), r),
    {
        self.ensure_sequence_capacity()?;
        reject_zero("pane", pane)?;
        reject_zero("session", target)?;
        self.require_pane(pane)?;
        self.require_session(target)?;
        let source: u64 = self.session_of_pane(pane);
        let source_ok: bool = match self.domain.sessions.get(source) {
            Some(s) => match &s.space_id {
                Some(space) => same_text(space.as_str(), from_space),
                None => false,
            },
            None => false,
        };
        let (target_ok, target_agent): (bool, bool) = match self.domain.sessions.get(target) {
            Some(s) => (
                match &s.space_id {
                    Some(space) => same_text(space.as_str(), to_space),
                    None => false,
                },
                s.agent_id.is_some(),
            ),
            None => (false, false),
        };
        if !source_ok || !target_ok || same_text(from_space, to_space) {
            return Err(
                ControlError::new(
                    ControlErrorCode::InvalidRequest,
                    "pane transfer Space owner changed",
                ),
            );
        }
        let agent: Option<String> = self.moved_agent(pane);
        if agent.is_some() && target_agent {
            return Err(
                ControlError::new(
                    ControlErrorCode::InvalidRequest,
                    "destination session already has an agent; move to a new session",
                ),
            );
        }
        Ok(())
    }

    pub fn transfer_space_pane(
        &mut self,
        pane: u64,
        target: u64,
        from_space: &str,
        to_space: &str,
        answer: &Placed,
        lived: &Lived,
    ) -> (r: Step)
        requires
            old(self)@.wf(),
        ensures
            (final(self)@, r@) == old(self)@.transfer_pane(
                pane,
                target,
                from_space@,
                to_space@,
                *answer,
                lived_view(*lived),
            ),
            final(self)@.wf(),
    {
        if let Err(error) = self.check_transfer_pane(pane, target, from_space, to_space) {
            return refuse(error);
        }
        let ghost before = self@;
        let source: u64 = self.session_of_pane(pane);
        let agent: Option<String> = self.moved_agent(pane);
        let (first, name): (Option<u64>, String) = match self.domain.sessions.get(target) {
            Some(s) => (
                if s.windows.len() > 0 {
                    Some(s.windows[0])
                } else {
                    None
                },
                s.name.clone(),
            ),
            None => (None, String::new()),
        };
        let step: Step = match first {
            Some(window) => {
                proof {
                    assert(before.domain.sessions[target].windows.contains(window));
                }
                let leaf: u64 = match self.domain.windows.get(window) {
                    Some(w) => w.layout.first_pane(),
                    None => 0,
                };
                let from: u64 = match self.domain.panes.get(pane) {
                    Some(p) => p.window,
                    None => 0,
                };
                self.move_pane(
                    from,
                    window,
                    pane,
                    leaf,
                    AxisWire::Horizontal,
                    HALF_RATIO_BITS,
                    None,
                    answer,
                    lived,
                )
            },
            None => self.open_pane(pane, target, answer, lived),
        };
        let done: bool = match &step {
            Step::Reply(Ok(_)) => true,
            _ => false,
        };
        if !done {
            return step;
        }
        proof {
            before.lemma_transfer_keeps(pane, target, *answer, lived_view(*lived));
        }
        self.settle_transfer(pane, source, target, agent, name);
        step
    }

    fn settle_transfer(
        &mut self,
        pane: u64,
        source: u64,
        target: u64,
        agent: Option<String>,
        name: String,
    )
        requires
            old(self)@.wf(),
            old(self)@.domain.panes.contains_key(pane),
            old(self)@.domain.sessions.contains_key(target),
        ensures
            final(self)@ == old(self)@.transfer_settled(
                pane,
                source,
                target,
                option_text(agent),
                name@,
            ),
            final(self)@.wf(),
    {
        self.revoke_space_controller(pane);
        self.drop_lost_views();
        if let Some(agent) = agent {
            if self.domain.has_session(source) {
                proof {
                    self@.domain.labels_keep_wf(
                        source,
                        0,
                        0,
                        Seq::empty(),
                        None,
                        false,
                        Seq::empty(),
                    );
                }
                self.domain.set_agent_id(source, &None);
            }
            proof {
                self@.domain.labels_keep_wf(
                    target,
                    0,
                    0,
                    Seq::empty(),
                    Some(agent@),
                    false,
                    Seq::empty(),
                );
            }
            let bound: Option<String> = Some(agent.clone());
            self.domain.set_agent_id(target, &bound);
            self.note(Effect::BindAgent { session: name, agent });
        }
    }
}

impl PlaneView {
    /// A transfer keeps the pane and the destination session.
    proof fn lemma_transfer_keeps(
        self,
        pane: u64,
        target: u64,
        answer: Placed,
        lived: Option<Result<(), Seq<char>>>,
    )
        requires
            self.wf(),
            self.domain.panes.contains_key(pane),
            self.domain.sessions.contains_key(target),
            self.session_of_pane(pane) != target,
        ensures
            self.transfer_move(pane, target, answer, lived).0.domain.panes.contains_key(pane),
            self.transfer_move(pane, target, answer, lived).0.domain.sessions.contains_key(target),
    {
    }
}

impl PlaneView {
    /// A move between two windows is told as one event, never as a close and a split.
    pub proof fn a_move_is_one_event(
        self,
        from: u64,
        to: u64,
        pane: u64,
        target: u64,
        axis: AxisWire,
        ratio_bits: u64,
        client: Option<u64>,
        answer: Placed,
        lived: Option<Result<(), Seq<char>>>,
    )
        ensures
            ({
                let (after, step) = self.move_pane(
                    from,
                    to,
                    pane,
                    target,
                    axis,
                    ratio_bits,
                    client,
                    answer,
                    lived,
                );
                step is Reply && step->Reply_0 is Ok ==> exists|
                    focus: Option<u64>,
                    geometry: Seq<PaneGeometry>,
                |
                    after.ring == #[trigger] self.ring.publish(
                        EventView::PaneMoved {
                            from_window_id: from,
                            to_window_id: to,
                            pane_id: pane,
                            source_suggested_focus_id: focus,
                            geometry,
                        },
                    )
            }),
    {
        if let Some(Ok(p)) = answer {
            let rest = rest_placed(self.leaves_of(from), pane, p);
            let there = placed(p.layout, p.rects@, self.leaves_of(to).push(pane));
            if rest is Ok && there is Ok {
                let told = self.ring.publish(
                    EventView::PaneMoved {
                        from_window_id: from,
                        to_window_id: to,
                        pane_id: pane,
                        source_suggested_focus_id: p.focus,
                        geometry: rest->Ok_0 + there->Ok_0,
                    },
                );
                assert(self.move_done(from, to, pane, p, rest->Ok_0, there->Ok_0).ring == told);
            }
        }
    }
}

} // verus!
