//! Window sizes: which client owns one, and what a resize does.
use vstd::prelude::*;

use crate::attention::ack;
use crate::error::{control_domain_error, domain_error_view, ControlError, ErrorView};
use crate::event::{clone_geometry, Event, EventView};
use crate::idmap::{group_views, lists_ids, sorted_ids};
use crate::model::group_seq_views;
use crate::panes::{
    live_gate, live_gate_of, lived_view, LiveGate, LiveGateView, Lived, Placed,
};
use crate::place::{bounds_fault, check_placed, placed, reject_zero, validate_bounds, zero_fault};
use crate::plane::{checked, first_fault, pane_ids, ControlPlane, PlaneView};
use crate::state::{group_pane_states, Ask, AskView, ClientView, Effect, EffectView};
use crate::step::{accept, refusal, refuse, Step, StepView};
use crate::topology::{relists, PaneLayout};
use crate::wire::{ClientRole, PaneGeometry, SizeOwner, Viewport, WindowBounds};

verus! {

broadcast use {group_views, group_seq_views, group_pane_states};

/// Pixels of a cell; zero means unknown.
pub open spec fn known_pixels(px: Option<u32>) -> Option<u32> {
    match px {
        Some(n) => if n > 0 {
            Some(n)
        } else {
            None
        },
        None => None,
    }
}

fn known_px(px: Option<u32>) -> (r: Option<u32>)
    ensures
        r == known_pixels(px),
{
    match px {
        Some(n) => if n > 0 {
            Some(n)
        } else {
            None
        },
        None => None,
    }
}

/// The size that a request reports.
pub open spec fn reported_size(
    cols: u32,
    rows: u32,
    cell_width_px: Option<u32>,
    cell_height_px: Option<u32>,
) -> Viewport {
    Viewport {
        cols,
        rows,
        cell_width_px: known_pixels(cell_width_px),
        cell_height_px: known_pixels(cell_height_px),
    }
}

pub fn report_size(
    cols: u32,
    rows: u32,
    cell_width_px: Option<u32>,
    cell_height_px: Option<u32>,
) -> (r: Viewport)
    ensures
        r == reported_size(cols, rows, cell_width_px, cell_height_px),
{
    Viewport {
        cols,
        rows,
        cell_width_px: known_px(cell_width_px),
        cell_height_px: known_px(cell_height_px),
    }
}

impl PlaneView {
    /// Tell the runtime who sizes the panes of a window.
    pub open spec fn owner_noted(self, panes: Seq<u64>, owner: Option<SizeOwner>) -> PlaneView
        decreases panes.len(),
    {
        if panes.len() == 0 {
            self
        } else {
            self.owner_noted(panes.drop_last(), owner).live_note(
                EffectView::RecordSizeOwner { pane: panes.last(), owner },
            )
        }
    }

    /// Publish who owns the size of a window, where that changed.
    pub open spec fn publish_owner(self, window: u64, previous: Option<SizeOwner>) -> PlaneView {
        let owner = self.size_owner(window);
        if owner == previous {
            self
        } else {
            let told = self.publish(EventView::SizeOwnerChanged { window_id: window, owner });
            if self.domain.windows.contains_key(window) {
                told.owner_noted(self.leaves_of(window), owner)
            } else {
                told
            }
        }
    }

    pub open spec fn current_size(self, window: u64) -> Option<(u32, u32)> {
        if self.frames.contains_key(window) {
            Some((self.frames[window].bounds.cols, self.frames[window].bounds.rows))
        } else {
            None
        }
    }

    pub open spec fn host_viewport(self, window: u64) -> Option<Viewport> {
        if self.host_viewports.contains_key(window) {
            Some(self.host_viewports[window])
        } else {
            None
        }
    }

    /// A remote client sized the window last.
    pub open spec fn latest_is_remote(self, window: u64) -> bool {
        self.latest.contains_key(window) && !self.is_host(self.latest[window])
    }

    /// A client reported a size: it is remembered, and the client owns the size.
    pub open spec fn size_reported(
        self,
        client: u64,
        window: u64,
        reported: Viewport,
        host: bool,
        chosen: bool,
    ) -> PlaneView {
        let c = self.clients[client];
        PlaneView {
            clients: self.clients.insert(
                client,
                ClientView {
                    viewports: c.viewports.insert(window, reported),
                    host: c.host || host,
                    ..c
                },
            ),
            host_viewports: if host && chosen {
                self.host_viewports.insert(window, reported)
            } else {
                self.host_viewports
            },
            latest: self.latest.insert(window, client),
            ..self
        }
    }

    /// First pane of a window that the Space of a client keeps it from.
    pub open spec fn spaces_fault(self, client: u64, panes: Seq<u64>) -> Option<ErrorView>
        decreases panes.len(),
    {
        if panes.len() == 0 {
            None
        } else {
            first_fault(
                self.spaces_fault(client, panes.drop_last()),
                self.space_fault(client, panes.last()),
            )
        }
    }

    pub open spec fn resize_fault(self, window: u64, client: Option<u64>) -> Option<ErrorView> {
        first_fault(
            self.capacity_fault(),
            first_fault(
                zero_fault("window"@, window),
                match client {
                    None => None,
                    Some(raw) => first_fault(
                        self.client_fault(raw),
                        if self.domain.windows.contains_key(window) {
                            self.spaces_fault(raw, self.leaves_of(window))
                        } else {
                            None
                        },
                    ),
                },
            ),
        )
    }

    /// Carry a size out. `told` is the state that remembers the report, `before`
    /// the owner until then; nothing is remembered while the host has to answer.
    pub open spec fn size_applied(
        self,
        told: PlaneView,
        window: u64,
        view: Viewport,
        before: Option<SizeOwner>,
        answer: Placed,
        lived: Option<Result<(), Seq<char>>>,
    ) -> (PlaneView, StepView) {
        let bounds = WindowBounds { window_id: window, cols: view.cols, rows: view.rows };
        match first_fault(bounds_fault(bounds), self.window_fault(window)) {
            Some(fault) => (told, refusal(fault)),
            None => match answer {
                None => (
                    self,
                    StepView::Wait(
                        AskView::Fit { layout: self.domain.windows[window].layout, bounds },
                    ),
                ),
                Some(Err(error)) => (told, refusal(domain_error_view(error))),
                Some(Ok(p)) => match placed(
                    self.domain.windows[window].layout,
                    p.rects@,
                    self.leaves_of(window),
                ) {
                    Err(fault) => (told, refusal(fault)),
                    Ok(geometry) => match live_gate_of(self.live, lived) {
                        LiveGateView::Ask => (
                            self,
                            StepView::Wait(
                                AskView::Apply {
                                    geometry,
                                    cell_width_px: view.cell_width_px,
                                    cell_height_px: view.cell_height_px,
                                    owner: told.size_owner(window),
                                    sizes: true,
                                },
                            ),
                        ),
                        LiveGateView::Refused(fault) => (told, refusal(fault)),
                        LiveGateView::Go => {
                            let after = told.with_frame(window, bounds, geometry).publish(
                                EventView::GeometryChanged { window_id: window, bounds, geometry },
                            ).publish_owner(window, before);
                            (after, StepView::Reply(Ok(ack(after))))
                        },
                    },
                },
            },
        }
    }

    /// A client, or the host itself, asks for a window size.
    pub open spec fn resize(
        self,
        window: u64,
        reported: Viewport,
        client: Option<u64>,
        fit: bool,
        host: bool,
        chosen: Option<bool>,
        decision: Option<Option<Viewport>>,
        answer: Placed,
        lived: Option<Result<(), Seq<char>>>,
    ) -> (PlaneView, StepView) {
        let before = self.size_owner(window);
        let current = self.current_size(window);
        match self.resize_fault(window, client) {
            Some(fault) => (self, refusal(fault)),
            None => match client {
                None => if current == Some((reported.cols, reported.rows)) {
                    (self, StepView::Reply(Ok(ack(self))))
                } else {
                    self.size_applied(self, window, reported, before, answer, lived)
                },
                Some(raw) => if host && chosen is None {
                    (
                        self,
                        StepView::Wait(
                            AskView::RecordHost {
                                cols: reported.cols,
                                rows: reported.rows,
                                current,
                                latest_is_remote: self.latest_is_remote(window),
                            },
                        ),
                    )
                } else {
                    let told = self.size_reported(
                        raw,
                        window,
                        reported,
                        host,
                        chosen == Some(true),
                    );
                    match decision {
                        None => (
                            self,
                            StepView::Wait(
                                AskView::DecideSize {
                                    policy: self.remote_size,
                                    role: if told.is_host(raw) {
                                        ClientRole::Host
                                    } else {
                                        ClientRole::Remote
                                    },
                                    reported,
                                    fit,
                                    host: told.host_viewport(window),
                                    current,
                                },
                            ),
                        ),
                        Some(None) => {
                            let after = told.publish_owner(window, before);
                            (after, StepView::Reply(Ok(ack(after))))
                        },
                        Some(Some(view)) => self.size_applied(
                            told,
                            window,
                            view,
                            before,
                            answer,
                            lived,
                        ),
                    }
                },
            },
        }
    }
}

impl ControlPlane {
    /// Publishes who owns the size of a window, where that changed.
    pub fn publish_size_owner(&mut self, window: u64, previous: Option<SizeOwner>)
        requires
            old(self)@.wf(),
        ensures
            final(self)@ == old(self)@.publish_owner(window, previous),
            final(self)@.wf(),
    {
        let owner: Option<SizeOwner> = self.size_owner_for(window);
        if owner == previous {
            return ;
        }
        let _ = self.publish(Event::SizeOwnerChanged { window_id: window, owner });
        if !self.domain.has_window(window) {
            return ;
        }
        let panes: Vec<u64> = self.leaves_of(window);
        let ghost told = self@;
        let mut i: usize = 0;
        assert(panes@.take(0) =~= Seq::empty());
        while i < panes.len()
            invariant
                i <= panes@.len(),
                self@ == told.owner_noted(panes@.take(i as int), owner),
                self@.wf(),
            decreases panes@.len() - i,
        {
            proof {
                assert(panes@.take(i + 1).drop_last() =~= panes@.take(i as int));
            }
            self.live_note(Effect::RecordSizeOwner { pane: panes[i], owner });
            i = i + 1;
        }
        assert(panes@.take(i as int) =~= panes@);
    }

    fn current_size(&self, window: u64) -> (r: Option<(u32, u32)>)
        ensures
            r == self@.current_size(window),
    {
        match self.frames.get(window) {
            Some(frame) => Some((frame.bounds.cols, frame.bounds.rows)),
            None => None,
        }
    }

    pub fn host_viewport(&self, window: u64) -> (r: Option<Viewport>)
        ensures
            r == self@.host_viewport(window),
    {
        match self.host_viewports.get(window) {
            Some(view) => Some(*view),
            None => None,
        }
    }

    fn latest_is_remote(&self, window: u64) -> (r: bool)
        ensures
            r == self@.latest_is_remote(window),
    {
        match self.latest.get(window) {
            Some(client) => !self.is_host_client(*client),
            None => false,
        }
    }

    fn report_size(&mut self, client: u64, window: u64, reported: Viewport, host: bool, chosen: bool)
        requires
            old(self)@.wf(),
            old(self)@.clients.contains_key(client),
        ensures
            final(self)@ == old(self)@.size_reported(client, window, reported, host, chosen),
            final(self)@.wf(),
    {
        if let Some(mut c) = self.clients.remove(client) {
            let _ = c.viewports.insert(window, reported);
            if host {
                c.host = true;
            }
            let _ = self.clients.insert(client, c);
            assert(self@.clients =~= old(self)@.size_reported(
                client,
                window,
                reported,
                host,
                chosen,
            ).clients);
        }
        if host && chosen {
            let _ = self.host_viewports.insert(window, reported);
        }
        let _ = self.latest.insert(window, client);
    }

    fn check_spaces(&self, client: u64, panes: &Vec<u64>) -> (r: Result<(), ControlError>)
        requires
            self@.wf(),
            self@.clients.contains_key(client),
        ensures
            checked(self@.spaces_fault(client, panes@), r),
    {
        let mut i: usize = 0;
        assert(panes@.take(0) =~= Seq::empty());
        while i < panes.len()
            invariant
                i <= panes@.len(),
                self@.wf(),
                self@.clients.contains_key(client),
                self@.spaces_fault(client, panes@.take(i as int)) is None,
            decreases panes@.len() - i,
        {
            proof {
                assert(panes@.take(i + 1).drop_last() =~= panes@.take(i as int));
            }
            if let Err(error) = self.require_client_space(client, panes[i]) {
                proof {
                    self@.lemma_spaces_prefix(client, panes@, i + 1);
                }
                return Err(error);
            }
            i = i + 1;
        }
        assert(panes@.take(i as int) =~= panes@);
        Ok(())
    }

    fn check_resize(&self, window: u64, client: Option<u64>) -> (r: Result<(), ControlError>)
        requires
            self@.wf(),
        ensures
            checked(self@.resize_fault(window, client), r),
    {
        self.ensure_sequence_capacity()?;
        reject_zero("window", window)?;
        match client {
            None => Ok(()),
            Some(raw) => {
                let _ = self.require_active_client(raw)?;
                if self.domain.has_window(window) {
                    let panes: Vec<u64> = self.leaves_of(window);
                    self.check_spaces(raw, &panes)?;
                }
                Ok(())
            },
        }
    }

    /// The geometry that a size leads to, or what stands in the way of it.
    fn size_geometry(
        &self,
        window: u64,
        view: Viewport,
        answer: &Placed,
    ) -> (r: Result<Vec<PaneGeometry>, SizeStop>)
        requires
            self@.wf(),
        ensures
            ({
                let bounds = WindowBounds { window_id: window, cols: view.cols, rows: view.rows };
                match first_fault(bounds_fault(bounds), self@.window_fault(window)) {
                    Some(fault) => r matches Err(SizeStop::Refused(e)) && e@ == fault,
                    None => match *answer {
                        None => r matches Err(SizeStop::Ask(ask)) && ask@ == (AskView::Fit {
                            layout: self@.domain.windows[window].layout,
                            bounds,
                        }),
                        Some(Err(error)) => r matches Err(SizeStop::Refused(e)) && e@
                            == domain_error_view(error),
                        Some(Ok(p)) => match placed(
                            self@.domain.windows[window].layout,
                            p.rects@,
                            self@.leaves_of(window),
                        ) {
                            Err(fault) => r matches Err(SizeStop::Refused(e)) && e@ == fault,
                            Ok(geometry) => r matches Ok(g) && g@ == geometry && relists(
                                pane_ids(g@),
                                self@.leaves_of(window),
                            ),
                        },
                    },
                }
            }),
    {
        let bounds = WindowBounds { window_id: window, cols: view.cols, rows: view.rows };
        if let Err(error) = validate_bounds(bounds) {
            return Err(SizeStop::Refused(error));
        }
        if let Err(error) = self.require_window(window) {
            return Err(SizeStop::Refused(error));
        }
        let layout: PaneLayout = self.layout_of(window);
        match answer {
            None => Err(SizeStop::Ask(Ask::Fit { layout, bounds })),
            Some(Err(error)) => Err(SizeStop::Refused(control_domain_error(*error))),
            Some(Ok(p)) => {
                let want: Vec<u64> = self.leaves_of(window);
                match check_placed(&layout, &p.rects, &want) {
                    Ok(geometry) => Ok(geometry),
                    Err(error) => Err(SizeStop::Refused(error)),
                }
            },
        }
    }

    /// Sets the size of a window and publishes it.
    fn commit_size(
        &mut self,
        window: u64,
        view: Viewport,
        before: Option<SizeOwner>,
        geometry: Vec<PaneGeometry>,
    ) -> (r: Step)
        requires
            old(self)@.wf(),
            old(self)@.domain.windows.contains_key(window),
            relists(pane_ids(geometry@), old(self)@.leaves_of(window)),
        ensures
            ({
                let bounds = WindowBounds { window_id: window, cols: view.cols, rows: view.rows };
                let after = old(self)@.with_frame(window, bounds, geometry@).publish(
                    EventView::GeometryChanged { window_id: window, bounds, geometry: geometry@ },
                ).publish_owner(window, before);
                final(self)@ == after && r@ == StepView::Reply(Ok(ack(after)))
            }),
            final(self)@.wf(),
    {
        let bounds = WindowBounds { window_id: window, cols: view.cols, rows: view.rows };
        self.put_frame(window, bounds, clone_geometry(&geometry));
        assert(self@.frames.dom() =~= old(self)@.frames.dom());
        let _ = self.publish(Event::GeometryChanged { window_id: window, bounds, geometry });
        self.publish_size_owner(window, before);
        accept(self.ack())
    }

    pub fn resize(
        &mut self,
        window: u64,
        reported: Viewport,
        client: Option<u64>,
        fit: bool,
        host: bool,
        chosen: Option<bool>,
        decision: Option<Option<Viewport>>,
        answer: &Placed,
        lived: &Lived,
    ) -> (r: Step)
        requires
            old(self)@.wf(),
        ensures
            (final(self)@, r@) == old(self)@.resize(
                window,
                reported,
                client,
                fit,
                host,
                chosen,
                decision,
                *answer,
                lived_view(*lived),
            ),
            final(self)@.wf(),
    {
        if let Err(error) = self.check_resize(window, client) {
            return refuse(error);
        }
        let before: Option<SizeOwner> = self.size_owner_for(window);
        let current: Option<(u32, u32)> = self.current_size(window);
        match client {
            None => {
                if let Some((cols, rows)) = current {
                    if cols == reported.cols && rows == reported.rows {
                        return accept(self.ack());
                    }
                }
                self.apply_size(None, window, reported, reported, host, false, before, answer, lived)
            },
            Some(raw) => {
                let chosen: bool = match chosen {
                    Some(chosen) => chosen,
                    None => {
                        if host {
                            return Step::Wait(
                                Ask::RecordHost {
                                    cols: reported.cols,
                                    rows: reported.rows,
                                    current,
                                    latest_is_remote: self.latest_is_remote(window),
                                },
                            );
                        }
                        false
                    },
                };
                match decision {
                    None => {
                        let role: ClientRole = if host || self.is_host_client(raw) {
                            ClientRole::Host
                        } else {
                            ClientRole::Remote
                        };
                        let host_size: Option<Viewport> = if host && chosen {
                            Some(reported)
                        } else {
                            self.host_viewport(window)
                        };
                        Step::Wait(
                            Ask::DecideSize {
                                policy: self.remote_size,
                                role,
                                reported,
                                fit,
                                host: host_size,
                                current,
                            },
                        )
                    },
                    Some(None) => {
                        self.report_size(raw, window, reported, host, chosen);
                        self.publish_size_owner(window, before);
                        accept(self.ack())
                    },
                    Some(Some(view)) => self.apply_size(
                        Some(raw),
                        window,
                        reported,
                        view,
                        host,
                        chosen,
                        before,
                        answer,
                        lived,
                    ),
                }
            },
        }
    }

    fn apply_size(
        &mut self,
        client: Option<u64>,
        window: u64,
        reported: Viewport,
        view: Viewport,
        host: bool,
        chosen: bool,
        before: Option<SizeOwner>,
        answer: &Placed,
        lived: &Lived,
    ) -> (r: Step)
        requires
            old(self)@.wf(),
            client matches Some(raw) ==> old(self)@.clients.contains_key(raw),
        ensures
            (final(self)@, r@) == old(self)@.size_applied(
                match client {
                    Some(raw) => old(self)@.size_reported(raw, window, reported, host, chosen),
                    None => old(self)@,
                },
                window,
                view,
                before,
                *answer,
                lived_view(*lived),
            ),
            final(self)@.wf(),
    {
        let geometry: Vec<PaneGeometry> = match self.size_geometry(window, view, answer) {
            Ok(geometry) => geometry,
            Err(SizeStop::Ask(ask)) => {
                return Step::Wait(ask);
            },
            Err(SizeStop::Refused(error)) => {
                if let Some(raw) = client {
                    self.report_size(raw, window, reported, host, chosen);
                }
                return refuse(error);
            },
        };
        match live_gate(self.live, lived) {
            LiveGate::Ask => {
                let owner: Option<SizeOwner> = match client {
                    Some(raw) => Some(
                        SizeOwner {
                            client_id: raw,
                            kind: if host || self.is_host_client(raw) {
                                crate::wire::SizeOwnerKind::Host
                            } else {
                                crate::wire::SizeOwnerKind::Remote
                            },
                        },
                    ),
                    None => self.size_owner_for(window),
                };
                Step::Wait(
                    Ask::Apply {
                        geometry,
                        cell_width_px: view.cell_width_px,
                        cell_height_px: view.cell_height_px,
                        owner,
                        sizes: true,
                    },
                )
            },
            LiveGate::Refused(error) => {
                if let Some(raw) = client {
                    self.report_size(raw, window, reported, host, chosen);
                }
                refuse(error)
            },
            LiveGate::Go => {
                if let Some(raw) = client {
                    self.report_size(raw, window, reported, host, chosen);
                }
                self.commit_size(window, view, before, geometry)
            },
        }
    }
}

/// Why a size is not applied at once.
pub enum SizeStop {
    Ask(Ask),
    Refused(ControlError),
}

impl PlaneView {
    proof fn lemma_spaces_prefix(self, client: u64, panes: Seq<u64>, n: int)
        requires
            0 <= n <= panes.len(),
            self.spaces_fault(client, panes.take(n)) is Some,
        ensures
            self.spaces_fault(client, panes) == self.spaces_fault(client, panes.take(n)),
        decreases panes.len() - n,
    {
        if n == panes.len() {
            assert(panes.take(n) =~= panes);
        } else {
            assert(panes.take(n + 1).drop_last() =~= panes.take(n));
            self.lemma_spaces_prefix(client, panes, n + 1);
        }
    }
}

/// The smallest id of a set, if there is one.
pub open spec fn first_id(d: Set<u64>) -> Option<u64> {
    if sorted_ids(d).len() > 0 {
        Some(sorted_ids(d)[0])
    } else {
        None
    }
}

impl PlaneView {
    pub open spec fn hosts(self) -> Set<u64> {
        Set::new(|c: u64| self.is_host(c))
    }

    /// Clients that reported a size for a window.
    pub open spec fn sizers(self, window: u64) -> Set<u64> {
        Set::new(
            |c: u64|
                self.clients.contains_key(c) && self.clients[c].viewports.contains_key(window),
        )
    }

    pub open spec fn host_sizers(self, window: u64) -> Set<u64> {
        Set::new(|c: u64| self.is_host(c) && self.clients[c].viewports.contains_key(window))
    }

    /// A size that a remaining client reported: that of the owner, if it did.
    pub open spec fn remaining_viewport(self, window: u64) -> Option<Viewport> {
        if self.latest.contains_key(window) && self.sizers(window).contains(self.latest[window]) {
            Some(self.clients[self.latest[window]].viewports[window])
        } else {
            match first_id(self.sizers(window)) {
                Some(c) => Some(self.clients[c].viewports[window]),
                None => None,
            }
        }
    }

    /// A client that is gone no longer owns the size of a window; a host takes
    /// it over, if there is one.
    pub open spec fn size_released(self, client: u64, window: u64) -> PlaneView {
        if self.latest.contains_key(window) && self.latest[window] == client {
            PlaneView {
                latest: match first_id(self.hosts()) {
                    Some(host) => self.latest.insert(window, host),
                    None => self.latest.remove(window),
                },
                ..self
            }
        } else {
            self
        }
    }

    /// A window gets the size that remains after a client is gone.
    pub open spec fn refit(
        self,
        window: u64,
        view: Viewport,
        answer: Placed,
        lived: Option<Result<(), Seq<char>>>,
    ) -> (PlaneView, StepView) {
        let same = self.current_size(window) == Some((view.cols, view.rows));
        let fits = answer matches Some(Ok(p)) && placed(
            self.domain.windows[window].layout,
            p.rects@,
            self.leaves_of(window),
        ) is Ok;
        if view.cols > 0 && view.rows > 0 && same && fits {
            (self, StepView::Reply(Ok(ack(self))))
        } else {
            self.size_applied(self, window, view, self.size_owner(window), answer, lived)
        }
    }

    /// A window that a client had sized, once that client is gone: a host takes
    /// the size over, the window gets the size that the host decides on, and
    /// everyone learns who owns it now.
    pub open spec fn refit_window(
        self,
        client: u64,
        window: u64,
        decision: Option<Option<Viewport>>,
        answer: Placed,
        lived: Option<Result<(), Seq<char>>>,
    ) -> (PlaneView, StepView) {
        let before = self.size_owner(window);
        let freed = self.size_released(client, window);
        match decision {
            None => (
                self,
                StepView::Wait(
                    AskView::DecideRefit {
                        host: freed.host_viewport(window),
                        remaining: freed.remaining_viewport(window),
                    },
                ),
            ),
            Some(None) => {
                let after = freed.publish_owner(window, before);
                (after, StepView::Reply(Ok(ack(after))))
            },
            Some(Some(view)) => match freed.refit(window, view, answer, lived) {
                (_, StepView::Wait(ask)) => (self, StepView::Wait(ask)),
                (sized, _) => {
                    let after = sized.publish_owner(window, before);
                    (after, StepView::Reply(Ok(ack(after))))
                },
            },
        }
    }

    /// Input from the desktop host makes it the owner of the window size.
    pub open spec fn host_active(self, pane: u64) -> PlaneView {
        let window = self.domain.panes[pane].window;
        if !self.domain.panes.contains_key(pane) {
            self
        } else {
            match first_id(self.host_sizers(window)) {
                Some(host) => PlaneView { latest: self.latest.insert(window, host), ..self },
                None => self,
            }
        }
    }
}

impl ControlPlane {
    /// First client that is a host, or that sized a window, or both.
    fn first_client(&self, hosts: bool, window: Option<u64>) -> (r: Option<u64>)
        ensures
            hosts && window is None ==> r == first_id(self@.hosts()),
            !hosts ==> (window matches Some(w) ==> r == first_id(self@.sizers(w))),
            hosts ==> (window matches Some(w) ==> r == first_id(self@.host_sizers(w))),
            r matches Some(c) ==> self@.clients.contains_key(c),
            r matches Some(c) ==> (window matches Some(w) ==> self@.sizers(w).contains(c)),
    {
        let ids: Vec<u64> = self.clients.keys();
        let mut keep: Vec<bool> = Vec::new();
        let mut i: usize = 0;
        let ghost d = Set::new(
            |c: u64|
                self@.clients.contains_key(c) && (hosts ==> self@.clients[c].host) && (
                window matches Some(w) ==> self@.clients[c].viewports.contains_key(w)),
        );
        while i < ids.len()
            invariant
                i <= ids@.len(),
                lists_ids(ids@, self.clients@.dom()),
                keep@.len() == i,
                d == Set::new(
                    |c: u64|
                        self@.clients.contains_key(c) && (hosts ==> self@.clients[c].host) && (
                        window matches Some(w) ==> self@.clients[c].viewports.contains_key(w)),
                ),
                forall|k: int| 0 <= k < i ==> #[trigger] keep@[k] == d.contains(ids@[k]),
            decreases ids@.len() - i,
        {
            assert(ids@.contains(ids@[i as int]));
            let fits: bool = match self.clients.get(ids[i]) {
                Some(c) => (!hosts || c.host) && match window {
                    Some(w) => c.viewports.contains_key(w),
                    None => true,
                },
                None => false,
            };
            keep.push(fits);
            i = i + 1;
        }
        let picked: Vec<u64> = crate::idmap::pick_ids(&ids, &keep);
        proof {
            crate::idmap::lemma_picked(ids@, keep@, picked@, self.clients@.dom(), d);
            if hosts && window is None {
                assert(d =~= self@.hosts());
            }
            if let Some(w) = window {
                if hosts {
                    assert(d =~= self@.host_sizers(w));
                } else {
                    assert(d =~= self@.sizers(w));
                }
            }
        }
        if picked.len() > 0 {
            proof {
                assert(picked@.contains(picked@[0]));
                assert(d.contains(picked@[0]));
            }
            Some(picked[0])
        } else {
            None
        }
    }

    pub fn remaining_viewport(&self, window: u64) -> (r: Option<Viewport>)
        ensures
            r == self@.remaining_viewport(window),
    {
        if let Some(owner) = self.latest.get(window) {
            if let Some(c) = self.clients.get(*owner) {
                if let Some(view) = c.viewports.get(window) {
                    return Some(*view);
                }
            }
        }
        match self.first_client(false, Some(window)) {
            Some(id) => match self.clients.get(id) {
                Some(c) => match c.viewports.get(window) {
                    Some(view) => Some(*view),
                    None => None,
                },
                None => None,
            },
            None => None,
        }
    }

    /// Takes the size of a window from a client that is gone; returns the owner
    /// until now.
    pub fn release_size(&mut self, client: u64, window: u64) -> (before: Option<SizeOwner>)
        requires
            old(self)@.wf(),
        ensures
            before == old(self)@.size_owner(window),
            final(self)@ == old(self)@.size_released(client, window),
            final(self)@.wf(),
    {
        let before: Option<SizeOwner> = self.size_owner_for(window);
        let owns: bool = match self.latest.get(window) {
            Some(owner) => *owner == client,
            None => false,
        };
        if owns {
            let host: Option<u64> = self.first_client(true, None);
            let _ = self.latest.remove(window);
            if let Some(host) = host {
                let _ = self.latest.insert(window, host);
                assert(self@.latest =~= old(self)@.latest.insert(window, host));
            }
        }
        before
    }

    /// Gives a window the size that remains after a client is gone.
    pub fn apply_chosen_viewport(
        &mut self,
        window: u64,
        view: Viewport,
        answer: &Placed,
        lived: &Lived,
    ) -> (r: Step)
        requires
            old(self)@.wf(),
        ensures
            (final(self)@, r@) == old(self)@.refit(window, view, *answer, lived_view(*lived)),
            final(self)@.wf(),
    {
        let before: Option<SizeOwner> = self.size_owner_for(window);
        let same: bool = match self.current_size(window) {
            Some((cols, rows)) => cols == view.cols && rows == view.rows,
            None => false,
        };
        if same && self.size_geometry(window, view, answer).is_ok() {
            return accept(self.ack());
        }
        self.apply_size(None, window, view, view, false, false, before, answer, lived)
    }

    /// Refits a window that a client had sized, once that client is gone.
    pub fn refit_window(
        &mut self,
        client: u64,
        window: u64,
        decision: Option<Option<Viewport>>,
        answer: &Placed,
        lived: &Lived,
    ) -> (r: Step)
        requires
            old(self)@.wf(),
        ensures
            (final(self)@, r@) == old(self)@.refit_window(
                client,
                window,
                decision,
                *answer,
                lived_view(*lived),
            ),
            final(self)@.wf(),
    {
        let ghost start = self@;
        let owned: bool = match self.latest.get(window) {
            Some(owner) => *owner == client,
            None => false,
        };
        let before: Option<SizeOwner> = self.release_size(client, window);
        let ghost freed = self@;
        let view: Viewport = match decision {
            None => {
                let ask = Ask::DecideRefit {
                    host: self.host_viewport(window),
                    remaining: self.remaining_viewport(window),
                };
                self.return_size(owned, client, window);
                assert(self@ =~= start);
                return Step::Wait(ask);
            },
            Some(None) => {
                self.publish_size_owner(window, before);
                return accept(self.ack());
            },
            Some(Some(view)) => view,
        };
        let step: Step = self.apply_chosen_viewport(window, view, answer, lived);
        match step {
            Step::Wait(ask) => {
                assert(self@ == freed);
                self.return_size(owned, client, window);
                assert(self@ =~= start);
                Step::Wait(ask)
            },
            _ => {
                self.publish_size_owner(window, before);
                accept(self.ack())
            },
        }
    }

    fn return_size(&mut self, owned: bool, client: u64, window: u64)
        requires
            old(self)@.wf(),
        ensures
            final(self)@ == (PlaneView {
                latest: if owned {
                    old(self)@.latest.insert(window, client)
                } else {
                    old(self)@.latest
                },
                ..old(self)@
            }),
            final(self)@.wf(),
    {
        if owned {
            let _ = self.latest.insert(window, client);
        }
    }

    pub(crate) fn mark_host_latest(&mut self, pane: u64)
        requires
            old(self)@.wf(),
        ensures
            final(self)@ == old(self)@.host_active(pane),
            final(self)@.wf(),
    {
        let window: u64 = match self.domain.panes.get(pane) {
            Some(p) => p.window,
            None => {
                return ;
            },
        };
        if let Some(host) = self.first_client(true, Some(window)) {
            let _ = self.latest.insert(window, host);
        }
    }
}

impl PlaneView {
    /// To ask for the size that a window has changes nothing, and nobody is told.
    pub proof fn the_size_that_stands_is_not_told(
        self,
        window: u64,
        reported: Viewport,
        fit: bool,
        host: bool,
        chosen: Option<bool>,
        decision: Option<Option<Viewport>>,
        answer: Placed,
        lived: Option<Result<(), Seq<char>>>,
    )
        requires
            self.current_size(window) == Some((reported.cols, reported.rows)),
            self.resize_fault(window, None) is None,
        ensures
            self.resize(window, reported, None, fit, host, chosen, decision, answer, lived) == (
                self,
                StepView::Reply(Ok(ack(self))),
            ),
    {
    }
}

} // verus!
