//! Client-local views, names, titles, status texts and focus.
use vstd::prelude::*;
use vstd::string::*;

use crate::attention::ack;
use crate::error::{
    control_domain_error, domain_error_view, plain_error, stale_error, stale_id, ControlError,
    ControlErrorCode, ErrorView,
};
use crate::event::{clone_option_text, option_text, Event, EventView};
use crate::idmap::group_views;
use crate::model::group_seq_views;
use crate::place::{reject_zero, zero_fault};
use crate::plane::{checked, first_fault, ControlPlane, PlaneView};
use crate::response::{reply_view, ControlResponseData, DataView};
use crate::sessions::{
    pane_status_fault, pane_title_fault, validate_pane_status, validate_pane_title,
};
use crate::state::{
    group_pane_states, Ask, AskView, ClientView, Effect, EffectView, PaneState, PaneStateView,
};
use crate::step::{accept, refusal, refuse, Step, StepView};
use crate::text::{same_text, trim, trimmed};
use crate::topology::contains_id;
use crate::wire::ViewerId;

verus! {

broadcast use {group_views, group_seq_views, group_pane_states};

impl PlaneView {
    /// A client looks away from its focused pane.
    pub open spec fn unfocus(self, client: u64) -> PlaneView {
        let c = self.clients[client];
        match c.focus {
            None => self,
            Some(pane) => self.with_client(client, ClientView { focus: None, ..c }).live_note(
                EffectView::RevokeViewer { pane, viewer: c.viewer },
            ),
        }
    }

    pub open spec fn switch_session_fault(self, client: u64, session: u64) -> Option<ErrorView> {
        first_fault(
            self.capacity_fault(),
            first_fault(
                self.client_fault(client),
                first_fault(
                    self.session_fault(session),
                    if self.domain.sessions[session].windows.len() == 0 {
                        Some(stale_error("session window"@, session))
                    } else {
                        None
                    },
                ),
            ),
        )
    }

    /// A client selects a session. The topology stays as it is.
    pub open spec fn switch_session(self, client: u64, session: u64) -> (
        PlaneView,
        Result<DataView, ErrorView>,
    ) {
        match self.switch_session_fault(client, session) {
            Some(fault) => (self, Err(fault)),
            None => {
                let window = self.domain.sessions[session].windows[0];
                let pane = self.leaves_of(window)[0];
                let away = self.unfocus(client);
                (
                    away.with_client(
                        client,
                        ClientView { view: Some(session), ..away.clients[client] },
                    ).publish(
                        EventView::SessionSwitched {
                            client_id: client,
                            session_id: session,
                            window_id: window,
                            pane_id: pane,
                        },
                    ),
                    Ok(
                        DataView::Session {
                            session_id: session,
                            name: self.domain.sessions[session].name,
                            window_id: window,
                            pane_id: pane,
                        },
                    ),
                )
            },
        }
    }

    /// What is told about a window.
    pub open spec fn window_reply(self, window: u64) -> DataView {
        DataView::Window {
            session_id: self.domain.windows[window].session,
            window_id: window,
            pane_id: self.leaves_of(window)[0],
            title: self.domain.windows[window].title,
        }
    }

    /// A client selects a window. The topology stays as it is.
    pub open spec fn switch_window(self, client: u64, window: u64) -> (
        PlaneView,
        Result<DataView, ErrorView>,
    ) {
        match first_fault(
            self.capacity_fault(),
            first_fault(self.client_fault(client), self.window_fault(window)),
        ) {
            Some(fault) => (self, Err(fault)),
            None => {
                let away = self.unfocus(client);
                (
                    away.with_client(
                        client,
                        ClientView { window_view: Some(window), ..away.clients[client] },
                    ).publish(
                        EventView::WindowSwitched {
                            client_id: client,
                            session_id: self.domain.windows[window].session,
                            window_id: window,
                            pane_id: self.leaves_of(window)[0],
                        },
                    ),
                    Ok(self.window_reply(window)),
                )
            },
        }
    }

    pub open spec fn rename_window(self, window: u64, title: Seq<char>) -> (
        PlaneView,
        Result<DataView, ErrorView>,
    ) {
        match first_fault(
            self.capacity_fault(),
            first_fault(
                self.window_fault(window),
                match self.domain.rename_window_fault(window, title) {
                    Some(error) => Some(domain_error_view(error)),
                    None => None,
                },
            ),
        ) {
            Some(fault) => (self, Err(fault)),
            None => {
                let after = PlaneView {
                    domain: self.domain.rename_window(window, title),
                    ..self
                }.publish(
                    EventView::WindowRenamed { window_id: window, title: trimmed(title) },
                );
                (after, Ok(after.window_reply(window)))
            },
        }
    }

    pub open spec fn set_sync_input(self, client: u64, window: u64, enabled: bool) -> (
        PlaneView,
        Result<DataView, ErrorView>,
    ) {
        match first_fault(
            self.client_fault(client),
            first_fault(self.capacity_fault(), self.window_fault(window)),
        ) {
            Some(fault) => (self, Err(fault)),
            None => {
                let after = PlaneView {
                    domain: self.domain.with_sync_input(window, enabled),
                    ..self
                }.publish(EventView::SyncInputChanged { window_id: window, enabled });
                (after, Ok(ack(after)))
            },
        }
    }

    /// The status text that a request stores: trimmed, or none.
    pub open spec fn stored_status(text: Option<Seq<char>>) -> Option<Seq<char>> {
        match text {
            None => None,
            Some(t) => if trimmed(t).len() == 0 {
                None
            } else {
                Some(trimmed(t))
            },
        }
    }

    pub open spec fn set_pane_status(self, pane: u64, text: Option<Seq<char>>) -> (
        PlaneView,
        Result<DataView, ErrorView>,
    ) {
        match first_fault(
            self.capacity_fault(),
            first_fault(
                self.pane_fault(pane),
                match text {
                    None => None,
                    Some(t) => pane_status_fault(t),
                },
            ),
        ) {
            Some(fault) => (self, Err(fault)),
            None => {
                let status = PlaneView::stored_status(text);
                let after = self.with_pane(
                    pane,
                    PaneStateView { status, ..self.panes[pane] },
                ).live_note(EffectView::LogStatus { pane, status }).publish(
                    EventView::PaneStatusChanged { pane_id: pane, status },
                );
                (after, Ok(ack(after)))
            },
        }
    }

    pub open spec fn rename_pane(self, pane: u64, title: Seq<char>) -> (
        PlaneView,
        Result<DataView, ErrorView>,
    ) {
        match first_fault(
            self.capacity_fault(),
            first_fault(self.pane_fault(pane), pane_title_fault(title)),
        ) {
            Some(fault) => (self, Err(fault)),
            None => {
                let after = PlaneView {
                    domain: self.domain.rename_pane(pane, trimmed(title)),
                    ..self
                }.publish(EventView::PaneRenamed { pane_id: pane, title: trimmed(title) });
                (after, Ok(ack(after)))
            },
        }
    }

    /// A pane of a window, both named by id.
    pub open spec fn pane_in_window_fault(self, window: u64, pane: u64) -> Option<ErrorView> {
        first_fault(
            zero_fault("window"@, window),
            first_fault(
                zero_fault("pane"@, pane),
                first_fault(
                    self.window_fault(window),
                    if !self.leaves_of(window).contains(pane) {
                        Some(stale_error("pane"@, pane))
                    } else {
                        None
                    },
                ),
            ),
        )
    }

    /// A hint where to look. Advisory: nothing but the history changes.
    pub open spec fn suggest_focus(self, window: u64, pane: u64, reason: Option<Seq<char>>) -> (
        PlaneView,
        Result<DataView, ErrorView>,
    ) {
        match first_fault(self.capacity_fault(), self.pane_in_window_fault(window, pane)) {
            Some(fault) => (self, Err(fault)),
            None => {
                let after = self.publish(
                    EventView::FocusSuggested { window_id: window, pane_id: pane, reason },
                );
                (after, Ok(ack(after)))
            },
        }
    }

    /// A client reports the pane it shows. A move takes its viewer off the pane
    /// that it left; a repeated report is no event.
    pub open spec fn report_focus(self, client: u64, window: u64, pane: u64, now: u64) -> (
        PlaneView,
        Result<DataView, ErrorView>,
    ) {
        match first_fault(self.client_fault(client), self.pane_in_window_fault(window, pane)) {
            Some(fault) => (self, Err(fault)),
            None => {
                let c = self.clients[client];
                let looking = self.with_client(client, ClientView { focus: Some(pane), ..c });
                let moved = if c.focus is Some && c.focus != Some(pane) {
                    looking.live_note(
                        EffectView::RevokeViewer { pane: c.focus->0, viewer: c.viewer },
                    )
                } else {
                    looking
                };
                if c.focus == Some(pane) {
                    (moved, Ok(moved.mail_attention_reply(pane, now)))
                } else if self.capacity_fault() is Some {
                    (moved, Err(self.capacity_fault()->0))
                } else {
                    let after = moved.publish(
                        EventView::FocusReported {
                            client_id: client,
                            window_id: window,
                            pane_id: pane,
                        },
                    );
                    (after, Ok(after.mail_attention_reply(pane, now)))
                }
            },
        }
    }

    /// Bind a client to a Space, once and for all. `valid` tells whether the id
    /// is one.
    pub open spec fn set_client_space(self, client: u64, space: Seq<char>, valid: Option<bool>) -> (
        PlaneView,
        StepView,
    ) {
        let c = self.clients[client];
        match self.client_fault(client) {
            Some(fault) => (self, refusal(fault)),
            None => match valid {
                None => (self, StepView::Wait(AskView::SpaceIdValid { space })),
                Some(valid) => if !valid || (c.space is Some && c.space != Some(space)) {
                    (
                        self,
                        refusal(
                            plain_error(
                                ControlErrorCode::InvalidRequest,
                                "client Space context cannot change"@,
                            ),
                        ),
                    )
                } else {
                    let after = self.with_client(client, ClientView { space: Some(space), ..c });
                    (after, StepView::Reply(Ok(ack(after))))
                },
            },
        }
    }

    /// Stop when nothing runs. From then on every request is refused.
    pub open spec fn shutdown_idle(self, client: u64) -> (PlaneView, Result<DataView, ErrorView>) {
        match self.client_fault(client) {
            Some(fault) => (self, Err(fault)),
            None => if self.domain.sessions.dom() != Set::<u64>::empty() {
                (
                    self,
                    Err(
                        plain_error(
                            ControlErrorCode::InvalidRequest,
                            "sessions are running; daemon restart deferred"@,
                        ),
                    ),
                )
            } else {
                (
                    PlaneView { shutdown_pending: true, ..self },
                    Ok(DataView::ShutdownAccepted),
                )
            },
        }
    }
}

impl ControlPlane {
    fn unfocus(&mut self, client: u64)
        requires
            old(self)@.wf(),
            old(self)@.clients.contains_key(client),
        ensures
            final(self)@ == old(self)@.unfocus(client),
            final(self)@.wf(),
            final(self)@.clients.contains_key(client),
    {
        if let Some(mut c) = self.clients.remove(client) {
            let focus: Option<u64> = c.focus;
            let viewer: ViewerId = c.viewer;
            c.focus = None;
            let _ = self.clients.insert(client, c);
            proof {
                assert(self@.clients =~= old(self)@.clients.insert(
                    client,
                    ClientView { focus: None, ..old(self)@.clients[client] },
                ));
                if focus is None {
                    assert(self@.clients =~= old(self)@.clients);
                }
            }
            if let Some(pane) = focus {
                self.live_note(Effect::RevokeViewer { pane, viewer });
            }
        }
    }

    pub fn switch_session(&mut self, client: u64, session: u64) -> (r: Result<
        ControlResponseData,
        ControlError,
    >)
        requires
            old(self)@.wf(),
        ensures
            (final(self)@, reply_view(r)) == old(self)@.switch_session(client, session),
            final(self)@.wf(),
    {
        self.ensure_sequence_capacity()?;
        let _ = self.require_active_client(client)?;
        self.require_session(session)?;
        let (name, window): (String, u64) = match self.domain.sessions.get(session) {
            Some(s) => {
                if s.windows.len() == 0 {
                    return Err(stale_id("session window", session));
                }
                (s.name.clone(), s.windows[0])
            },
            None => {
                return Err(stale_id("session", session));
            },
        };
        proof {
            assert(self@.domain.sessions[session].windows.contains(window));
        }
        let pane: u64 = match self.domain.windows.get(window) {
            Some(w) => w.layout.first_pane(),
            None => 0,
        };
        self.unfocus(client);
        let ghost away = self@;
        if let Some(mut c) = self.clients.remove(client) {
            c.view = Some(session);
            let _ = self.clients.insert(client, c);
            assert(self@.clients =~= away.clients.insert(
                client,
                ClientView { view: Some(session), ..away.clients[client] },
            ));
        }
        let _ = self.publish(
            Event::SessionSwitched {
                client_id: client,
                session_id: session,
                window_id: window,
                pane_id: pane,
            },
        );
        Ok(ControlResponseData::Session { session_id: session, name, window_id: window, pane_id: pane })
    }

    fn window_response(&self, window: u64) -> (r: ControlResponseData)
        requires
            self@.domain.windows.contains_key(window),
        ensures
            r@ == self@.window_reply(window),
    {
        match self.domain.windows.get(window) {
            Some(w) => ControlResponseData::Window {
                session_id: w.session,
                window_id: window,
                pane_id: w.layout.first_pane(),
                title: w.title.clone(),
            },
            None => ControlResponseData::Pong,
        }
    }

    pub fn switch_window(&mut self, client: u64, window: u64) -> (r: Result<
        ControlResponseData,
        ControlError,
    >)
        requires
            old(self)@.wf(),
        ensures
            (final(self)@, reply_view(r)) == old(self)@.switch_window(client, window),
            final(self)@.wf(),
    {
        self.ensure_sequence_capacity()?;
        let _ = self.require_active_client(client)?;
        self.require_window(window)?;
        let (session, pane): (u64, u64) = match self.domain.windows.get(window) {
            Some(w) => (w.session, w.layout.first_pane()),
            None => (0, 0),
        };
        self.unfocus(client);
        let ghost away = self@;
        if let Some(mut c) = self.clients.remove(client) {
            c.window_view = Some(window);
            let _ = self.clients.insert(client, c);
            assert(self@.clients =~= away.clients.insert(
                client,
                ClientView { window_view: Some(window), ..away.clients[client] },
            ));
        }
        let _ = self.publish(
            Event::WindowSwitched {
                client_id: client,
                session_id: session,
                window_id: window,
                pane_id: pane,
            },
        );
        Ok(self.window_response(window))
    }

    pub fn rename_window(&mut self, window: u64, title: &str) -> (r: Result<
        ControlResponseData,
        ControlError,
    >)
        requires
            old(self)@.wf(),
        ensures
            (final(self)@, reply_view(r)) == old(self)@.rename_window(window, title@),
            final(self)@.wf(),
    {
        self.ensure_sequence_capacity()?;
        self.require_window(window)?;
        proof {
            self@.domain.labels_keep_wf(0, window, 0, title@, None, false, Seq::empty());
        }
        if let Err(error) = self.domain.rename_window(window, title) {
            return Err(control_domain_error(error));
        }
        assert(self@.domain.windows.dom() =~= old(self)@.domain.windows.dom());
        let _ = self.publish(Event::WindowRenamed { window_id: window, title: trim(title) });
        Ok(self.window_response(window))
    }

    pub fn set_sync_input(&mut self, client: u64, window: u64, enabled: bool) -> (r: Result<
        ControlResponseData,
        ControlError,
    >)
        requires
            old(self)@.wf(),
        ensures
            (final(self)@, reply_view(r)) == old(self)@.set_sync_input(client, window, enabled),
            final(self)@.wf(),
    {
        let _ = self.require_active_client(client)?;
        self.ensure_sequence_capacity()?;
        proof {
            self@.domain.labels_keep_wf(0, window, 0, Seq::empty(), None, enabled, Seq::empty());
        }
        if let Err(error) = self.domain.set_sync_input(window, enabled) {
            return Err(control_domain_error(error));
        }
        assert(self@.domain.windows.dom() =~= old(self)@.domain.windows.dom());
        let _ = self.publish(Event::SyncInputChanged { window_id: window, enabled });
        Ok(self.ack())
    }

    pub fn set_pane_status(&mut self, pane: u64, text: &Option<String>) -> (r: Result<
        ControlResponseData,
        ControlError,
    >)
        requires
            old(self)@.wf(),
        ensures
            (final(self)@, reply_view(r)) == old(self)@.set_pane_status(pane, option_text(*text)),
            final(self)@.wf(),
    {
        self.ensure_sequence_capacity()?;
        self.require_pane(pane)?;
        let stored: Option<String> = match text {
            None => None,
            Some(raw) => {
                let status: String = validate_pane_status(raw.as_str())?;
                if status.as_str().is_empty() {
                    None
                } else {
                    Some(status)
                }
            },
        };
        let mut state: PaneState = self.take_pane(pane);
        state.status = clone_option_text(&stored);
        self.put_pane(pane, state);
        self.live_note(Effect::LogStatus { pane, status: clone_option_text(&stored) });
        let _ = self.publish(Event::PaneStatusChanged { pane_id: pane, status: stored });
        Ok(self.ack())
    }

    pub fn rename_pane(&mut self, pane: u64, title: &str) -> (r: Result<
        ControlResponseData,
        ControlError,
    >)
        requires
            old(self)@.wf(),
        ensures
            (final(self)@, reply_view(r)) == old(self)@.rename_pane(pane, title@),
            final(self)@.wf(),
    {
        self.ensure_sequence_capacity()?;
        self.require_pane(pane)?;
        let label: String = validate_pane_title(title)?;
        proof {
            self@.domain.labels_keep_wf(0, 0, pane, label@, None, false, Seq::empty());
        }
        self.domain.rename_pane(pane, label.as_str());
        let _ = self.publish(Event::PaneRenamed { pane_id: pane, title: label });
        Ok(self.ack())
    }

    fn check_pane_in_window(&self, window: u64, pane: u64) -> (r: Result<(), ControlError>)
        ensures
            checked(self@.pane_in_window_fault(window, pane), r),
    {
        reject_zero("window", window)?;
        reject_zero("pane", pane)?;
        self.require_window(window)?;
        let leaves: Vec<u64> = self.leaves_of(window);
        if !contains_id(&leaves, pane) {
            return Err(stale_id("pane", pane));
        }
        Ok(())
    }

    pub fn suggest_focus(&mut self, window: u64, pane: u64, reason: &Option<String>) -> (r: Result<
        ControlResponseData,
        ControlError,
    >)
        requires
            old(self)@.wf(),
        ensures
            (final(self)@, reply_view(r)) == old(self)@.suggest_focus(
                window,
                pane,
                option_text(*reason),
            ),
            final(self)@.wf(),
    {
        self.ensure_sequence_capacity()?;
        self.check_pane_in_window(window, pane)?;
        let _ = self.publish(
            Event::FocusSuggested {
                window_id: window,
                pane_id: pane,
                reason: clone_option_text(reason),
            },
        );
        Ok(self.ack())
    }

    pub fn report_focus(&mut self, client: u64, window: u64, pane: u64, now: u64) -> (r: Result<
        ControlResponseData,
        ControlError,
    >)
        requires
            old(self)@.wf(),
        ensures
            (final(self)@, reply_view(r)) == old(self)@.report_focus(client, window, pane, now),
            final(self)@.wf(),
    {
        let _ = self.require_active_client(client)?;
        self.check_pane_in_window(window, pane)?;
        let mut previous: Option<u64> = None;
        if let Some(mut c) = self.clients.remove(client) {
            previous = c.focus;
            let viewer: ViewerId = c.viewer;
            c.focus = Some(pane);
            let _ = self.clients.insert(client, c);
            assert(self@.clients =~= old(self)@.clients.insert(
                client,
                ClientView { focus: Some(pane), ..old(self)@.clients[client] },
            ));
            if let Some(left) = previous {
                if left != pane {
                    self.live_note(Effect::RevokeViewer { pane: left, viewer });
                }
            }
        }
        if previous != Some(pane) {
            self.ensure_sequence_capacity()?;
            let _ = self.publish(
                Event::FocusReported { client_id: client, window_id: window, pane_id: pane },
            );
        }
        Ok(self.mail_attention_response(pane, now))
    }

    pub fn set_client_space(&mut self, client: u64, space: &str, valid: Option<bool>) -> (r: Step)
        requires
            old(self)@.wf(),
        ensures
            (final(self)@, r@) == old(self)@.set_client_space(client, space@, valid),
            final(self)@.wf(),
    {
        if let Err(error) = self.require_active_client(client) {
            return refuse(error);
        }
        let valid: bool = match valid {
            Some(valid) => valid,
            None => {
                return Step::Wait(Ask::SpaceIdValid { space: String::from_str(space) });
            },
        };
        let changed: bool = match self.clients.get(client) {
            Some(c) => match &c.space {
                Some(prior) => !same_text(prior.as_str(), space),
                None => false,
            },
            None => false,
        };
        if !valid || changed {
            return refuse(
                ControlError::new(
                    ControlErrorCode::InvalidRequest,
                    "client Space context cannot change",
                ),
            );
        }
        if let Some(mut c) = self.clients.remove(client) {
            c.space = Some(String::from_str(space));
            let _ = self.clients.insert(client, c);
            assert(self@.clients =~= old(self)@.clients.insert(
                client,
                ClientView { space: Some(space@), ..old(self)@.clients[client] },
            ));
        }
        accept(self.ack())
    }

    pub fn shutdown_idle(&mut self, client: u64) -> (r: Result<ControlResponseData, ControlError>)
        requires
            old(self)@.wf(),
        ensures
            (final(self)@, reply_view(r)) == old(self)@.shutdown_idle(client),
            final(self)@.wf(),
    {
        let _ = self.require_active_client(client)?;
        let ids: Vec<u64> = self.domain.sessions.keys();
        proof {
            if ids@.len() > 0 {
                assert(ids@.contains(ids@[0]));
                assert(self@.domain.sessions.dom().contains(ids@[0]));
            } else {
                assert(self@.domain.sessions.dom() =~= Set::<u64>::empty());
            }
        }
        if ids.len() > 0 {
            return Err(
                ControlError::new(
                    ControlErrorCode::InvalidRequest,
                    "sessions are running; daemon restart deferred",
                ),
            );
        }
        self.shutdown_pending = true;
        Ok(ControlResponseData::ShutdownAccepted)
    }

    pub fn shutdown_server(&self, client: u64) -> (r: Result<ControlResponseData, ControlError>)
        ensures
            reply_view(r) == match self@.client_fault(client) {
                Some(fault) => Err::<DataView, ErrorView>(fault),
                None => Ok(DataView::ShutdownAccepted),
            },
    {
        let _ = self.require_active_client(client)?;
        Ok(ControlResponseData::ShutdownAccepted)
    }
}

impl PlaneView {
    /// What a client looks at is its own affair: sessions, windows, panes and their
    /// places stay, and so does what the other clients look at.
    pub proof fn looking_keeps_topology(
        self,
        client: u64,
        session: u64,
        window: u64,
        pane: u64,
        reason: Option<Seq<char>>,
        now: u64,
    )
        ensures
            self.looks_alike(self.switch_session(client, session).0, client),
            self.looks_alike(self.switch_window(client, window).0, client),
            self.looks_alike(self.report_focus(client, window, pane, now).0, client),
            self.looks_alike(self.suggest_focus(window, pane, reason).0, client),
    {
    }

    /// The same topology, and the same view for every client but one.
    pub open spec fn looks_alike(self, after: PlaneView, client: u64) -> bool {
        &&& after.domain == self.domain
        &&& after.frames == self.frames
        &&& forall|c: u64|
            #![trigger after.clients[c]]
            c != client && self.clients.contains_key(c) ==> after.clients.contains_key(c)
                && after.clients[c] == self.clients[c]
    }
}

} // verus!
