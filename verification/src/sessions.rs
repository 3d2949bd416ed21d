//! Sessions and windows: create, switch, rename, destroy.
use vstd::prelude::*;
use vstd::string::*;

use crate::error::{
    control_domain_error, domain_error_view, plain_error, ControlError, ControlErrorCode,
    DomainError, ErrorView,
};
use crate::event::{clone_option_text, option_text, Event, EventView};
use crate::idmap::{group_views, sorted_ids};
use crate::model::{group_seq_views, seq_views};
use crate::panes::{
    live_gate, live_gate_of, lived_view, spawn_fault, LiveGate, LiveGateView, Lived, Placed,
};
use crate::place::{
    bounds_fault, check_placed, entry_of, find_entry, lemma_entry_of, placed, validate_bounds,
    Placement,
};
use crate::plane::{checked, first_fault, pane_ids, ControlPlane, PlaneView};
use crate::response::{ControlResponseData, DataView};
use crate::state::{group_pane_states, Ask, AskView, Effect, EffectView, PaneState, PaneStateView};
use crate::step::{accept, refusal, refuse, BellView, Ring, Step, StepView};
use crate::text::{
    any_control, byte_count, byte_len, concat3, debug_text, has_control, quoted, same_text,
    text_contains, trim, trimmed,
};
use crate::topology::{relists, DomainView, PaneLayout};
use crate::wire::{PaneGeometry, SpawnSpec, SpawnView, WindowBounds};

verus! {

broadcast use {group_views, group_seq_views, group_pane_states};

/// What the mail store knows about an agent name: the agent behind it, and the
/// letters that wait for it, where they could be counted.
#[derive(Debug, PartialEq)]
pub struct Resolved {
    pub address: Result<String, String>,
    pub open: Option<u32>,
}

pub struct ResolvedView {
    pub address: Result<Seq<char>, Seq<char>>,
    pub open: Option<u32>,
}

impl View for Resolved {
    type V = ResolvedView;

    open spec fn view(&self) -> ResolvedView {
        ResolvedView {
            address: match self.address {
                Ok(s) => Ok(s@),
                Err(s) => Err(s@),
            },
            open: self.open,
        }
    }
}

pub open spec fn resolved_view(r: Option<Resolved>) -> Option<ResolvedView> {
    crate::model::option_view(r)
}

pub open spec fn store_error_view(text: Seq<char>) -> ErrorView {
    plain_error(ControlErrorCode::Internal, "mailbox store: "@ + text)
}

pub fn mail_store_error(text: &str) -> (e: ControlError)
    ensures
        e@ == store_error_view(text@),
{
    let message: String = crate::text::concat2("mailbox store: ", text);
    ControlError::new(ControlErrorCode::Internal, message.as_str())
}

/// A name or title that is too long, empty or holds a NUL.
pub open spec fn label_bad(label: Seq<char>) -> bool {
    label.len() == 0 || byte_count(label) > 64 || label.contains('\0')
}

fn bad_label(label: &str) -> (r: bool)
    ensures
        r == label_bad(label@),
{
    label.is_empty() || byte_len(label) > 64 || text_contains(label, '\0')
}

pub open spec fn title_fault(title: Seq<char>) -> Option<ErrorView> {
    if label_bad(trimmed(title)) {
        Some(
            plain_error(
                ControlErrorCode::InvalidRequest,
                "window title must be 1..=64 bytes and contain no NUL"@,
            ),
        )
    } else {
        None
    }
}

pub open spec fn name_fault(name: Seq<char>) -> Option<ErrorView> {
    if label_bad(trimmed(name)) {
        Some(
            plain_error(
                ControlErrorCode::InvalidRequest,
                "session name must be 1..=64 bytes and contain no NUL"@,
            ),
        )
    } else {
        None
    }
}

pub open spec fn reserved_view(agent: Seq<char>) -> ErrorView {
    plain_error(
        ControlErrorCode::InvalidRequest,
        "mailbox address "@ + debug_text(agent) + " is already reserved"@,
    )
}

pub fn reserved_error(agent: &str) -> (e: ControlError)
    ensures
        e@ == reserved_view(agent@),
{
    let shown: String = quoted(agent);
    let message: String = concat3("mailbox address ", shown.as_str(), " is already reserved");
    ControlError::new(ControlErrorCode::InvalidRequest, message.as_str())
}

/// Rules that pane titles and pane status texts share.
pub open spec fn note_fault(text: Seq<char>, long: Seq<char>, control: Seq<char>) -> Option<
    ErrorView,
> {
    if byte_count(trimmed(text)) > 64 {
        Some(plain_error(ControlErrorCode::InvalidRequest, long))
    } else if any_control(trimmed(text)) {
        Some(plain_error(ControlErrorCode::InvalidRequest, control))
    } else {
        None
    }
}

pub open spec fn pane_title_fault(text: Seq<char>) -> Option<ErrorView> {
    note_fault(
        text,
        "pane title must be at most 64 bytes"@,
        "pane title must not contain control characters"@,
    )
}

pub open spec fn pane_status_fault(text: Seq<char>) -> Option<ErrorView> {
    note_fault(
        text,
        "pane status must be at most 64 bytes"@,
        "pane status must not contain control characters"@,
    )
}

/// Pane titles are trimmed, at most 64 bytes and free of control characters. An
/// empty one clears the title.
pub fn validate_pane_title(text: &str) -> (r: Result<String, ControlError>)
    ensures
        checked(pane_title_fault(text@), r),
        r matches Ok(s) ==> s@ == trimmed(text@),
{
    let label: String = trim(text);
    if byte_len(label.as_str()) > 64 {
        return Err(
            ControlError::new(
                ControlErrorCode::InvalidRequest,
                "pane title must be at most 64 bytes",
            ),
        );
    }
    if has_control(label.as_str()) {
        return Err(
            ControlError::new(
                ControlErrorCode::InvalidRequest,
                "pane title must not contain control characters",
            ),
        );
    }
    Ok(label)
}

pub fn validate_pane_status(text: &str) -> (r: Result<String, ControlError>)
    ensures
        checked(pane_status_fault(text@), r),
        r matches Ok(s) ==> s@ == trimmed(text@),
{
    let label: String = trim(text);
    if byte_len(label.as_str()) > 64 {
        return Err(
            ControlError::new(
                ControlErrorCode::InvalidRequest,
                "pane status must be at most 64 bytes",
            ),
        );
    }
    if has_control(label.as_str()) {
        return Err(
            ControlError::new(
                ControlErrorCode::InvalidRequest,
                "pane status must not contain control characters",
            ),
        );
    }
    Ok(label)
}

/// Where the first pane of a new window stands.
#[derive(Debug)]
pub enum FirstPane {
    /// The host is to do this first.
    Wait(Ask),
    /// There is no such pane; `started` tells that its child was tried.
    Refused { error: ControlError, started: bool },
    Ready(Vec<PaneGeometry>),
}

#[verifier::ext_equal]
pub enum FirstPaneView {
    Wait(AskView),
    Refused { fault: ErrorView, started: bool },
    Ready(Seq<PaneGeometry>),
}

impl View for FirstPane {
    type V = FirstPaneView;

    open spec fn view(&self) -> FirstPaneView {
        match *self {
            FirstPane::Wait(ask) => FirstPaneView::Wait(ask@),
            FirstPane::Refused { error, started } => FirstPaneView::Refused {
                fault: error@,
                started,
            },
            FirstPane::Ready(geometry) => FirstPaneView::Ready(geometry@),
        }
    }
}

impl PlaneView {
    /// Size of a window for which none is given: that of the oldest window.
    pub open spec fn size_for(self, cols: Option<u32>, rows: Option<u32>) -> (u32, u32) {
        let ids = sorted_ids(self.frames.dom());
        let (c, r) = if ids.len() > 0 {
            (self.frames[ids[0]].bounds.cols, self.frames[ids[0]].bounds.rows)
        } else {
            (80u32, 24u32)
        };
        (
            match cols {
                Some(n) => n,
                None => c,
            },
            match rows {
                Some(n) => n,
                None => r,
            },
        )
    }

    /// Bounds of the window that would be created next.
    pub open spec fn next_bounds(self, cols: Option<u32>, rows: Option<u32>) -> WindowBounds {
        let (c, r) = self.size_for(cols, rows);
        WindowBounds { window_id: self.domain.next_window, cols: c, rows: r }
    }

    pub open spec fn next_leaf(self) -> PaneLayout {
        PaneLayout::Leaf { pane_id: self.domain.next_pane }
    }

    /// Where the placement and the start of a first pane stand.
    pub open spec fn first_pane(
        self,
        bounds: WindowBounds,
        spawn: SpawnView,
        agent: Option<Seq<char>>,
        answer: Placed,
        lived: Option<Result<(), Seq<char>>>,
    ) -> FirstPaneView {
        let pane = self.domain.next_pane;
        match bounds_fault(bounds) {
            Some(fault) => FirstPaneView::Refused { fault, started: false },
            None => match answer {
                None => FirstPaneView::Wait(AskView::Fit { layout: self.next_leaf(), bounds }),
                Some(Err(error)) => FirstPaneView::Refused {
                    fault: domain_error_view(error),
                    started: false,
                },
                Some(Ok(p)) => match placed(self.next_leaf(), p.rects@, seq![pane]) {
                    Err(fault) => FirstPaneView::Refused { fault, started: false },
                    Ok(geometry) => match live_gate_of(self.live, lived) {
                        LiveGateView::Ask => FirstPaneView::Wait(
                            AskView::Spawn {
                                pane: entry_of(geometry, pane)->0,
                                spec: spawn,
                                inherit: None,
                                agent,
                                geometry: Seq::empty(),
                            },
                        ),
                        LiveGateView::Refused(fault) => FirstPaneView::Refused {
                            fault,
                            started: true,
                        },
                        LiveGateView::Go => FirstPaneView::Ready(geometry),
                    },
                },
            },
        }
    }

    /// The start of a pane failed; what there is of it is removed.
    pub open spec fn unstarted(self, pane: u64, started: bool) -> PlaneView {
        if started {
            self.note(EffectView::RemovePane { pane })
        } else {
            self
        }
    }

    /// A new window with its first pane.
    pub open spec fn window_added(
        self,
        session: u64,
        title: Seq<char>,
        bounds: WindowBounds,
        spawn: SpawnView,
        geometry: Seq<PaneGeometry>,
    ) -> PlaneView {
        let pane = self.domain.next_pane;
        PlaneView { domain: self.domain.create_window(session, title), ..self }.with_frame(
            self.domain.next_window,
            bounds,
            geometry,
        ).with_pane(pane, PaneStateView { spawn: Some(spawn), ..self.panes[pane] })
    }

    pub open spec fn create_window_fault(
        self,
        session: u64,
        title: Seq<char>,
        spawn: SpawnView,
    ) -> Option<ErrorView> {
        first_fault(
            self.capacity_fault(),
            first_fault(
                spawn_fault(spawn),
                first_fault(
                    title_fault(title),
                    first_fault(
                        self.session_fault(session),
                        match self.domain.create_window_fault(session) {
                            Some(error) => Some(domain_error_view(error)),
                            None => None,
                        },
                    ),
                ),
            ),
        )
    }

    /// Open a window in a session.
    pub open spec fn create_window(
        self,
        session: u64,
        title: Seq<char>,
        spawn: SpawnView,
        cols: Option<u32>,
        rows: Option<u32>,
        answer: Placed,
        lived: Option<Result<(), Seq<char>>>,
    ) -> (PlaneView, StepView) {
        let bounds = self.next_bounds(cols, rows);
        match self.create_window_fault(session, title, spawn) {
            Some(fault) => (self, refusal(fault)),
            None => match self.first_pane(
                bounds,
                spawn,
                self.domain.sessions[session].agent_id,
                answer,
                lived,
            ) {
                FirstPaneView::Wait(ask) => (self, StepView::Wait(ask)),
                FirstPaneView::Refused { fault, started } => (
                    PlaneView {
                        domain: self.domain.window_undone(),
                        ..self
                    }.unstarted(self.domain.next_pane, started),
                    refusal(fault),
                ),
                FirstPaneView::Ready(geometry) => (
                    self.window_added(session, trimmed(title), bounds, spawn, geometry).publish(
                        EventView::WindowCreated {
                            session_id: session,
                            window_id: self.domain.next_window,
                            pane_id: self.domain.next_pane,
                            title: trimmed(title),
                            bounds,
                            spawn,
                        },
                    ),
                    StepView::Reply(
                        Ok(
                            DataView::Window {
                                session_id: session,
                                window_id: self.domain.next_window,
                                pane_id: self.domain.next_pane,
                                title: trimmed(title),
                            },
                        ),
                    ),
                ),
            },
        }
    }
}

impl ControlPlane {
    fn size_for(&self, cols: Option<u32>, rows: Option<u32>) -> (r: (u32, u32))
        ensures
            r == self@.size_for(cols, rows),
    {
        let (c, r): (u32, u32) = match self.frames.first_key() {
            Some(first) => match self.frames.get(first) {
                Some(frame) => (frame.bounds.cols, frame.bounds.rows),
                None => (80, 24),
            },
            None => (80, 24),
        };
        (
            match cols {
                Some(n) => n,
                None => c,
            },
            match rows {
                Some(n) => n,
                None => r,
            },
        )
    }

    /// Places and starts the first pane of the next window.
    fn first_pane(
        &self,
        bounds: WindowBounds,
        spawn: &SpawnSpec,
        agent: &Option<String>,
        answer: &Placed,
        lived: &Lived,
    ) -> (r: FirstPane)
        ensures
            r@ == self@.first_pane(
                bounds,
                spawn@,
                option_text(*agent),
                *answer,
                lived_view(*lived),
            ),
            r matches FirstPane::Ready(g) ==> relists(pane_ids(g@), seq![self@.domain.next_pane]),
    {
        if let Err(error) = validate_bounds(bounds) {
            return FirstPane::Refused { error, started: false };
        }
        let pane: u64 = self.domain.next_pane;
        let leaf = PaneLayout::Leaf { pane_id: pane };
        let p: &Placement = match answer {
            None => {
                return FirstPane::Wait(Ask::Fit { layout: leaf, bounds });
            },
            Some(Err(error)) => {
                return FirstPane::Refused { error: control_domain_error(*error), started: false };
            },
            Some(Ok(p)) => p,
        };
        let mut want: Vec<u64> = Vec::new();
        want.push(pane);
        assert(want@ =~= seq![pane]);
        assert(leaf.leaves() =~= seq![pane]);
        let geometry: Vec<PaneGeometry> = match check_placed(&leaf, &p.rects, &want) {
            Ok(geometry) => geometry,
            Err(error) => {
                return FirstPane::Refused { error, started: false };
            },
        };
        proof {
            assert(seq![pane][0] == pane);
            assert(seq![pane].contains(pane));
            assert(pane_ids(geometry@).contains(pane));
            lemma_entry_of(geometry@, pane);
        }
        match live_gate(self.live, lived) {
            LiveGate::Ask => {
                let entry: PaneGeometry = match find_entry(&geometry, pane) {
                    Some(entry) => entry,
                    None => PaneGeometry { pane_id: pane, col: 0, row: 0, cols: 0, rows: 0 },
                };
                let none: Vec<PaneGeometry> = Vec::new();
                assert(none@ =~= Seq::empty());
                FirstPane::Wait(
                    Ask::Spawn {
                        pane: entry,
                        spec: spawn.clone(),
                        inherit: None,
                        agent: clone_option_text(agent),
                        geometry: none,
                    },
                )
            },
            LiveGate::Refused(error) => FirstPane::Refused { error, started: true },
            LiveGate::Go => FirstPane::Ready(geometry),
        }
    }

    /// Removes what there is of a pane whose start failed.
    fn unstart(&mut self, pane: u64, started: bool)
        ensures
            final(self)@ == old(self)@.unstarted(pane, started),
    {
        if started {
            self.note(Effect::RemovePane { pane });
        }
    }

    /// Adds a window with its first pane.
    fn add_window(
        &mut self,
        session: u64,
        title: &str,
        bounds: WindowBounds,
        spawn: &SpawnSpec,
        geometry: Vec<PaneGeometry>,
    )
        requires
            old(self)@.wf(),
            old(self)@.domain.create_window_fault(session) is None,
            bounds.window_id == old(self)@.domain.next_window,
            relists(pane_ids(geometry@), seq![old(self)@.domain.next_pane]),
        ensures
            final(self)@ == old(self)@.window_added(session, title@, bounds, spawn@, geometry@),
            final(self)@.wf(),
    {
        let ghost before = self@;
        let pane: u64 = self.domain.next_pane;
        let window: u64 = self.domain.next_window;
        proof {
            before.domain.create_window_keeps_wf(session, title@);
            assert(PaneLayout::Leaf { pane_id: pane }.leaves() =~= seq![pane]);
        }
        let _ = self.domain.create_window(session, title);
        self.put_frame(window, bounds, geometry);
        let mut state: PaneState = self.take_pane(pane);
        state.spawn = Some(spawn.clone());
        self.put_pane(pane, state);
        proof {
            assert(!before.domain.windows.contains_key(window));
            assert(self@.frames.dom() =~= self@.domain.windows.dom());
            assert forall|w: u64| #[trigger] self@.frames.contains_key(w) implies self@.frames[w].bounds.window_id
                == w && relists(
                pane_ids(self@.frames[w].geometry),
                self@.domain.windows[w].layout.leaves(),
            ) by {
                if w != window {
                    assert(before.frames.contains_key(w));
                }
            }
        }
    }

    fn check_create_window(&self, session: u64, title: &str, spawn: &SpawnSpec) -> (r: Result<
        String,
        ControlError,
    >)
        requires
            self@.wf(),
        ensures
            checked(self@.create_window_fault(session, title@, spawn@), r),
            r matches Ok(label) ==> label@ == trimmed(title@),
    {
        self.ensure_sequence_capacity()?;
        spawn.validate()?;
        let label: String = trim(title);
        if bad_label(label.as_str()) {
            return Err(
                ControlError::new(
                    ControlErrorCode::InvalidRequest,
                    "window title must be 1..=64 bytes and contain no NUL",
                ),
            );
        }
        self.require_session(session)?;
        match self.domain.check_create_window(session) {
            Ok(()) => Ok(label),
            Err(error) => Err(control_domain_error(error)),
        }
    }

    pub fn create_window(
        &mut self,
        session: u64,
        title: &str,
        spawn: &SpawnSpec,
        cols: Option<u32>,
        rows: Option<u32>,
        answer: &Placed,
        lived: &Lived,
    ) -> (r: Step)
        requires
            old(self)@.wf(),
        ensures
            (final(self)@, r@) == old(self)@.create_window(
                session,
                title@,
                spawn@,
                cols,
                rows,
                *answer,
                lived_view(*lived),
            ),
            final(self)@.wf(),
    {
        let label: String = match self.check_create_window(session, title, spawn) {
            Ok(label) => label,
            Err(error) => {
                return refuse(error);
            },
        };
        let (c, r): (u32, u32) = self.size_for(cols, rows);
        let window: u64 = self.domain.next_window;
        let pane: u64 = self.domain.next_pane;
        let bounds = WindowBounds { window_id: window, cols: c, rows: r };
        let agent: Option<String> = match self.domain.sessions.get(session) {
            Some(s) => clone_option_text(&s.agent_id),
            None => None,
        };
        let geometry: Vec<PaneGeometry> = match self.first_pane(
            bounds,
            spawn,
            &agent,
            answer,
            lived,
        ) {
            FirstPane::Ready(geometry) => geometry,
            FirstPane::Wait(ask) => {
                return Step::Wait(ask);
            },
            FirstPane::Refused { error, started } => {
                self.domain.undo_window();
                self.unstart(pane, started);
                return refuse(error);
            },
        };
        self.add_window(session, label.as_str(), bounds, spawn, geometry);
        let _ = self.publish(
            Event::WindowCreated {
                session_id: session,
                window_id: window,
                pane_id: pane,
                title: label.clone(),
                bounds,
                spawn: spawn.clone(),
            },
        );
        accept(
            ControlResponseData::Window {
                session_id: session,
                window_id: window,
                pane_id: pane,
                title: label,
            },
        )
    }
}

pub open spec fn name_exists_view(name: Seq<char>) -> ErrorView {
    plain_error(
        ControlErrorCode::InvalidRequest,
        "session name "@ + debug_text(name) + " already exists"@,
    )
}

impl PlaneView {
    /// Why a mail address cannot be given to a new session.
    pub open spec fn address_fault(self, agent: Option<Seq<char>>, resolved: ResolvedView) -> Option<
        ErrorView,
    > {
        match agent {
            None => None,
            Some(agent) => match resolved.address {
                Err(text) => Some(store_error_view(text)),
                Ok(address) => if address != agent || self.aliases.contains_key(agent) {
                    Some(reserved_view(agent))
                } else {
                    None
                },
            },
        }
    }

    /// A session of that name and agent may be created.
    pub open spec fn new_session_fault(
        self,
        name: Seq<char>,
        agent: Option<Seq<char>>,
        resolved: ResolvedView,
    ) -> Option<ErrorView> {
        first_fault(
            self.address_fault(agent, resolved),
            if self.domain.name_taken(name, 0) {
                Some(name_exists_view(name))
            } else if self.domain.next_session == u64::MAX {
                Some(domain_error_view(DomainError::IdSpaceExhausted))
            } else {
                None
            },
        )
    }

    /// The session was created and destroyed again; its mail binding stays.
    pub open spec fn session_withdrawn(self, name: Seq<char>, agent: Option<Seq<char>>) -> PlaneView {
        PlaneView { domain: self.domain.session_undone(), ..self }.agent_bound(name, agent)
    }

    /// The numbers of the window and the pane of such a session are used up.
    pub open spec fn first_window_withdrawn(self) -> PlaneView {
        PlaneView {
            domain: DomainView {
                next_window: (self.domain.next_window + 1) as u64,
                next_pane: (self.domain.next_pane + 1) as u64,
                ..self.domain
            },
            ..self
        }
    }

    pub open spec fn agent_bound(self, name: Seq<char>, agent: Option<Seq<char>>) -> PlaneView {
        match agent {
            Some(agent) => self.note(EffectView::BindAgent { session: name, agent }),
            None => self,
        }
    }

    pub open spec fn session_added(self, name: Seq<char>, agent: Option<Seq<char>>) -> PlaneView {
        PlaneView { domain: self.domain.create_session(name, agent), ..self }.agent_bound(
            name,
            agent,
        )
    }

    pub open spec fn headless_session(
        self,
        name: Seq<char>,
        spawn: SpawnView,
        agent: Option<Seq<char>>,
    ) -> (PlaneView, StepView) {
        let session = self.domain.next_session;
        (
            self.session_added(name, agent).publish(
                EventView::SessionCreated {
                    session_id: session,
                    name,
                    window_id: 0,
                    pane_id: 0,
                    bounds: WindowBounds { window_id: 0, cols: 80, rows: 24 },
                    spawn,
                },
            ),
            StepView::Reply(
                Ok(DataView::Session { session_id: session, name, window_id: 0, pane_id: 0 }),
            ),
        )
    }

    pub open spec fn windowed_session(
        self,
        name: Seq<char>,
        spawn: SpawnView,
        bounds: WindowBounds,
        agent: Option<Seq<char>>,
        open: Option<u32>,
        geometry: Seq<PaneGeometry>,
    ) -> (PlaneView, StepView) {
        let session = self.domain.next_session;
        let reply = DataView::Session {
            session_id: session,
            name,
            window_id: self.domain.next_window,
            pane_id: self.domain.next_pane,
        };
        (
            self.session_added(name, agent).window_added(
                session,
                "main"@,
                bounds,
                spawn,
                geometry,
            ).publish(
                EventView::SessionCreated {
                    session_id: session,
                    name,
                    window_id: self.domain.next_window,
                    pane_id: self.domain.next_pane,
                    bounds,
                    spawn,
                },
            ),
            // Mail that queued while no pane existed rings now.
            if agent is Some && open is Some && open->0 > 0 {
                StepView::Bells {
                    rings: seq![BellView { agent: agent->0, depth: open->0 }],
                    reply,
                }
            } else {
                StepView::Reply(Ok(reply))
            },
        )
    }

    /// Create a session, with a first window unless it is headless.
    pub open spec fn create_session(
        self,
        name: Seq<char>,
        spawn: SpawnView,
        cols: Option<u32>,
        rows: Option<u32>,
        agent: Option<Seq<char>>,
        headless: bool,
        resolved: Option<ResolvedView>,
        answer: Placed,
        lived: Option<Result<(), Seq<char>>>,
    ) -> (PlaneView, StepView) {
        let label = trimmed(name);
        let known = match resolved {
            Some(r) => r,
            None => ResolvedView { address: Ok(Seq::empty()), open: None },
        };
        let bounds = self.next_bounds(cols, rows);
        match first_fault(
            self.capacity_fault(),
            first_fault(
                if headless {
                    None
                } else {
                    spawn_fault(spawn)
                },
                name_fault(name),
            ),
        ) {
            Some(fault) => (self, refusal(fault)),
            None => if agent is Some && resolved is None {
                (self, StepView::Wait(AskView::Resolve { name: agent->0 }))
            } else {
                match self.new_session_fault(label, agent, known) {
                    Some(fault) => (self, refusal(fault)),
                    None => if agent is Some && self.domain.agent_taken(agent->0, 0) {
                        (
                            PlaneView { domain: self.domain.session_undone(), ..self },
                            refusal(domain_error_view(DomainError::AgentIdInUse)),
                        )
                    } else if headless {
                        self.headless_session(label, spawn, agent)
                    } else if self.domain.next_window == u64::MAX || self.domain.next_pane
                        == u64::MAX {
                        (
                            self.session_withdrawn(label, agent),
                            refusal(domain_error_view(DomainError::IdSpaceExhausted)),
                        )
                    } else {
                        match self.first_pane(bounds, spawn, agent, answer, lived) {
                            FirstPaneView::Wait(ask) => (self, StepView::Wait(ask)),
                            FirstPaneView::Refused { fault, started } => (
                                self.first_window_withdrawn().session_withdrawn(
                                    label,
                                    agent,
                                ).unstarted(self.domain.next_pane, started),
                                refusal(fault),
                            ),
                            FirstPaneView::Ready(geometry) => self.windowed_session(
                                label,
                                spawn,
                                bounds,
                                agent,
                                known.open,
                                geometry,
                            ),
                        }
                    },
                }
            },
        }
    }
}

impl ControlPlane {
    fn check_address(&self, agent: &Option<String>, resolved: &Option<Resolved>) -> (r: Result<
        (),
        ControlError,
    >)
        requires
            agent is Some ==> resolved is Some,
        ensures
            resolved matches Some(known) ==> checked(
                self@.address_fault(option_text(*agent), known@),
                r,
            ),
            agent is None ==> r is Ok,
    {
        match (agent, resolved) {
            (Some(agent), Some(known)) => match &known.address {
                Err(text) => Err(mail_store_error(text.as_str())),
                Ok(address) => {
                    if !same_text(address.as_str(), agent.as_str()) || self.aliases.contains(
                        agent.as_str(),
                    ) {
                        Err(reserved_error(agent.as_str()))
                    } else {
                        Ok(())
                    }
                },
            },
            _ => Ok(()),
        }
    }

    fn check_session_name(&self, name: &str, spawn: &SpawnSpec, headless: bool) -> (r: Result<
        String,
        ControlError,
    >)
        requires
            self@.wf(),
        ensures
            checked(
                first_fault(
                    self@.capacity_fault(),
                    first_fault(
                        if headless {
                            None
                        } else {
                            spawn_fault(spawn@)
                        },
                        name_fault(name@),
                    ),
                ),
                r,
            ),
            r matches Ok(label) ==> label@ == trimmed(name@),
    {
        self.ensure_sequence_capacity()?;
        if !headless {
            spawn.validate()?;
        }
        let label: String = trim(name);
        if bad_label(label.as_str()) {
            return Err(
                ControlError::new(
                    ControlErrorCode::InvalidRequest,
                    "session name must be 1..=64 bytes and contain no NUL",
                ),
            );
        }
        Ok(label)
    }

    fn check_new_session(&self, label: &str, agent: &Option<String>, resolved: &Option<
        Resolved,
    >) -> (r: Result<(), ControlError>)
        requires
            agent is Some ==> resolved is Some,
        ensures
            checked(
                self@.new_session_fault(
                    label@,
                    option_text(*agent),
                    match *resolved {
                        Some(known) => known@,
                        None => ResolvedView { address: Ok(Seq::empty()), open: None },
                    },
                ),
                r,
            ),
    {
        self.check_address(agent, resolved)?;
        if self.domain.name_taken(label, 0) {
            let shown: String = quoted(label);
            let message: String = concat3("session name ", shown.as_str(), " already exists");
            return Err(ControlError::new(ControlErrorCode::InvalidRequest, message.as_str()));
        }
        if self.domain.next_session == u64::MAX {
            return Err(control_domain_error(DomainError::IdSpaceExhausted));
        }
        Ok(())
    }

    fn bind_agent(&mut self, name: &str, agent: &Option<String>)
        ensures
            final(self)@ == old(self)@.agent_bound(name@, option_text(*agent)),
    {
        if let Some(agent) = agent {
            self.note(
                Effect::BindAgent { session: String::from_str(name), agent: agent.clone() },
            );
        }
    }

    fn add_session(&mut self, name: &str, agent: &Option<String>) -> (session: u64)
        requires
            old(self)@.wf(),
            old(self)@.domain.next_session < u64::MAX,
        ensures
            session == old(self)@.domain.next_session,
            final(self)@ == old(self)@.session_added(name@, option_text(*agent)),
            final(self)@.wf(),
    {
        proof {
            self@.domain.create_session_keeps_wf(name@, option_text(*agent));
        }
        let session: u64 = self.domain.create_session(name, agent);
        self.bind_agent(name, agent);
        session
    }

    fn headless_session(&mut self, name: &str, spawn: &SpawnSpec, agent: &Option<String>) -> (r:
        Step)
        requires
            old(self)@.wf(),
            old(self)@.domain.next_session < u64::MAX,
        ensures
            (final(self)@, r@) == old(self)@.headless_session(name@, spawn@, option_text(*agent)),
            final(self)@.wf(),
    {
        let session: u64 = self.add_session(name, agent);
        let _ = self.publish(
            Event::SessionCreated {
                session_id: session,
                name: String::from_str(name),
                window_id: 0,
                pane_id: 0,
                bounds: WindowBounds { window_id: 0, cols: 80, rows: 24 },
                spawn: spawn.clone(),
            },
        );
        accept(
            ControlResponseData::Session {
                session_id: session,
                name: String::from_str(name),
                window_id: 0,
                pane_id: 0,
            },
        )
    }

    fn windowed_session(
        &mut self,
        name: &str,
        spawn: &SpawnSpec,
        bounds: WindowBounds,
        agent: &Option<String>,
        open: Option<u32>,
        geometry: Vec<PaneGeometry>,
    ) -> (r: Step)
        requires
            old(self)@.wf(),
            old(self)@.domain.next_session < u64::MAX,
            old(self)@.domain.next_window < u64::MAX,
            old(self)@.domain.next_pane < u64::MAX,
            bounds.window_id == old(self)@.domain.next_window,
            relists(pane_ids(geometry@), seq![old(self)@.domain.next_pane]),
        ensures
            (final(self)@, r@) == old(self)@.windowed_session(
                name@,
                spawn@,
                bounds,
                option_text(*agent),
                open,
                geometry@,
            ),
            final(self)@.wf(),
    {
        let window: u64 = self.domain.next_window;
        let pane: u64 = self.domain.next_pane;
        let session: u64 = self.add_session(name, agent);
        self.add_window(session, "main", bounds, spawn, geometry);
        let _ = self.publish(
            Event::SessionCreated {
                session_id: session,
                name: String::from_str(name),
                window_id: window,
                pane_id: pane,
                bounds,
                spawn: spawn.clone(),
            },
        );
        let reply = ControlResponseData::Session {
            session_id: session,
            name: String::from_str(name),
            window_id: window,
            pane_id: pane,
        };
        match (agent, open) {
            (Some(agent), Some(depth)) => {
                if depth > 0 {
                    let mut rings: Vec<Ring> = Vec::new();
                    rings.push(Ring { agent: agent.clone(), depth });
                    assert(seq_views(rings@) =~= seq![BellView { agent: agent@, depth }]);
                    return Step::Bells { rings, reply };
                }
            },
            _ => {},
        }
        accept(reply)
    }

    pub fn create_session(
        &mut self,
        name: &str,
        spawn: &SpawnSpec,
        cols: Option<u32>,
        rows: Option<u32>,
        agent: &Option<String>,
        headless: bool,
        resolved: &Option<Resolved>,
        answer: &Placed,
        lived: &Lived,
    ) -> (r: Step)
        requires
            old(self)@.wf(),
        ensures
            (final(self)@, r@) == old(self)@.create_session(
                name@,
                spawn@,
                cols,
                rows,
                option_text(*agent),
                headless,
                resolved_view(*resolved),
                *answer,
                lived_view(*lived),
            ),
            final(self)@.wf(),
    {
        let label: String = match self.check_session_name(name, spawn, headless) {
            Ok(label) => label,
            Err(error) => {
                return refuse(error);
            },
        };
        if let Some(address) = agent {
            if resolved.is_none() {
                return Step::Wait(Ask::Resolve { name: address.clone() });
            }
        }
        if let Err(error) = self.check_new_session(label.as_str(), agent, resolved) {
            return refuse(error);
        }
        if let Err(error) = self.domain.check_create_session(agent) {
            self.domain.undo_session();
            return refuse(control_domain_error(error));
        }
        if headless {
            return self.headless_session(label.as_str(), spawn, agent);
        }
        if self.domain.next_window == u64::MAX || self.domain.next_pane == u64::MAX {
            self.domain.undo_session();
            self.bind_agent(label.as_str(), agent);
            return refuse(control_domain_error(DomainError::IdSpaceExhausted));
        }
        let (c, r): (u32, u32) = self.size_for(cols, rows);
        let bounds = WindowBounds { window_id: self.domain.next_window, cols: c, rows: r };
        let geometry: Vec<PaneGeometry> = match self.first_pane(
            bounds,
            spawn,
            agent,
            answer,
            lived,
        ) {
            FirstPane::Ready(geometry) => geometry,
            FirstPane::Wait(ask) => {
                return Step::Wait(ask);
            },
            FirstPane::Refused { error, started } => {
                let pane: u64 = self.domain.next_pane;
                self.domain.next_window = self.domain.next_window + 1;
                self.domain.undo_pane();
                self.domain.undo_session();
                self.bind_agent(label.as_str(), agent);
                self.unstart(pane, started);
                return refuse(error);
            },
        };
        let open: Option<u32> = match resolved {
            Some(known) => known.open,
            None => None,
        };
        self.windowed_session(label.as_str(), spawn, bounds, agent, open, geometry)
    }
}

} // verus!
