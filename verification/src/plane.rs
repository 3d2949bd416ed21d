//! The control plane: topology, event history and everything remembered about
//! clients and panes, behind one state.
//!
//! The plane runs no child, reads no clock and computes no layout. Where a
//! decision needs such a result, a handler asks its host for it and is called
//! again with the answer. What the request is for happens once all answers are in.
//! Before that, at most two notes about a write are taken: that the host was the
//! last to type into a window, and that old output of a pane is forgotten.
use vstd::prelude::*;
use vstd::string::*;

use crate::alias::AliasTable;
use crate::error::{plain_error, stale_error, stale_id, ControlError, ControlErrorCode, ErrorView};
use crate::event::{sequence_exhausted, Event, EventRing, EventView, RingView};
use crate::idmap::{group_views, lists_ids, views, IdMap};
use crate::ledger::{dirty_input, dirty_input_still_open};
use crate::model::{group_seq_views, seq_views};
use crate::response::{ControlResponseData, DataView};
use crate::state::{
    Client, ClientView, Effect, EffectView, Frame, FrameView, PaneState, PaneStateView,
    group_pane_states, pane_states,
};
use crate::text::same_text;
use crate::topology::{relists, Domain, DomainView};
use crate::wire::{
    MailAttentionState, PaneGeometry, PaneInputLedger, RemoteSizePolicy, SizeOwner, SizeOwnerKind,
    Viewport,
};

verus! {

broadcast use {group_views, group_seq_views, group_pane_states};

/// Display-free owner of control-visible topology and event history.
pub struct ControlPlane {
    pub domain: Domain,
    pub ring: EventRing,
    pub clients: IdMap<Client>,
    pub panes: IdMap<PaneState>,
    pub frames: IdMap<Frame>,
    /// Last size that the host chose per window.
    pub host_viewports: IdMap<Viewport>,
    /// Most recently active client per window.
    pub latest: IdMap<u64>,
    pub aliases: AliasTable,
    /// Work that waits for the host.
    pub effects: Vec<Effect>,
    pub remote_size: RemoteSizePolicy,
    /// Panes have children that the host runs.
    pub live: bool,
    pub shutdown_pending: bool,
    /// Internal identity of the mail doorbell. Never a registered client.
    pub doorbell: u64,
}

#[verifier::ext_equal]
pub struct PlaneView {
    pub domain: DomainView,
    pub ring: RingView,
    pub clients: Map<u64, ClientView>,
    /// Total: a pane of which nothing is remembered is blank.
    pub panes: Map<u64, PaneStateView>,
    pub frames: Map<u64, FrameView>,
    pub host_viewports: Map<u64, Viewport>,
    pub latest: Map<u64, u64>,
    pub aliases: Map<Seq<char>, Seq<char>>,
    pub effects: Seq<EffectView>,
    pub remote_size: RemoteSizePolicy,
    pub live: bool,
    pub shutdown_pending: bool,
    pub doorbell: u64,
}

impl View for ControlPlane {
    type V = PlaneView;

    open spec fn view(&self) -> PlaneView {
        PlaneView {
            domain: self.domain@,
            ring: self.ring@,
            clients: views(self.clients@),
            panes: pane_states(self.panes@),
            frames: views(self.frames@),
            host_viewports: self.host_viewports@,
            latest: self.latest@,
            aliases: self.aliases@,
            effects: seq_views(self.effects@),
            remote_size: self.remote_size,
            live: self.live,
            shutdown_pending: self.shutdown_pending,
            doorbell: self.doorbell,
        }
    }
}

/// The panes that geometry entries place.
pub open spec fn pane_ids(g: Seq<PaneGeometry>) -> Seq<u64> {
    Seq::new(g.len(), |i: int| g[i].pane_id)
}

/// The first of two reasons to refuse.
pub open spec fn first_fault(a: Option<ErrorView>, b: Option<ErrorView>) -> Option<ErrorView> {
    if a is Some {
        a
    } else {
        b
    }
}

/// Whether a check went as its fault says.
pub open spec fn checked<T>(fault: Option<ErrorView>, r: Result<T, ControlError>) -> bool {
    match fault {
        Some(fault) => r matches Err(e) && e@ == fault,
        None => r is Ok,
    }
}

impl PlaneView {
    /// Every window has a frame that places exactly its panes; the doorbell is
    /// not a registered client; client ids were minted here; there is an end to the
    /// aliases.
    pub open spec fn wf(self) -> bool {
        &&& self.domain.wf()
        &&& self.ring.wf()
        &&& self.frames.dom() == self.domain.windows.dom()
        &&& forall|w: u64| #[trigger]
            self.frames.contains_key(w) ==> self.frames[w].bounds.window_id == w && relists(
                pane_ids(self.frames[w].geometry),
                self.domain.windows[w].layout.leaves(),
            )
        &&& forall|c: u64| #[trigger]
            self.clients.contains_key(c) ==> 0 < c < self.domain.next_client
        &&& 0 < self.doorbell < self.domain.next_client
        &&& !self.clients.contains_key(self.doorbell)
        &&& self.panes.dom() == Set::<u64>::full()
        &&& self.aliases.dom().finite()
    }

    pub open spec fn with_pane(self, pane: u64, state: PaneStateView) -> PlaneView {
        PlaneView { panes: self.panes.insert(pane, state), ..self }
    }

    pub open spec fn with_client(self, client: u64, state: ClientView) -> PlaneView {
        PlaneView { clients: self.clients.insert(client, state), ..self }
    }

    /// One more event in the history.
    pub open spec fn publish(self, event: EventView) -> PlaneView {
        PlaneView { ring: self.ring.publish(event), ..self }
    }

    /// One more piece of work for the host.
    pub open spec fn note(self, effect: EffectView) -> PlaneView {
        PlaneView { effects: self.effects.push(effect), ..self }
    }

    /// Work that only running children need.
    pub open spec fn live_note(self, effect: EffectView) -> PlaneView {
        if self.live {
            self.note(effect)
        } else {
            self
        }
    }

    pub open spec fn capacity_fault(self) -> Option<ErrorView> {
        if self.ring.sequence == u64::MAX {
            Some(sequence_exhausted())
        } else {
            None
        }
    }

    pub open spec fn client_fault(self, client: u64) -> Option<ErrorView> {
        if self.clients.contains_key(client) {
            None
        } else {
            Some(stale_error("client"@, client))
        }
    }

    pub open spec fn pane_fault(self, pane: u64) -> Option<ErrorView> {
        if self.domain.panes.contains_key(pane) {
            None
        } else {
            Some(stale_error("pane"@, pane))
        }
    }

    pub open spec fn window_fault(self, window: u64) -> Option<ErrorView> {
        if self.domain.windows.contains_key(window) {
            None
        } else {
            Some(stale_error("window"@, window))
        }
    }

    pub open spec fn session_fault(self, session: u64) -> Option<ErrorView> {
        if self.domain.sessions.contains_key(session) {
            None
        } else {
            Some(stale_error("session"@, session))
        }
    }

    /// The session that holds a pane.
    pub open spec fn session_of_pane(self, pane: u64) -> u64 {
        self.domain.windows[self.domain.panes[pane].window].session
    }

    /// A client bound to a Space may only touch panes of that Space.
    pub open spec fn space_fault(self, client: u64, pane: u64) -> Option<ErrorView> {
        if self.clients[client].space is None {
            None
        } else if !self.domain.panes.contains_key(pane) {
            Some(stale_error("pane"@, pane))
        } else if self.domain.sessions[self.session_of_pane(pane)].space_id
            != self.clients[client].space {
            Some(
                plain_error(
                    ControlErrorCode::InputRouteUnavailable,
                    "pane moved to another Space; refresh this view"@,
                ),
            )
        } else {
            None
        }
    }

    pub open spec fn focused(self, pane: u64) -> bool {
        exists|c: u64|
            #![trigger self.clients.contains_key(c)]
            self.clients.contains_key(c) && self.clients[c].focus == Some(pane)
    }

    /// The facts that gate automatic input to a pane.
    pub open spec fn ledger(self, pane: u64, now: u64) -> PaneInputLedger {
        let state = self.panes[pane];
        let written_at = match state.written {
            Some(w) => Some(w.0),
            None => None,
        };
        let ended_cr = match state.written {
            Some(w) => w.1,
            None => false,
        };
        PaneInputLedger {
            last_output_at_ms: state.output_at,
            focused: self.focused(pane),
            controller_id: if self.domain.panes.contains_key(pane) {
                self.domain.panes[pane].controller
            } else {
                None
            },
            last_controller_write_at_ms: written_at,
            last_write_ended_with_cr: ended_cr,
            dirty_input: dirty_input(written_at, ended_cr, state.output_at, now),
            last_input_at_ms: state.input_at,
        }
    }

    /// Sticky mail attention of a pane, with its ledger.
    pub open spec fn mail_attention_reply(self, pane: u64, now: u64) -> DataView {
        DataView::MailAttention {
            pane_id: pane,
            attention: self.panes[pane].mail,
            ledger: self.ledger(pane, now),
        }
    }

    pub open spec fn is_host(self, client: u64) -> bool {
        self.clients.contains_key(client) && self.clients[client].host
    }

    /// Who last set the size of a window.
    pub open spec fn size_owner(self, window: u64) -> Option<SizeOwner> {
        if self.latest.contains_key(window) {
            let client = self.latest[window];
            Some(
                SizeOwner {
                    client_id: client,
                    kind: if self.is_host(client) {
                        SizeOwnerKind::Host
                    } else {
                        SizeOwnerKind::Remote
                    },
                },
            )
        } else {
            None
        }
    }
}

impl ControlPlane {
    pub fn is_live(&self) -> (r: bool)
        ensures
            r == self@.live,
    {
        self.live
    }

    pub fn sequence(&self) -> (n: u64)
        ensures
            n == self@.ring.sequence,
    {
        self.ring.sequence
    }

    /// Policy for sizes that remote terminals report.
    pub fn set_remote_size(&mut self, policy: RemoteSizePolicy)
        ensures
            final(self)@ == (PlaneView { remote_size: policy, ..old(self)@ }),
    {
        self.remote_size = policy;
    }

    /// Hands over the work that waits for the host.
    pub fn take_effects(&mut self) -> (effects: Vec<Effect>)
        ensures
            seq_views(effects@) == old(self)@.effects,
            final(self)@ == (PlaneView { effects: Seq::empty(), ..old(self)@ }),
    {
        let mut taken: Vec<Effect> = Vec::new();
        taken.append(&mut self.effects);
        assert(seq_views(taken@) =~= old(self)@.effects);
        assert(self@.effects =~= Seq::empty());
        taken
    }

    pub(crate) fn publish(&mut self, event: Event) -> (sequence: u64)
        requires
            old(self)@.ring.wf(),
            old(self)@.ring.admits(event@),
        ensures
            final(self)@ == old(self)@.publish(event@),
            final(self)@.ring.wf(),
            sequence == final(self)@.ring.sequence,
    {
        self.ring.publish(event)
    }

    pub(crate) fn note(&mut self, effect: Effect)
        ensures
            final(self)@ == old(self)@.note(effect@),
    {
        self.effects.push(effect);
    }

    pub(crate) fn live_note(&mut self, effect: Effect)
        ensures
            final(self)@ == old(self)@.live_note(effect@),
    {
        if self.live {
            self.effects.push(effect);
        }
    }

    pub(crate) fn ensure_sequence_capacity(&self) -> (r: Result<(), ControlError>)
        requires
            self@.ring.wf(),
        ensures
            checked(self@.capacity_fault(), r),
    {
        self.ring.has_capacity()
    }

    pub(crate) fn require_active_client(&self, raw: u64) -> (r: Result<u64, ControlError>)
        ensures
            checked(self@.client_fault(raw), r),
            r matches Ok(client) ==> client == raw,
    {
        if self.clients.contains_key(raw) {
            Ok(raw)
        } else {
            Err(stale_id("client", raw))
        }
    }

    pub(crate) fn require_pane(&self, raw: u64) -> (r: Result<(), ControlError>)
        ensures
            checked(self@.pane_fault(raw), r),
    {
        if self.domain.has_pane(raw) {
            Ok(())
        } else {
            Err(stale_id("pane", raw))
        }
    }

    pub(crate) fn require_window(&self, raw: u64) -> (r: Result<(), ControlError>)
        ensures
            checked(self@.window_fault(raw), r),
    {
        if self.domain.has_window(raw) {
            Ok(())
        } else {
            Err(stale_id("window", raw))
        }
    }

    pub(crate) fn require_session(&self, raw: u64) -> (r: Result<(), ControlError>)
        ensures
            checked(self@.session_fault(raw), r),
    {
        if self.domain.has_session(raw) {
            Ok(())
        } else {
            Err(stale_id("session", raw))
        }
    }

    pub(crate) fn require_client_space(&self, client: u64, pane: u64) -> (r: Result<
        (),
        ControlError,
    >)
        requires
            self@.domain.wf(),
            self@.clients.contains_key(client),
        ensures
            checked(self@.space_fault(client, pane), r),
    {
        let expected: &String = match self.clients.get(client) {
            Some(c) => match &c.space {
                Some(space) => space,
                None => {
                    return Ok(());
                },
            },
            None => {
                return Ok(());
            },
        };
        let window: u64 = match self.domain.panes.get(pane) {
            Some(p) => p.window,
            None => {
                return Err(stale_id("pane", pane));
            },
        };
        let session: u64 = match self.domain.windows.get(window) {
            Some(w) => w.session,
            None => 0,
        };
        proof {
            assert(self@.domain.panes.contains_key(pane));
            assert(self@.domain.windows.contains_key(window));
            assert(self@.domain.sessions.contains_key(session));
        }
        let owned: bool = match self.domain.sessions.get(session) {
            Some(s) => match &s.space_id {
                Some(owner) => same_text(owner.as_str(), expected.as_str()),
                None => false,
            },
            None => false,
        };
        if owned {
            Ok(())
        } else {
            Err(
                ControlError::new(
                    ControlErrorCode::InputRouteUnavailable,
                    "pane moved to another Space; refresh this view",
                ),
            )
        }
    }

    pub(crate) fn pane_is_focused(&self, pane: u64) -> (r: bool)
        ensures
            r == self@.focused(pane),
    {
        let ids: Vec<u64> = self.clients.keys();
        let mut i: usize = 0;
        while i < ids.len()
            invariant
                i <= ids@.len(),
                lists_ids(ids@, self.clients@.dom()),
                forall|k: int| 0 <= k < i ==> self@.clients[#[trigger] ids@[k]].focus != Some(pane),
            decreases ids@.len() - i,
        {
            assert(ids@.contains(ids@[i as int]));
            if let Some(c) = self.clients.get(ids[i]) {
                if let Some(focus) = c.focus {
                    if focus == pane {
                        assert(self@.clients.contains_key(ids@[i as int]));
                        return true;
                    }
                }
            }
            i = i + 1;
        }
        assert forall|c: u64| #[trigger] self@.clients.contains_key(c) implies self@.clients[c].focus
            != Some(pane) by {
            assert(self.clients@.dom().contains(c));
            let k = choose|k: int| 0 <= k < ids@.len() && ids@[k] == c;
            assert(ids@[k] == c);
        }
        false
    }

    pub(crate) fn pane_ledger(&self, pane: u64, now: u64) -> (r: PaneInputLedger)
        ensures
            r == self@.ledger(pane, now),
    {
        let controller_id: Option<u64> = match self.domain.panes.get(pane) {
            Some(p) => p.controller,
            None => None,
        };
        let focused: bool = self.pane_is_focused(pane);
        match self.panes.get(pane) {
            Some(state) => {
                let (written_at, ended_cr): (Option<u64>, bool) = match state.written {
                    Some(w) => (Some(w.0), w.1),
                    None => (None, false),
                };
                PaneInputLedger {
                    last_output_at_ms: state.output_at,
                    focused,
                    controller_id,
                    last_controller_write_at_ms: written_at,
                    last_write_ended_with_cr: ended_cr,
                    // Lease release does not clear this.
                    dirty_input: dirty_input_still_open(written_at, ended_cr, state.output_at, now),
                    last_input_at_ms: state.input_at,
                }
            },
            None => PaneInputLedger {
                last_output_at_ms: None,
                focused,
                controller_id,
                last_controller_write_at_ms: None,
                last_write_ended_with_cr: false,
                dirty_input: false,
                last_input_at_ms: None,
            },
        }
    }

    pub(crate) fn mail_attention_response(&self, pane: u64, now: u64) -> (r: ControlResponseData)
        ensures
            r@ == self@.mail_attention_reply(pane, now),
    {
        let attention: Option<MailAttentionState> = match self.panes.get(pane) {
            Some(state) => match &state.mail {
                Some(mail) => Some(mail.clone()),
                None => None,
            },
            None => None,
        };
        ControlResponseData::MailAttention {
            pane_id: pane,
            attention,
            ledger: self.pane_ledger(pane, now),
        }
    }

    pub(crate) fn is_host_client(&self, client: u64) -> (r: bool)
        ensures
            r == self@.is_host(client),
    {
        match self.clients.get(client) {
            Some(c) => c.host,
            None => false,
        }
    }

    pub(crate) fn size_owner_for(&self, window: u64) -> (r: Option<SizeOwner>)
        ensures
            r == self@.size_owner(window),
    {
        match self.latest.get(window) {
            Some(client) => Some(
                SizeOwner {
                    client_id: *client,
                    kind: if self.is_host_client(*client) {
                        SizeOwnerKind::Host
                    } else {
                        SizeOwnerKind::Remote
                    },
                },
            ),
            None => None,
        }
    }

    /// Takes the record of a pane out, leaving a blank one.
    pub(crate) fn take_pane(&mut self, pane: u64) -> (s: PaneState)
        ensures
            s@ == old(self)@.panes[pane],
            final(self)@ == old(self)@.with_pane(pane, PaneStateView::blank()),
    {
        match self.panes.remove(pane) {
            Some(s) => s,
            None => {
                assert(self.panes@ =~= old(self).panes@);
                assert(old(self)@.panes.insert(pane, PaneStateView::blank())
                    =~= old(self)@.panes);
                PaneState::blank()
            },
        }
    }

    pub(crate) fn put_pane(&mut self, pane: u64, state: PaneState)
        ensures
            final(self)@ == old(self)@.with_pane(pane, state@),
    {
        let _ = self.panes.insert(pane, state);
    }
}

} // verus!
