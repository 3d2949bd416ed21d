//! Attention: sticky mail indicators, generic hints and explicit requests.
use vstd::prelude::*;
use vstd::string::*;

use crate::error::{plain_error, ControlError, ControlErrorCode, ErrorView};
use crate::event::{Event, EventView};
use crate::idmap::{
    group_views, lemma_ids_are_listed, lemma_picked, lists_ids, pick_ids, sorted_ids,
};
use crate::model::{group_seq_views, option_view, seq_views};
use crate::plane::{checked, first_fault, ControlPlane, PlaneView};
use crate::response::{mutation, reply_view, ControlResponseData, DataView, MutationAck};
use crate::state::{
    group_pane_states, Ask, AskView, ClientView, Effect, EffectView, MailNudge, PaneState,
    PaneStateView,
};
use crate::step::{accept, refusal, refuse, Step, StepView};
use crate::text::{
    any_control, byte_count, byte_len, has_control, hex_prefix, hex_value, is_hex_char, same_text,
    text_contains, trim, trimmed,
};
use crate::wire::{
    AttentionAction, AttentionRequest, AttentionRequestView, MailAttentionState, MailAttentionView,
    MailWake,
};

verus! {

broadcast use {group_views, group_seq_views, group_pane_states};

/// Delay before an unread letter rings again.
pub const MAIL_INJECT_NUDGE_DELAY_MS: u64 = 3_000;

pub const MAX_ATTENTION_BYTES: usize = 512;

/// What a client forgets when something goes away.
#[derive(Clone, Copy)]
pub enum Gone {
    Pane(u64),
    Window(u64),
    Session(u64),
}

/// A client without its reference to what went away.
pub open spec fn unreferenced(c: ClientView, gone: Gone) -> ClientView {
    match gone {
        Gone::Pane(pane) => if c.focus == Some(pane) {
            ClientView { focus: None, ..c }
        } else {
            c
        },
        Gone::Window(window) => if c.window_view == Some(window) {
            ClientView { window_view: None, ..c }
        } else {
            c
        },
        Gone::Session(session) => if c.view == Some(session) {
            ClientView { view: None, ..c }
        } else {
            c
        },
    }
}

pub open spec fn plus(a: u64, b: u64) -> u64 {
    if a + b <= u64::MAX {
        (a + b) as u64
    } else {
        u64::MAX
    }
}

pub open spec fn attention_fault(message: Seq<char>) -> Option<ErrorView> {
    if byte_count(message) > MAX_ATTENTION_BYTES || any_control(message) {
        Some(
            plain_error(
                ControlErrorCode::InvalidRequest,
                "attention message must be valid text without control characters and no larger than 512 bytes"@,
            ),
        )
    } else {
        None
    }
}

pub fn validate_attention_message(message: &str) -> (r: Result<(), ControlError>)
    ensures
        checked(attention_fault(message@), r),
{
    if byte_len(message) > MAX_ATTENTION_BYTES || has_control(message) {
        return Err(
            ControlError::new(
                ControlErrorCode::InvalidRequest,
                "attention message must be valid text without control characters and no larger than 512 bytes",
            ),
        );
    }
    Ok(())
}

pub open spec fn mail_cell_fault(cell: Seq<char>) -> Option<ErrorView> {
    if trimmed(cell).len() == 0 || byte_count(trimmed(cell)) > 128 || trimmed(cell).contains('\0') {
        Some(
            plain_error(
                ControlErrorCode::InvalidRequest,
                "mail cell must be a non-empty label"@,
            ),
        )
    } else {
        None
    }
}

pub fn validate_mail_cell(cell: &str) -> (r: Result<(), ControlError>)
    ensures
        checked(mail_cell_fault(cell@), r),
{
    let cell: String = trim(cell);
    if cell.as_str().is_empty() || byte_len(cell.as_str()) > 128 || text_contains(
        cell.as_str(),
        '\0',
    ) {
        return Err(
            ControlError::new(
                ControlErrorCode::InvalidRequest,
                "mail cell must be a non-empty label",
            ),
        );
    }
    Ok(())
}

impl PlaneView {
    pub open spec fn unreference(self, gone: Gone) -> PlaneView {
        PlaneView {
            clients: Map::new(
                |c: u64| self.clients.contains_key(c),
                |c: u64| unreferenced(self.clients[c], gone),
            ),
            ..self
        }
    }

    /// The watermark already covers this revision.
    pub open spec fn mail_rev_stale(self, pane: u64, queue_rev: u64) -> bool {
        self.panes[pane].mail_rev matches Some(watermark) && queue_rev <= watermark
    }

    /// The indicator of a pane changed.
    pub open spec fn mail_changed(
        self,
        pane: u64,
        state: Option<MailAttentionView>,
        clear_rev: Option<u64>,
    ) -> PlaneView {
        match state {
            Some(mail) => self.live_note(
                EffectView::LogMailDepth { pane, depth: mail.depth },
            ).publish(
                EventView::MailAttentionChanged {
                    pane_id: pane,
                    cell: Some(mail.cell),
                    gen: Some(mail.gen),
                    queue_rev: Some(mail.queue_rev),
                    depth: mail.depth,
                    wake: mail.wake,
                },
            ),
            None => self.live_note(EffectView::LogMailDepth { pane, depth: 0 }).publish(
                EventView::MailAttentionChanged {
                    pane_id: pane,
                    cell: None,
                    gen: None,
                    queue_rev: clear_rev,
                    depth: 0,
                    wake: None,
                },
            ),
        }
    }

    /// Light the indicator, unless a newer revision was applied.
    pub open spec fn arm_mail(
        self,
        pane: u64,
        mail: MailAttentionView,
        now: u64,
    ) -> (PlaneView, Result<DataView, ErrorView>) {
        if mail_cell_fault(mail.cell) is Some {
            (self, Err(mail_cell_fault(mail.cell)->0))
        } else if self.mail_rev_stale(pane, mail.queue_rev) {
            (self, Ok(self.mail_attention_reply(pane, now)))
        } else if self.capacity_fault() is Some {
            (self, Err(self.capacity_fault()->0))
        } else {
            let shown = MailAttentionView { pane_id: pane, cell: trimmed(mail.cell), ..mail };
            let after = self.with_pane(
                pane,
                PaneStateView {
                    mail: Some(shown),
                    mail_rev: Some(mail.queue_rev),
                    nudge: if mail.wake == Some(MailWake::Armed) {
                        Some(
                            MailNudge {
                                queue_rev: mail.queue_rev,
                                due_at_ms: plus(now, MAIL_INJECT_NUDGE_DELAY_MS),
                                verification: false,
                            },
                        )
                    } else {
                        None
                    },
                    ..self.panes[pane]
                },
            ).mail_changed(pane, Some(shown), None);
            (after, Ok(after.mail_attention_reply(pane, now)))
        }
    }

    /// Take the indicator down, unless a newer revision was applied.
    pub open spec fn clear_mail(self, pane: u64, queue_rev: u64, now: u64) -> (
        PlaneView,
        Result<DataView, ErrorView>,
    ) {
        let had = self.panes[pane].mail is Some;
        if self.mail_rev_stale(pane, queue_rev) {
            (self, Ok(self.mail_attention_reply(pane, now)))
        } else if had && self.capacity_fault() is Some {
            (self, Err(self.capacity_fault()->0))
        } else {
            let cleared = self.with_pane(
                pane,
                PaneStateView {
                    mail: None,
                    mail_rev: Some(queue_rev),
                    nudge: None,
                    ..self.panes[pane]
                },
            );
            let after = if had {
                cleared.mail_changed(pane, None, Some(queue_rev))
            } else {
                cleared
            };
            (after, Ok(after.mail_attention_reply(pane, now)))
        }
    }

    pub open spec fn set_mail_attention(
        self,
        client: u64,
        pane: u64,
        mail: MailAttentionView,
        now: u64,
    ) -> (PlaneView, Result<DataView, ErrorView>) {
        match first_fault(self.client_fault(client), self.pane_fault(pane)) {
            Some(fault) => (self, Err(fault)),
            None => if mail.depth == 0 {
                self.clear_mail(pane, mail.queue_rev, now)
            } else {
                self.arm_mail(pane, mail, now)
            },
        }
    }

    pub open spec fn clear_mail_attention(
        self,
        client: u64,
        pane: u64,
        queue_rev: u64,
        now: u64,
    ) -> (PlaneView, Result<DataView, ErrorView>) {
        match first_fault(self.client_fault(client), self.pane_fault(pane)) {
            Some(fault) => (self, Err(fault)),
            None => self.clear_mail(pane, queue_rev, now),
        }
    }

    /// Whether a drained inbox takes the indicator of a pane down.
    pub open spec fn hive_drain_clears(self, pane: u64) -> bool {
        &&& self.panes[pane].mail matches Some(mail)
        &&& self.domain.panes.contains_key(pane)
        &&& !self.mail_rev_stale(pane, plus(mail.queue_rev, 1))
        &&& self.capacity_fault() is None
    }

    pub open spec fn after_hive_drain(self, pane: u64) -> PlaneView {
        if self.hive_drain_clears(pane) {
            self.clear_mail(pane, plus(self.panes[pane].mail->0.queue_rev, 1), 0).0
        } else {
            self
        }
    }

    /// A pane is gone: everything about it is forgotten, but for an explicit
    /// attention request.
    pub open spec fn forget_pane(self, pane: u64) -> PlaneView {
        let state = self.panes[pane];
        let bare = self.with_pane(
            pane,
            PaneStateView { team: state.team, ..PaneStateView::blank() },
        ).unreference(Gone::Pane(pane));
        let quiet = if state.mail is Some {
            bare.mail_changed(pane, None, None)
        } else {
            bare
        };
        if state.status is Some {
            quiet.publish(EventView::PaneStatusChanged { pane_id: pane, status: None })
        } else {
            quiet
        }
    }

    /// Panes with an explicit attention request.
    pub open spec fn asking_panes(self) -> Set<u64> {
        Set::new(|p: u64| self.panes[p].team is Some)
    }

    /// The explicit requests, by ascending pane id.
    pub open spec fn attention_list(self) -> Seq<AttentionRequestView> {
        let ids = sorted_ids(self.asking_panes());
        Seq::new(ids.len(), |i: int| self.panes[ids[i]].team->0)
    }

    /// Requests of panes that are gone are dropped.
    pub open spec fn prune_requests(self) -> PlaneView {
        PlaneView {
            panes: Map::new(
                |p: u64| true,
                |p: u64|
                    if self.domain.panes.contains_key(p) {
                        self.panes[p]
                    } else {
                        PaneStateView { team: None, ..self.panes[p] }
                    },
            ),
            ..self
        }
    }

    pub open spec fn raise_fault(self, client: u64, pane: u64, message: Seq<char>) -> Option<
        ErrorView,
    > {
        first_fault(
            self.client_fault(client),
            first_fault(self.pane_fault(pane), attention_fault(message)),
        )
    }

    /// The same request is already open.
    pub open spec fn raised_already(self, pane: u64, message: Seq<char>) -> bool {
        self.panes[pane].team matches Some(request) && request.message == message
    }

    pub open spec fn raise_attention(
        self,
        pane: u64,
        message: Seq<char>,
        revision: u64,
        now: u64,
    ) -> PlaneView {
        self.with_pane(
            pane,
            PaneStateView {
                attention: Some(message),
                team: Some(
                    AttentionRequestView {
                        pane_id: pane,
                        revision,
                        message,
                        source: "explicit attention request"@,
                        raised_at_ms: now,
                        snoozed_until_ms: 0,
                    },
                ),
                ..self.panes[pane]
            },
        ).publish(EventView::PaneAttention { pane_id: pane, message })
    }

    /// Whether a session of a Space holds a pane.
    pub open spec fn pane_placed(self, pane: u64, session: u64, space: Seq<char>) -> bool {
        &&& self.domain.panes.contains_key(pane)
        &&& self.session_of_pane(pane) == session
        &&& self.domain.sessions[session].space_id == Some(space)
    }

    pub open spec fn update_fault(
        self,
        client: u64,
        pane: u64,
        revision: u64,
        space: Seq<char>,
        session: u64,
        action: AttentionAction,
    ) -> Option<ErrorView> {
        if self.client_fault(client) is Some {
            self.client_fault(client)
        } else if !self.pane_placed(pane, session, space) {
            Some(
                plain_error(
                    ControlErrorCode::StaleId,
                    "session moved or changed; refresh its owning Space"@,
                ),
            )
        } else if !(self.panes[pane].team matches Some(request) && request.revision == revision) {
            Some(
                plain_error(
                    ControlErrorCode::StaleRequestId,
                    "attention changed; refresh the session details"@,
                ),
            )
        } else {
            match action {
                AttentionAction::Resolve => self.capacity_fault(),
                AttentionAction::Snooze { seconds } => if 1 <= seconds <= 86_400 {
                    None
                } else {
                    Some(
                        plain_error(
                            ControlErrorCode::InvalidRequest,
                            "snooze must be between 1 and 86400 seconds"@,
                        ),
                    )
                },
            }
        }
    }

    pub open spec fn update_attention(
        self,
        pane: u64,
        action: AttentionAction,
        now: u64,
    ) -> PlaneView {
        let state = self.panes[pane];
        let request = state.team->0;
        match action {
            // A mail notification may have replaced the generic hint.
            AttentionAction::Resolve => if state.attention == Some(request.message) {
                self.with_pane(
                    pane,
                    PaneStateView { team: None, attention: None, ..state },
                ).publish(EventView::PaneAttentionCleared { pane_id: pane })
            } else {
                self.with_pane(pane, PaneStateView { team: None, ..state })
            },
            AttentionAction::Snooze { seconds } => self.with_pane(
                pane,
                PaneStateView {
                    team: Some(
                        AttentionRequestView {
                            snoozed_until_ms: plus(now, (seconds * 1000) as u64),
                            ..request
                        },
                    ),
                    ..state
                },
            ),
        }
    }

    /// A stale set or clear changes nothing; an applied one moves the watermark
    /// up, so that a delayed older set cannot resurrect attention and a delayed
    /// older clear cannot erase it.
    pub proof fn mail_watermark_only_rises(
        self,
        pane: u64,
        mail: MailAttentionView,
        queue_rev: u64,
        now: u64,
    )
        requires
            self.panes.dom() == Set::<u64>::full(),
        ensures
            self.mail_rev_stale(pane, mail.queue_rev) ==> self.arm_mail(pane, mail, now).0 == self,
            self.mail_rev_stale(pane, queue_rev) ==> self.clear_mail(pane, queue_rev, now).0
                == self,
            self.arm_mail(pane, mail, now).0 != self ==> self.arm_mail(
                pane,
                mail,
                now,
            ).0.mail_rev_stale(pane, mail.queue_rev),
            self.clear_mail(pane, queue_rev, now).1 is Ok ==> self.clear_mail(
                pane,
                queue_rev,
                now,
            ).0.mail_rev_stale(pane, queue_rev),
            self.panes[pane].mail_rev is Some ==> self.arm_mail(pane, mail, now).0.mail_rev_stale(
                pane,
                self.panes[pane].mail_rev->0,
            ) && self.clear_mail(pane, queue_rev, now).0.mail_rev_stale(
                pane,
                self.panes[pane].mail_rev->0,
            ),
    {
    }

    /// Clearing and then setting an older or the same revision leaves the
    /// indicator off.
    pub proof fn cleared_mail_stays_clear(
        self,
        pane: u64,
        mail: MailAttentionView,
        queue_rev: u64,
        now: u64,
    )
        requires
            self.panes.dom() == Set::<u64>::full(),
            self.clear_mail(pane, queue_rev, now).1 is Ok,
            !self.mail_rev_stale(pane, queue_rev),
            mail.queue_rev <= queue_rev,
        ensures
            ({
                let cleared = self.clear_mail(pane, queue_rev, now).0;
                &&& cleared.panes[pane].mail is None
                &&& cleared.arm_mail(pane, mail, now).0 == cleared
            }),
    {
    }

    /// Attention is advisory: it never touches the topology, the leases or the
    /// frames.
    pub proof fn attention_keeps_topology(
        self,
        pane: u64,
        mail: MailAttentionView,
        queue_rev: u64,
        now: u64,
    )
        ensures
            self.arm_mail(pane, mail, now).0.domain == self.domain,
            self.clear_mail(pane, queue_rev, now).0.domain == self.domain,
            self.arm_mail(pane, mail, now).0.frames == self.frames,
            self.clear_mail(pane, queue_rev, now).0.frames == self.frames,
            self.arm_mail(pane, mail, now).0.clients == self.clients,
            self.clear_mail(pane, queue_rev, now).0.clients == self.clients,
    {
    }
}

impl ControlPlane {
    /// Drops the references of all clients to what went away.
    pub(crate) fn unreference(&mut self, gone: Gone)
        ensures
            final(self)@ == old(self)@.unreference(gone),
    {
        let ids: Vec<u64> = self.clients.keys();
        let mut i: usize = 0;
        let ghost before = self@;
        assert(before.clients.dom() == self.clients@.dom());
        while i < ids.len()
            invariant
                i <= ids@.len(),
                lists_ids(ids@, before.clients.dom()),
                before == old(self)@,
                self@ == (PlaneView { clients: self@.clients, ..before }),
                self@.clients.dom() == before.clients.dom(),
                forall|k: int|
                    #![trigger ids@[k]]
                    0 <= k < ids@.len() ==> self@.clients[ids@[k]] == if k < i {
                        unreferenced(before.clients[ids@[k]], gone)
                    } else {
                        before.clients[ids@[k]]
                    },
            decreases ids@.len() - i,
        {
            let id: u64 = ids[i];
            assert(ids@.contains(id));
            let ghost at = self@;
            assert(at.clients.contains_key(id));
            if let Some(mut c) = self.clients.remove(id) {
                match gone {
                    Gone::Pane(pane) => {
                        if let Some(focus) = c.focus {
                            if focus == pane {
                                c.focus = None;
                            }
                        }
                    },
                    Gone::Window(window) => {
                        if let Some(selected) = c.window_view {
                            if selected == window {
                                c.window_view = None;
                            }
                        }
                    },
                    Gone::Session(session) => {
                        if let Some(selected) = c.view {
                            if selected == session {
                                c.view = None;
                            }
                        }
                    },
                }
                assert(c@ == unreferenced(at.clients[id], gone));
                let _ = self.clients.insert(id, c);
            }
            proof {
                assert(self@.clients =~= at.clients.insert(
                    id,
                    unreferenced(at.clients[id], gone),
                ));
                assert(self@.clients.dom() =~= before.clients.dom());
                assert forall|k: int|
                    #![trigger ids@[k]]
                    0 <= k < ids@.len() implies self@.clients[ids@[k]] == if k < i + 1 {
                    unreferenced(before.clients[ids@[k]], gone)
                } else {
                    before.clients[ids@[k]]
                } by {
                    if k < i {
                        assert(ids@[k] < ids@[i as int]);
                    } else if k > i {
                        assert(ids@[i as int] < ids@[k]);
                    }
                }
            }
            i = i + 1;
        }
        proof {
            assert(self@.clients =~= before.unreference(gone).clients) by {
                assert forall|c: u64| #[trigger] before.clients.contains_key(c) implies self@.clients[c]
                    == unreferenced(before.clients[c], gone) by {
                    assert(before.clients.dom().contains(c));
                    let k = choose|k: int| 0 <= k < ids@.len() && ids@[k] == c;
                    assert(ids@[k] == c);
                }
            }
        }
    }

    pub(crate) fn mail_rev_is_stale(&self, pane: u64, queue_rev: u64) -> (r: bool)
        ensures
            r == self@.mail_rev_stale(pane, queue_rev),
    {
        match self.panes.get(pane) {
            Some(state) => match state.mail_rev {
                Some(watermark) => queue_rev <= watermark,
                None => false,
            },
            None => false,
        }
    }

    fn emit_mail_attention_changed(
        &mut self,
        state: Option<MailAttentionState>,
        pane: u64,
        clear_queue_rev: Option<u64>,
    )
        requires
            old(self)@.ring.wf(),
        ensures
            final(self)@ == old(self)@.mail_changed(pane, option_view(state), clear_queue_rev),
            final(self)@.ring.wf(),
    {
        match state {
            Some(mail) => {
                self.live_note(Effect::LogMailDepth { pane, depth: mail.depth });
                let _ = self.publish(
                    Event::MailAttentionChanged {
                        pane_id: pane,
                        cell: Some(mail.cell),
                        gen: Some(mail.gen),
                        queue_rev: Some(mail.queue_rev),
                        depth: mail.depth,
                        wake: mail.wake,
                    },
                );
            },
            None => {
                self.live_note(Effect::LogMailDepth { pane, depth: 0 });
                let _ = self.publish(
                    Event::MailAttentionChanged {
                        pane_id: pane,
                        cell: None,
                        gen: None,
                        queue_rev: clear_queue_rev,
                        depth: 0,
                        wake: None,
                    },
                );
            },
        }
    }

    /// Lights the sticky mail indicator of a pane.
    pub fn arm_mail_attention(&mut self, pane: u64, mail: MailAttentionState, now: u64) -> (r:
        Result<ControlResponseData, ControlError>)
        requires
            old(self)@.wf(),
        ensures
            (final(self)@, reply_view(r)) == old(self)@.arm_mail(pane, mail@, now),
            final(self)@.wf(),
    {
        validate_mail_cell(mail.cell.as_str())?;
        if self.mail_rev_is_stale(pane, mail.queue_rev) {
            return Ok(self.mail_attention_response(pane, now));
        }
        self.ensure_sequence_capacity()?;
        let shown = MailAttentionState {
            pane_id: pane,
            cell: trim(mail.cell.as_str()),
            gen: mail.gen,
            queue_rev: mail.queue_rev,
            depth: mail.depth,
            wake: mail.wake,
            bound_pid: mail.bound_pid,
        };
        let armed: bool = match mail.wake {
            Some(MailWake::Armed) => true,
            _ => false,
        };
        let mut state: PaneState = self.take_pane(pane);
        state.mail = Some(shown.clone());
        state.mail_rev = Some(mail.queue_rev);
        state.nudge = if armed {
            Some(
                MailNudge {
                    queue_rev: mail.queue_rev,
                    due_at_ms: now.saturating_add(MAIL_INJECT_NUDGE_DELAY_MS),
                    verification: false,
                },
            )
        } else {
            None
        };
        self.put_pane(pane, state);
        self.emit_mail_attention_changed(Some(shown), pane, None);
        Ok(self.mail_attention_response(pane, now))
    }

    /// Takes the sticky mail indicator of a pane down.
    pub fn clear_mail(&mut self, pane: u64, queue_rev: u64, now: u64) -> (r: Result<
        ControlResponseData,
        ControlError,
    >)
        requires
            old(self)@.wf(),
        ensures
            (final(self)@, reply_view(r)) == old(self)@.clear_mail(pane, queue_rev, now),
            final(self)@.wf(),
    {
        if self.mail_rev_is_stale(pane, queue_rev) {
            return Ok(self.mail_attention_response(pane, now));
        }
        let had: bool = match self.panes.get(pane) {
            Some(state) => state.mail.is_some(),
            None => false,
        };
        if had {
            self.ensure_sequence_capacity()?;
        }
        let mut state: PaneState = self.take_pane(pane);
        state.mail = None;
        state.mail_rev = Some(queue_rev);
        state.nudge = None;
        self.put_pane(pane, state);
        if had {
            self.emit_mail_attention_changed(None, pane, Some(queue_rev));
        }
        Ok(self.mail_attention_response(pane, now))
    }

    pub fn apply_mail_attention_set(
        &mut self,
        client: u64,
        pane: u64,
        mail: MailAttentionState,
        now: u64,
    ) -> (r: Result<ControlResponseData, ControlError>)
        requires
            old(self)@.wf(),
        ensures
            (final(self)@, reply_view(r)) == old(self)@.set_mail_attention(
                client,
                pane,
                mail@,
                now,
            ),
            final(self)@.wf(),
    {
        let _ = self.require_active_client(client)?;
        self.require_pane(pane)?;
        if mail.depth == 0 {
            return self.clear_mail(pane, mail.queue_rev, now);
        }
        self.arm_mail_attention(pane, mail, now)
    }

    pub fn apply_mail_attention_clear(
        &mut self,
        client: u64,
        pane: u64,
        queue_rev: u64,
        now: u64,
    ) -> (r: Result<ControlResponseData, ControlError>)
        requires
            old(self)@.wf(),
        ensures
            (final(self)@, reply_view(r)) == old(self)@.clear_mail_attention(
                client,
                pane,
                queue_rev,
                now,
            ),
            final(self)@.wf(),
    {
        let _ = self.require_active_client(client)?;
        self.require_pane(pane)?;
        self.clear_mail(pane, queue_rev, now)
    }

    /// The inbox behind a pane was drained: the letter goes out, and the
    /// watermark moves on so that a stale set cannot light it again.
    pub fn clear_mail_after_hive_drain(&mut self, pane: u64) -> (cleared: bool)
        requires
            old(self)@.wf(),
        ensures
            cleared == old(self)@.hive_drain_clears(pane),
            final(self)@ == old(self)@.after_hive_drain(pane),
            final(self)@.wf(),
    {
        let queue_rev: u64 = match self.panes.get(pane) {
            Some(state) => match &state.mail {
                Some(mail) => mail.queue_rev.saturating_add(1),
                None => {
                    return false;
                },
            },
            None => {
                return false;
            },
        };
        if !self.domain.has_pane(pane) {
            return false;
        }
        if self.mail_rev_is_stale(pane, queue_rev) {
            return false;
        }
        if self.ensure_sequence_capacity().is_err() {
            return false;
        }
        let _ = self.clear_mail(pane, queue_rev, 0);
        true
    }

    /// Lit panes that name a cell, by ascending pane id.
    pub fn lit_mail_cells(&self) -> (cells: Vec<(u64, String)>)
        ensures
            lists_ids(sorted_ids(self@.lit_panes()), self@.lit_panes()),
            cells@.len() == sorted_ids(self@.lit_panes()).len(),
            forall|i: int|
                0 <= i < cells@.len() ==> (#[trigger] cells@[i]).0 == sorted_ids(
                    self@.lit_panes(),
                )[i] && cells@[i].1@ == self@.panes[cells@[i].0].mail->0.cell,
    {
        let keys: Vec<u64> = self.panes.keys();
        let mut keep: Vec<bool> = Vec::new();
        let mut i: usize = 0;
        while i < keys.len()
            invariant
                i <= keys@.len(),
                keep@.len() == i,
                forall|k: int|
                    0 <= k < i ==> #[trigger] keep@[k] == self@.lit_panes().contains(keys@[k]),
            decreases keys@.len() - i,
        {
            let lit: bool = match self.panes.get(keys[i]) {
                Some(state) => match &state.mail {
                    Some(mail) => {
                        let label: String = trim(mail.cell.as_str());
                        mail.depth > 0 && !label.as_str().is_empty()
                    },
                    None => false,
                },
                None => false,
            };
            keep.push(lit);
            i = i + 1;
        }
        let ids: Vec<u64> = pick_ids(&keys, &keep);
        proof {
            lemma_picked(keys@, keep@, ids@, self.panes@.dom(), self@.lit_panes());
        }
        let mut cells: Vec<(u64, String)> = Vec::new();
        let mut j: usize = 0;
        while j < ids.len()
            invariant
                j <= ids@.len(),
                cells@.len() == j,
                lists_ids(ids@, self@.lit_panes()),
                forall|k: int|
                    0 <= k < j ==> (#[trigger] cells@[k]).0 == ids@[k] && cells@[k].1@
                        == self@.panes[ids@[k]].mail->0.cell,
            decreases ids@.len() - j,
        {
            assert(ids@.contains(ids@[j as int]));
            assert(self@.lit_panes().contains(ids@[j as int]));
            if let Some(state) = self.panes.get(ids[j]) {
                if let Some(mail) = &state.mail {
                    cells.push((ids[j], mail.cell.clone()));
                }
            }
            j = j + 1;
        }
        cells
    }

    /// Forgets everything about a pane that is gone.
    pub(crate) fn forget_pane(&mut self, pane: u64)
        requires
            old(self)@.wf(),
        ensures
            final(self)@ == old(self)@.forget_pane(pane),
            final(self)@.wf(),
    {
        let state: PaneState = self.take_pane(pane);
        let had_mail: bool = state.mail.is_some();
        let had_status: bool = state.status.is_some();
        let mut bare: PaneState = PaneState::blank();
        bare.team = state.team;
        self.put_pane(pane, bare);
        self.unreference(Gone::Pane(pane));
        if had_mail {
            self.emit_mail_attention_changed(None, pane, None);
        }
        if had_status {
            let _ = self.publish(Event::PaneStatusChanged { pane_id: pane, status: None });
        }
    }
}

impl PlaneView {
    /// Panes whose indicator is lit and names a cell.
    pub open spec fn lit_panes(self) -> Set<u64> {
        Set::new(
            |p: u64|
                self.panes[p].mail matches Some(mail) && mail.depth > 0 && trimmed(mail.cell).len()
                    > 0,
        )
    }
}

/// Digits of a random token that make up a request revision. Thirteen
/// hexadecimal digits round-trip exactly through JSON number clients.
pub const REVISION_DIGITS: usize = 13;

pub open spec fn revision_digits_ok(token: Seq<char>) -> bool {
    token.len() >= REVISION_DIGITS && forall|i: int|
        0 <= i < REVISION_DIGITS ==> is_hex_char(token[i])
}

impl PlaneView {
    /// Raise an explicit request. A token makes its revision, so that a daemon
    /// restart does not reuse one.
    pub open spec fn raise_step(
        self,
        client: u64,
        pane: u64,
        message: Seq<char>,
        token: Option<Result<Seq<char>, Seq<char>>>,
        now: u64,
    ) -> (PlaneView, StepView) {
        match self.raise_fault(client, pane, message) {
            Some(fault) => (self, refusal(fault)),
            None => if self.raised_already(pane, message) {
                (self, StepView::Reply(Ok(ack(self))))
            } else {
                match token {
                    None => (self, StepView::Wait(AskView::Token)),
                    Some(Err(error)) => (
                        self,
                        refusal(plain_error(ControlErrorCode::Internal, error)),
                    ),
                    Some(Ok(text)) => if !revision_digits_ok(text) {
                        (
                            self,
                            refusal(
                                plain_error(
                                    ControlErrorCode::Internal,
                                    "invalid digit found in string"@,
                                ),
                            ),
                        )
                    } else if self.capacity_fault() is Some {
                        (self, refusal(self.capacity_fault()->0))
                    } else {
                        let after = self.raise_attention(
                            pane,
                            message,
                            hex_value(text.take(REVISION_DIGITS as int)) as u64,
                            now,
                        );
                        (after, StepView::Reply(Ok(ack(after))))
                    },
                }
            },
        }
    }

    /// The open requests of the panes that exist.
    pub open spec fn list_attention(self, client: u64) -> (PlaneView, Result<DataView, ErrorView>) {
        match self.client_fault(client) {
            Some(fault) => (self, Err(fault)),
            None => {
                let after = self.prune_requests();
                (after, Ok(DataView::AttentionRequests { requests: after.attention_list() }))
            },
        }
    }

    pub open spec fn update_team_attention(
        self,
        client: u64,
        pane: u64,
        revision: u64,
        space: Seq<char>,
        session: u64,
        action: AttentionAction,
        now: u64,
    ) -> (PlaneView, Result<DataView, ErrorView>) {
        match self.update_fault(client, pane, revision, space, session, action) {
            Some(fault) => (self, Err(fault)),
            None => {
                let after = self.update_attention(pane, action, now);
                (after, Ok(DataView::AttentionRequests { requests: after.attention_list() }))
            },
        }
    }
}

/// Acknowledges the sequence that a state has reached.
pub open spec fn ack(s: PlaneView) -> DataView {
    DataView::Mutation { ack: MutationAck { sequence: s.ring.sequence as u64 } }
}

/// A result taken by view.
pub open spec fn text_result(r: Option<Result<String, String>>) -> Option<
    Result<Seq<char>, Seq<char>>,
> {
    match r {
        Some(Ok(s)) => Some(Ok(s@)),
        Some(Err(s)) => Some(Err(s@)),
        None => None,
    }
}

impl ControlPlane {
    /// Acknowledges the sequence reached.
    pub(crate) fn ack(&self) -> (r: ControlResponseData)
        ensures
            r@ == ack(self@),
    {
        mutation(self.ring.sequence)
    }

    pub fn raise_attention(
        &mut self,
        client: u64,
        pane: u64,
        message: &str,
        token: &Option<Result<String, String>>,
        now: u64,
    ) -> (r: Step)
        requires
            old(self)@.wf(),
        ensures
            (final(self)@, r@) == old(self)@.raise_step(
                client,
                pane,
                message@,
                text_result(*token),
                now,
            ),
            final(self)@.wf(),
    {
        if let Err(error) = self.require_active_client(client) {
            return refuse(error);
        }
        if let Err(error) = self.require_pane(pane) {
            return refuse(error);
        }
        if let Err(error) = validate_attention_message(message) {
            return refuse(error);
        }
        let already: bool = match self.panes.get(pane) {
            Some(state) => match &state.team {
                Some(request) => same_text(request.message.as_str(), message),
                None => false,
            },
            None => false,
        };
        if already {
            return accept(self.ack());
        }
        let text: &String = match token {
            None => {
                return Step::Wait(Ask::Token);
            },
            Some(Err(error)) => {
                return refuse(ControlError::new(ControlErrorCode::Internal, error.as_str()));
            },
            Some(Ok(text)) => text,
        };
        let revision: u64 = match hex_prefix(text.as_str(), REVISION_DIGITS) {
            Some(revision) => revision,
            None => {
                return refuse(
                    ControlError::new(ControlErrorCode::Internal, "invalid digit found in string"),
                );
            },
        };
        if let Err(error) = self.ensure_sequence_capacity() {
            return refuse(error);
        }
        let mut state: PaneState = self.take_pane(pane);
        state.attention = Some(String::from_str(message));
        state.team = Some(
            AttentionRequest {
                pane_id: pane,
                revision,
                message: String::from_str(message),
                source: String::from_str("explicit attention request"),
                raised_at_ms: now,
                snoozed_until_ms: 0,
            },
        );
        self.put_pane(pane, state);
        let _ = self.publish(
            Event::PaneAttention { pane_id: pane, message: String::from_str(message) },
        );
        accept(self.ack())
    }

    fn prune_requests(&mut self)
        ensures
            final(self)@ == old(self)@.prune_requests(),
    {
        let keys: Vec<u64> = self.panes.keys();
        let mut i: usize = 0;
        let ghost before = self@;
        let ghost all = self.panes@.dom();
        while i < keys.len()
            invariant
                i <= keys@.len(),
                lists_ids(keys@, all),
                before == old(self)@,
                self@ == (PlaneView { panes: self@.panes, ..before }),
                forall|p: u64| #[trigger]
                    self@.panes[p] == before.panes[p] || (!before.domain.panes.contains_key(p)
                        && self@.panes[p] == (PaneStateView { team: None, ..before.panes[p] })),
                forall|k: int|
                    0 <= k < i && !before.domain.panes.contains_key(#[trigger] keys@[k])
                        ==> self@.panes[keys@[k]].team is None,
            decreases keys@.len() - i,
        {
            let pane: u64 = keys[i];
            if !self.domain.has_pane(pane) {
                let mut state: PaneState = self.take_pane(pane);
                state.team = None;
                self.put_pane(pane, state);
            }
            i = i + 1;
        }
        proof {
            assert forall|p: u64| #[trigger] self@.panes[p] == before.prune_requests().panes[p] by {
                if !before.domain.panes.contains_key(p) {
                    if all.contains(p) {
                        let k = choose|k: int| 0 <= k < keys@.len() && keys@[k] == p;
                        assert(self@.panes[keys@[k]].team is None);
                    }
                }
            }
            assert(self@.panes =~= before.prune_requests().panes);
        }
    }

    fn request_list(&self) -> (v: Vec<AttentionRequest>)
        ensures
            seq_views(v@) == self@.attention_list(),
    {
        let keys: Vec<u64> = self.panes.keys();
        let mut keep: Vec<bool> = Vec::new();
        let mut i: usize = 0;
        while i < keys.len()
            invariant
                i <= keys@.len(),
                keep@.len() == i,
                forall|k: int|
                    0 <= k < i ==> #[trigger] keep@[k] == self@.asking_panes().contains(keys@[k]),
            decreases keys@.len() - i,
        {
            let asks: bool = match self.panes.get(keys[i]) {
                Some(state) => state.team.is_some(),
                None => false,
            };
            keep.push(asks);
            i = i + 1;
        }
        let ids: Vec<u64> = pick_ids(&keys, &keep);
        proof {
            lemma_picked(keys@, keep@, ids@, self.panes@.dom(), self@.asking_panes());
        }
        let mut v: Vec<AttentionRequest> = Vec::new();
        let mut j: usize = 0;
        while j < ids.len()
            invariant
                j <= ids@.len(),
                v@.len() == j,
                lists_ids(ids@, self@.asking_panes()),
                forall|k: int| 0 <= k < j ==> (#[trigger] v@[k])@ == self@.panes[ids@[k]].team->0,
            decreases ids@.len() - j,
        {
            assert(ids@.contains(ids@[j as int]));
            assert(self@.asking_panes().contains(ids@[j as int]));
            if let Some(state) = self.panes.get(ids[j]) {
                if let Some(request) = &state.team {
                    v.push(request.clone());
                }
            }
            j = j + 1;
        }
        assert(seq_views(v@) =~= self@.attention_list());
        v
    }

    pub fn attention_requests(&mut self, client: u64) -> (r: Result<
        ControlResponseData,
        ControlError,
    >)
        requires
            old(self)@.wf(),
        ensures
            (final(self)@, reply_view(r)) == old(self)@.list_attention(client),
            final(self)@.wf(),
            lists_ids(sorted_ids(final(self)@.asking_panes()), final(self)@.asking_panes()),
    {
        proof {
            broadcast use lemma_ids_are_listed;
        }
        let _ = self.require_active_client(client)?;
        self.prune_requests();
        Ok(ControlResponseData::AttentionRequests { requests: self.request_list() })
    }

    pub fn update_team_attention(
        &mut self,
        client: u64,
        pane: u64,
        revision: u64,
        expected_space: &str,
        expected_session: u64,
        action: AttentionAction,
        now: u64,
    ) -> (r: Result<ControlResponseData, ControlError>)
        requires
            old(self)@.wf(),
        ensures
            (final(self)@, reply_view(r)) == old(self)@.update_team_attention(
                client,
                pane,
                revision,
                expected_space@,
                expected_session,
                action,
                now,
            ),
            final(self)@.wf(),
    {
        let _ = self.require_active_client(client)?;
        if !self.pane_placed(pane, expected_session, expected_space) {
            return Err(
                ControlError::new(
                    ControlErrorCode::StaleId,
                    "session moved or changed; refresh its owning Space",
                ),
            );
        }
        let current: bool = match self.panes.get(pane) {
            Some(state) => match &state.team {
                Some(request) => request.revision == revision,
                None => false,
            },
            None => false,
        };
        if !current {
            return Err(
                ControlError::new(
                    ControlErrorCode::StaleRequestId,
                    "attention changed; refresh the session details",
                ),
            );
        }
        match action {
            AttentionAction::Resolve => {
                self.ensure_sequence_capacity()?;
                let mut state: PaneState = self.take_pane(pane);
                let same: bool = match (&state.team, &state.attention) {
                    (Some(request), Some(hint)) => same_text(
                        request.message.as_str(),
                        hint.as_str(),
                    ),
                    _ => false,
                };
                state.team = None;
                if same {
                    state.attention = None;
                }
                self.put_pane(pane, state);
                if same {
                    let _ = self.publish(Event::PaneAttentionCleared { pane_id: pane });
                }
            },
            AttentionAction::Snooze { seconds } => {
                if seconds < 1 || seconds > 86_400 {
                    return Err(
                        ControlError::new(
                            ControlErrorCode::InvalidRequest,
                            "snooze must be between 1 and 86400 seconds",
                        ),
                    );
                }
                let until: u64 = now.saturating_add((seconds as u64) * 1000);
                let mut state: PaneState = self.take_pane(pane);
                if let Some(mut request) = state.team {
                    request.snoozed_until_ms = until;
                    state.team = Some(request);
                }
                self.put_pane(pane, state);
            },
        }
        assert(self@ =~= old(self)@.update_attention(pane, action, now));
        Ok(ControlResponseData::AttentionRequests { requests: self.request_list() })
    }

    fn pane_placed(&self, pane: u64, session: u64, space: &str) -> (r: bool)
        requires
            self@.domain.wf(),
        ensures
            r == self@.pane_placed(pane, session, space@),
    {
        let window: u64 = match self.domain.panes.get(pane) {
            Some(p) => p.window,
            None => {
                return false;
            },
        };
        assert(self@.domain.panes.contains_key(pane));
        let owner: u64 = match self.domain.windows.get(window) {
            Some(w) => w.session,
            None => {
                return false;
            },
        };
        assert(self@.domain.windows.contains_key(window));
        if owner != session {
            return false;
        }
        match self.domain.sessions.get(session) {
            Some(s) => match &s.space_id {
                Some(id) => same_text(id.as_str(), space),
                None => false,
            },
            None => false,
        }
    }
}

} // verus!
