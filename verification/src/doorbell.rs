//! The mail doorbell: a gated write of one notification into the pane of an
//! agent, and its bounded retries.
use vstd::prelude::*;
use vstd::string::*;

use crate::attention::{plus, MAIL_INJECT_NUDGE_DELAY_MS};
use crate::error::{
    live_write_error, live_write_view, stale_error, stale_id, control_domain_error, ControlError,
    DomainError, ErrorView, LiveWriteError,
};
use crate::idmap::{group_views, lemma_picked, lists_ids, pick_ids, sorted_ids};
use crate::ledger::{
    output_busy, output_sum, prune_output, recent_output, since, MAIL_INJECT_BUSY_BYTES,
    MAIL_INJECT_INPUT_IDLE_MS,
};
use crate::model::group_seq_views;
use crate::plane::{checked, ControlPlane, PlaneView};
use crate::response::{reply_view, ControlResponseData, DataView};
use crate::state::{
    group_pane_states, MailInjectRecord, MailNudge, PaneState, PaneStateView,
};
use crate::text::same_text;
use crate::topology::{Domain, DomainView};
use crate::wire::{
    InjectAgent, MailAttentionState, MailAttentionView,
    MailInjectDiagnostic, MailInjectOutcome, MailWake, PaneInputLedger, MAIL_ATTENTION_CELL,
};

verus! {

broadcast use {group_views, group_seq_views, group_pane_states};

/// After a write, the same screen hides further rings for this long.
pub const MAIL_INJECT_HIDE_MS: u64 = 60_000;

/// A first write is verified by one more ring after this time.
pub const MAIL_INJECT_VERIFY_MS: u64 = 8_000;

/// How long a write may take to show on the screen.
pub const MAIL_INJECT_EPOCH_WAIT_MS: u64 = 250;

/// Longest pause between two looks at the screen.
pub const MAIL_INJECT_EPOCH_SLICE_MS: u64 = 10;

/// What the host sees of a pane: the agent in its foreground, and the revision
/// of its content.
#[derive(Debug, Clone, Copy, PartialEq, Eq, Structural)]
pub struct PaneFacts {
    pub agent: InjectAgent,
    pub revision: Option<u64>,
}

/// A write that passed the gates.
#[derive(Debug, Clone, Copy, PartialEq, Eq, Structural)]
pub struct InjectPlan {
    pub client: u64,
    pub pane: u64,
    pub queue_rev: u64,
    /// The client held the lease before; otherwise it is given back.
    pub held: bool,
    pub facts: PaneFacts,
}

/// Outcome of the gates.
#[derive(Debug, PartialEq)]
pub enum InjectStep {
    Done(Result<ControlResponseData, ControlError>),
    Write(InjectPlan),
}

pub enum InjectStepView {
    Done(Result<DataView, ErrorView>),
    Write(InjectPlan),
}

impl View for InjectStep {
    type V = InjectStepView;

    open spec fn view(&self) -> InjectStepView {
        match *self {
            InjectStep::Done(r) => InjectStepView::Done(reply_view(r)),
            InjectStep::Write(plan) => InjectStepView::Write(plan),
        }
    }
}

/// Next move while a written notification should show on the screen.
#[derive(Debug, Clone, Copy, PartialEq, Eq, Structural)]
pub enum InjectWait {
    Bumped,
    TimedOut,
    Pause { sleep_ms: u64, next_ms: u64 },
}

pub open spec fn smaller(a: u64, b: u64) -> u64 {
    if a <= b {
        a
    } else {
        b
    }
}

/// Look at the screen until it changes, with growing pauses, up to the deadline.
pub fn inject_wait(before: Option<u64>, current: Option<u64>, elapsed_ms: u64, pause_ms: u64) -> (r:
    InjectWait)
    ensures
        r == if elapsed_ms >= MAIL_INJECT_EPOCH_WAIT_MS {
            InjectWait::TimedOut
        } else if current != before {
            InjectWait::Bumped
        } else {
            InjectWait::Pause {
                sleep_ms: smaller(pause_ms, (MAIL_INJECT_EPOCH_WAIT_MS - elapsed_ms) as u64),
                next_ms: smaller(plus(pause_ms, pause_ms), MAIL_INJECT_EPOCH_SLICE_MS),
            }
        },
{
    if elapsed_ms >= MAIL_INJECT_EPOCH_WAIT_MS {
        return InjectWait::TimedOut;
    }
    if current != before {
        return InjectWait::Bumped;
    }
    let left: u64 = MAIL_INJECT_EPOCH_WAIT_MS - elapsed_ms;
    let doubled: u64 = pause_ms.saturating_add(pause_ms);
    InjectWait::Pause {
        sleep_ms: if pause_ms <= left {
            pause_ms
        } else {
            left
        },
        next_ms: if doubled <= MAIL_INJECT_EPOCH_SLICE_MS {
            doubled
        } else {
            MAIL_INJECT_EPOCH_SLICE_MS
        },
    }
}

impl DomainView {
    /// The oldest session bound to an agent.
    pub open spec fn is_agent_session(self, agent: Seq<char>, s: u64) -> bool {
        &&& self.sessions.contains_key(s)
        &&& self.sessions[s].agent_id == Some(agent)
        &&& forall|t: u64| #[trigger]
            self.sessions.contains_key(t) && t < s ==> self.sessions[t].agent_id != Some(agent)
    }

    pub open spec fn session_by_agent(self, agent: Seq<char>) -> Option<u64> {
        if exists|s: u64| self.is_agent_session(agent, s) {
            Some(choose|s: u64| self.is_agent_session(agent, s))
        } else {
            None
        }
    }

    /// The pane that rings for an agent: the first pane of the first window.
    pub open spec fn doorbell_pane(self, agent: Seq<char>) -> Option<u64> {
        match self.session_by_agent(agent) {
            None => None,
            Some(s) => if self.sessions[s].windows.len() == 0 {
                None
            } else {
                Some(self.windows[self.sessions[s].windows[0]].layout.leaves()[0])
            },
        }
    }
}

impl PlaneView {
    /// There is unread mail of this revision.
    pub open spec fn unread(self, pane: u64, queue_rev: u64) -> bool {
        self.panes[pane].mail matches Some(mail) && mail.depth > 0 && mail.queue_rev == queue_rev
    }

    /// The last attempt was for this revision.
    pub open spec fn tried(self, pane: u64, queue_rev: u64) -> bool {
        self.panes[pane].inject matches Some(record) && record.queue_rev == queue_rev
    }

    pub open spec fn typing(self, pane: u64, now: u64) -> bool {
        self.panes[pane].input_at matches Some(at) && since(at, now) < MAIL_INJECT_INPUT_IDLE_MS
    }

    /// The screen has not changed since the last write, which is recent.
    pub open spec fn hidden(self, pane: u64, queue_rev: u64, revision: Option<u64>, now: u64) -> bool {
        let record = self.panes[pane].inject->0;
        &&& self.tried(pane, queue_rev)
        &&& !record.stuck
        &&& now < record.hide_until_ms
        &&& revision == Some(record.hide_revision)
    }

    /// Reason not to look at the output of the pane at all.
    pub open spec fn early_gate(
        self,
        pane: u64,
        queue_rev: u64,
        attempts: u32,
        now: u64,
    ) -> Option<MailInjectOutcome> {
        let wake = self.panes[pane].mail->0.wake;
        if !self.unread(pane, queue_rev) {
            Some(MailInjectOutcome::SkippedNoMail)
        } else if attempts == 0 || wake == Some(MailWake::Exhausted) {
            Some(MailInjectOutcome::SkippedExhausted)
        } else if (self.tried(pane, queue_rev) && self.panes[pane].inject->0.stuck) || wake == Some(
            MailWake::Stuck,
        ) {
            Some(MailInjectOutcome::SkippedStuck)
        } else if self.ledger(pane, now).dirty_input {
            Some(MailInjectOutcome::DeferredDirty)
        } else if self.typing(pane, now) {
            Some(MailInjectOutcome::DeferredTyping)
        } else {
            None
        }
    }

    /// Reason not to ring a pane without pending mail trouble or typing.
    pub open spec fn late_gate(
        self,
        client: u64,
        pane: u64,
        queue_rev: u64,
        verification: bool,
        facts: PaneFacts,
        now: u64,
    ) -> Option<MailInjectOutcome> {
        let record = self.panes[pane].inject->0;
        if output_busy(self.panes[pane].output, now) {
            Some(MailInjectOutcome::DeferredBusy)
        } else if self.hidden(pane, queue_rev, facts.revision, now) && !verification {
            Some(MailInjectOutcome::DeferredHide)
        } else if self.tried(pane, queue_rev) && record.writes > 0 && !(verification
            && record.writes == 1) {
            Some(MailInjectOutcome::SkippedExhausted)
        } else if facts.agent == InjectAgent::Unknown {
            Some(MailInjectOutcome::DeferredNoAgent)
        } else {
            match self.domain.acquire_fault(pane, client) {
                Some(DomainError::LeaseHeld { .. }) => Some(MailInjectOutcome::DeferredLease),
                _ => None,
            }
        }
    }

    /// Record an attempt for operators.
    pub open spec fn diagnosed(
        self,
        pane: u64,
        queue_rev: u64,
        outcome: MailInjectOutcome,
        nbytes: usize,
        agent: InjectAgent,
        now: u64,
    ) -> PlaneView {
        self.with_pane(
            pane,
            PaneStateView {
                inject_last: Some(
                    MailInjectDiagnostic {
                        agent,
                        queue_rev,
                        outcome,
                        nbytes,
                        at_ms: now,
                    },
                ),
                ..self.panes[pane]
            },
        )
    }

    pub open spec fn inject_reply(
        self,
        pane: u64,
        queue_rev: u64,
        outcome: MailInjectOutcome,
        nbytes: usize,
        now: u64,
    ) -> DataView {
        DataView::MailInject {
            pane_id: pane,
            queue_rev,
            outcome,
            nbytes,
            ledger: self.ledger(pane, now),
        }
    }

    /// A closed gate: the attempt is recorded, nothing is written.
    pub open spec fn gate_closed(
        self,
        pane: u64,
        queue_rev: u64,
        outcome: MailInjectOutcome,
        agent: InjectAgent,
        now: u64,
    ) -> (PlaneView, InjectStepView) {
        let after = self.diagnosed(pane, queue_rev, outcome, 0, agent, now);
        (after, InjectStepView::Done(Ok(after.inject_reply(pane, queue_rev, outcome, 0, now))))
    }

    /// Old output of a pane is dropped.
    pub open spec fn output_pruned(self, pane: u64, now: u64) -> PlaneView {
        self.with_pane(
            pane,
            PaneStateView {
                output: recent_output(self.panes[pane].output, now),
                ..self.panes[pane]
            },
        )
    }

    /// The gates of the doorbell, up to the write.
    pub open spec fn inject_begin(
        self,
        client: u64,
        pane: u64,
        queue_rev: u64,
        attempts: u32,
        verification: bool,
        facts: PaneFacts,
        now: u64,
    ) -> (PlaneView, InjectStepView) {
        if pane == 0 {
            (self, InjectStepView::Done(Err(stale_error("pane"@, pane))))
        } else {
            match self.early_gate(pane, queue_rev, attempts, now) {
                Some(outcome) => self.gate_closed(pane, queue_rev, outcome, facts.agent, now),
                None => {
                    let seen = self.output_pruned(pane, now);
                    match self.late_gate(client, pane, queue_rev, verification, facts, now) {
                        Some(outcome) => seen.gate_closed(
                            pane,
                            queue_rev,
                            outcome,
                            facts.agent,
                            now,
                        ),
                        None => if !self.domain.panes.contains_key(pane) {
                            (seen, InjectStepView::Done(Err(stale_error("pane"@, pane))))
                        } else {
                            (
                                PlaneView {
                                    domain: seen.domain.with_controller(pane, Some(client)),
                                    ..seen
                                },
                                InjectStepView::Write(
                                    InjectPlan {
                                        client,
                                        pane,
                                        queue_rev,
                                        held: self.domain.panes[pane].controller == Some(client),
                                        facts,
                                    },
                                ),
                            )
                        },
                    }
                },
            }
        }
    }

    /// Give back a lease that was only taken for the write.
    pub open spec fn lease_returned(self, plan: InjectPlan) -> PlaneView {
        if plan.held || self.domain.holder_fault(plan.pane, plan.client) is Some {
            self
        } else {
            PlaneView { domain: self.domain.with_controller(plan.pane, None), ..self }
        }
    }

    /// The host wrote, or could not.
    pub open spec fn inject_written(self, plan: InjectPlan, failed: bool, now: u64) -> PlaneView {
        if failed {
            self.lease_returned(plan)
        } else {
            // Submit consumed the line: the input is not dirty.
            self.with_pane(
                plan.pane,
                PaneStateView { written: Some((now, true)), ..self.panes[plan.pane] },
            )
        }
    }

    /// How many writes a pane has seen, with this one.
    pub open spec fn writes_after(self, pane: u64) -> u32 {
        match self.panes[pane].inject {
            Some(record) => if record.writes < u32::MAX {
                (record.writes + 1) as u32
            } else {
                u32::MAX
            },
            None => 1,
        }
    }

    /// The write showed on the screen, or did not in time.
    pub open spec fn inject_finish(
        self,
        plan: InjectPlan,
        nbytes: usize,
        bumped: bool,
        facts: PaneFacts,
        now: u64,
    ) -> (PlaneView, DataView) {
        let freed = self.lease_returned(plan);
        let state = freed.panes[plan.pane];
        let writes = freed.writes_after(plan.pane);
        let record = MailInjectRecord {
            queue_rev: plan.queue_rev,
            stuck: !bumped,
            hide_until_ms: if bumped {
                plus(now, MAIL_INJECT_HIDE_MS)
            } else {
                0
            },
            hide_revision: match facts.revision {
                Some(revision) => revision,
                None => 0,
            },
            writes,
        };
        let nudge = if bumped && writes == 1 {
            Some(
                MailNudge {
                    queue_rev: plan.queue_rev,
                    due_at_ms: plus(now, MAIL_INJECT_VERIFY_MS),
                    verification: true,
                },
            )
        } else {
            state.nudge
        };
        let outcome = if bumped {
            MailInjectOutcome::Wrote
        } else {
            MailInjectOutcome::Stuck
        };
        let after = freed.with_pane(
            plan.pane,
            PaneStateView { inject: Some(record), nudge, ..state },
        ).diagnosed(plan.pane, plan.queue_rev, outcome, nbytes, facts.agent, now);
        (after, after.inject_reply(plan.pane, plan.queue_rev, outcome, nbytes, now))
    }

    /// A pane is written to only with unread mail, with attempts left, without a
    /// partial line, typing or busy output, with an agent in the foreground, and
    /// only while nobody else holds the lease.
    pub proof fn writes_pass_every_gate(
        self,
        client: u64,
        pane: u64,
        queue_rev: u64,
        attempts: u32,
        verification: bool,
        facts: PaneFacts,
        now: u64,
    )
        requires
            self.inject_begin(client, pane, queue_rev, attempts, verification, facts, now).1
                is Write,
        ensures
            self.unread(pane, queue_rev),
            attempts > 0,
            !self.ledger(pane, now).dirty_input,
            !self.typing(pane, now),
            !output_busy(self.panes[pane].output, now),
            facts.agent != InjectAgent::Unknown,
            self.domain.acquire_fault(pane, client) is None,
    {
    }

    /// A revision is written at most once, and once more only as the
    /// verification of a first write that showed; a stuck one never again.
    pub proof fn at_most_one_write_and_one_verification(
        self,
        plan: InjectPlan,
        nbytes: usize,
        bumped: bool,
        seen: PaneFacts,
        at: u64,
        client: u64,
        attempts: u32,
        verification: bool,
        facts: PaneFacts,
        now: u64,
    )
        requires
            self.panes.dom() == Set::<u64>::full(),
        ensures
            ({
                let after = self.inject_finish(plan, nbytes, bumped, seen, at).0;
                let again = after.inject_begin(
                    client,
                    plan.pane,
                    plan.queue_rev,
                    attempts,
                    verification,
                    facts,
                    now,
                ).1;
                again is Write ==> bumped && verification && self.writes_after(plan.pane) == 1
            }),
    {
        let freed = self.lease_returned(plan);
        assert(freed.panes == self.panes);
        let after = self.inject_finish(plan, nbytes, bumped, seen, at).0;
        assert(after.panes[plan.pane].inject->0.queue_rev == plan.queue_rev);
        assert(after.panes[plan.pane].inject->0.stuck == !bumped);
        assert(after.panes[plan.pane].inject->0.writes == self.writes_after(plan.pane));
        assert(after.tried(plan.pane, plan.queue_rev));
    }

    /// The doorbell leaves the leases as it found them.
    pub proof fn doorbell_leaves_leases(
        self,
        client: u64,
        pane: u64,
        queue_rev: u64,
        attempts: u32,
        verification: bool,
        facts: PaneFacts,
        now: u64,
    )
        requires
            self.wf(),
        ensures
            match self.inject_begin(client, pane, queue_rev, attempts, verification, facts, now) {
                (after, InjectStepView::Write(plan)) => after.lease_returned(plan).domain
                    == self.domain,
                (after, InjectStepView::Done(_)) => after.domain == self.domain,
            },
    {
        let (after, step) = self.inject_begin(
            client,
            pane,
            queue_rev,
            attempts,
            verification,
            facts,
            now,
        );
        if let InjectStepView::Write(plan) = step {
            assert(after.lease_returned(plan).domain.panes =~= self.domain.panes);
        }
    }
}

impl Domain {
    pub fn session_by_agent(&self, agent: &str) -> (r: Option<u64>)
        ensures
            r == self@.session_by_agent(agent@),
    {
        let ids: Vec<u64> = self.sessions.keys();
        let mut i: usize = 0;
        while i < ids.len()
            invariant
                i <= ids@.len(),
                lists_ids(ids@, self.sessions@.dom()),
                forall|k: int|
                    0 <= k < i ==> self@.sessions[#[trigger] ids@[k]].agent_id != Some(agent@),
            decreases ids@.len() - i,
        {
            let id: u64 = ids[i];
            assert(ids@.contains(id));
            let bound: bool = match self.sessions.get(id) {
                Some(session) => match &session.agent_id {
                    Some(name) => same_text(name.as_str(), agent),
                    None => false,
                },
                None => false,
            };
            if bound {
                proof {
                    assert forall|t: u64| #[trigger]
                        self@.sessions.contains_key(t) && t < id implies self@.sessions[t].agent_id
                        != Some(agent@) by {
                        assert(self.sessions@.dom().contains(t));
                        let k = choose|k: int| 0 <= k < ids@.len() && ids@[k] == t;
                        if k >= i {
                            assert(ids@[i as int] <= ids@[k]);
                        }
                    }
                    assert(self@.is_agent_session(agent@, id));
                    let c = choose|s: u64| self@.is_agent_session(agent@, s);
                    assert(self@.sessions.contains_key(c));
                    assert(c == id);
                }
                return Some(id);
            }
            i = i + 1;
        }
        proof {
            assert forall|s: u64| !self@.is_agent_session(agent@, s) by {
                if self@.is_agent_session(agent@, s) {
                    assert(self.sessions@.dom().contains(s));
                    let k = choose|k: int| 0 <= k < ids@.len() && ids@[k] == s;
                    assert(ids@[k] == s);
                }
            }
        }
        None
    }

    pub fn doorbell_pane(&self, agent: &str) -> (r: Option<u64>)
        requires
            self@.wf(),
        ensures
            r == self@.doorbell_pane(agent@),
            r matches Some(pane) ==> self@.panes.contains_key(pane),
    {
        let session: u64 = match self.session_by_agent(agent) {
            Some(s) => s,
            None => {
                return None;
            },
        };
        proof {
            let s = choose|s: u64| self@.is_agent_session(agent@, s);
            assert(self@.is_agent_session(agent@, s));
        }
        match self.sessions.get(session) {
            None => None,
            Some(s) => {
                if s.windows.len() == 0 {
                    return None;
                }
                let window: u64 = s.windows[0];
                proof {
                    assert(self@.sessions[session].windows.contains(window));
                }
                match self.windows.get(window) {
                    None => None,
                    Some(w) => {
                        let pane: u64 = w.layout.first_pane();
                        proof {
                            assert(self@.windows[window].layout.leaves().contains(pane));
                        }
                        Some(pane)
                    },
                }
            },
        }
    }
}

impl ControlPlane {
    fn mail_inject_response(
        &mut self,
        pane: u64,
        queue_rev: u64,
        outcome: MailInjectOutcome,
        nbytes: usize,
        agent: InjectAgent,
        now: u64,
    ) -> (r: ControlResponseData)
        ensures
            final(self)@ == old(self)@.diagnosed(pane, queue_rev, outcome, nbytes, agent, now),
            r@ == final(self)@.inject_reply(pane, queue_rev, outcome, nbytes, now),
    {
        let mut state: PaneState = self.take_pane(pane);
        state.inject_last = Some(
            MailInjectDiagnostic {
                agent,
                queue_rev,
                outcome,
                nbytes,
                at_ms: now,
            },
        );
        self.put_pane(pane, state);
        ControlResponseData::MailInject {
            pane_id: pane,
            queue_rev,
            outcome,
            nbytes,
            ledger: self.pane_ledger(pane, now),
        }
    }

    fn gate_closed(
        &mut self,
        pane: u64,
        queue_rev: u64,
        outcome: MailInjectOutcome,
        agent: InjectAgent,
        now: u64,
    ) -> (r: InjectStep)
        ensures
            (final(self)@, r@) == old(self)@.gate_closed(pane, queue_rev, outcome, agent, now),
    {
        let data: ControlResponseData = self.mail_inject_response(
            pane,
            queue_rev,
            outcome,
            0,
            agent,
            now,
        );
        InjectStep::Done(Ok(data))
    }

    fn early_gate(&self, pane: u64, queue_rev: u64, attempts: u32, now: u64) -> (r: Option<
        MailInjectOutcome,
    >)
        ensures
            r == self@.early_gate(pane, queue_rev, attempts, now),
    {
        let state: &PaneState = match self.panes.get(pane) {
            Some(state) => state,
            None => {
                return Some(MailInjectOutcome::SkippedNoMail);
            },
        };
        let mail: &MailAttentionState = match &state.mail {
            Some(mail) => mail,
            None => {
                return Some(MailInjectOutcome::SkippedNoMail);
            },
        };
        if mail.depth == 0 || mail.queue_rev != queue_rev {
            return Some(MailInjectOutcome::SkippedNoMail);
        }
        let exhausted: bool = match mail.wake {
            Some(MailWake::Exhausted) => true,
            _ => false,
        };
        if attempts == 0 || exhausted {
            return Some(MailInjectOutcome::SkippedExhausted);
        }
        let was_stuck: bool = match state.inject {
            Some(record) => record.queue_rev == queue_rev && record.stuck,
            None => false,
        };
        let marked_stuck: bool = match mail.wake {
            Some(MailWake::Stuck) => true,
            _ => false,
        };
        if was_stuck || marked_stuck {
            return Some(MailInjectOutcome::SkippedStuck);
        }
        let ledger: PaneInputLedger = self.pane_ledger(pane, now);
        if ledger.dirty_input {
            return Some(MailInjectOutcome::DeferredDirty);
        }
        let typing: bool = match ledger.last_input_at_ms {
            Some(at) => now.saturating_sub(at) < MAIL_INJECT_INPUT_IDLE_MS,
            None => false,
        };
        if typing {
            return Some(MailInjectOutcome::DeferredTyping);
        }
        None
    }

    /// Drops old output and tells whether what is left makes the pane busy.
    pub(crate) fn output_busy(&mut self, pane: u64, now: u64) -> (busy: bool)
        ensures
            busy == output_busy(old(self)@.panes[pane].output, now),
            final(self)@ == old(self)@.output_pruned(pane, now),
    {
        let mut state: PaneState = self.take_pane(pane);
        let recent: Vec<(u64, usize)> = prune_output(&state.output, now);
        let busy: bool = output_sum(&recent) >= MAIL_INJECT_BUSY_BYTES;
        state.output = recent;
        self.put_pane(pane, state);
        busy
    }

    /// Runs the gates of the doorbell. The caller writes when a plan comes back.
    pub fn inject_begin(
        &mut self,
        client: u64,
        pane: u64,
        queue_rev: u64,
        attempts: u32,
        verification: bool,
        facts: PaneFacts,
        now: u64,
    ) -> (r: InjectStep)
        requires
            old(self)@.wf(),
        ensures
            (final(self)@, r@) == old(self)@.inject_begin(
                client,
                pane,
                queue_rev,
                attempts,
                verification,
                facts,
                now,
            ),
            final(self)@.wf(),
    {
        if pane == 0 {
            return InjectStep::Done(Err(stale_id("pane", pane)));
        }
        if let Some(outcome) = self.early_gate(pane, queue_rev, attempts, now) {
            return self.gate_closed(pane, queue_rev, outcome, facts.agent, now);
        }
        let prior: Option<MailInjectRecord> = match self.panes.get(pane) {
            Some(state) => state.inject,
            None => None,
        };
        if self.output_busy(pane, now) {
            return self.gate_closed(
                pane,
                queue_rev,
                MailInjectOutcome::DeferredBusy,
                facts.agent,
                now,
            );
        }
        if let Some(record) = prior {
            if record.queue_rev == queue_rev {
                let hidden: bool = now < record.hide_until_ms && match facts.revision {
                    Some(revision) => revision == record.hide_revision,
                    None => false,
                };
                if hidden && !verification {
                    return self.gate_closed(
                        pane,
                        queue_rev,
                        MailInjectOutcome::DeferredHide,
                        facts.agent,
                        now,
                    );
                }
                // The only second write is the bounded verification.
                if record.writes > 0 && !(verification && record.writes == 1) {
                    return self.gate_closed(
                        pane,
                        queue_rev,
                        MailInjectOutcome::SkippedExhausted,
                        facts.agent,
                        now,
                    );
                }
            }
        }
        // A plain shell has no composer to ring: the letter stays lit.
        if facts.agent == InjectAgent::Unknown {
            return self.gate_closed(
                pane,
                queue_rev,
                MailInjectOutcome::DeferredNoAgent,
                facts.agent,
                now,
            );
        }
        let held: bool = match self.domain.controller(pane) {
            Ok(Some(holder)) => holder == client,
            _ => false,
        };
        match self.domain.acquire_controller(pane, client) {
            Ok(()) => {
                proof {
                    old(self)@.domain.leases_keep_topology(pane, Some(client), client);
                }
                InjectStep::Write(InjectPlan { client, pane, queue_rev, held, facts })
            },
            Err(DomainError::LeaseHeld { .. }) => self.gate_closed(
                pane,
                queue_rev,
                MailInjectOutcome::DeferredLease,
                facts.agent,
                now,
            ),
            Err(error) => InjectStep::Done(Err(control_domain_error(error))),
        }
    }

    fn return_lease(&mut self, plan: InjectPlan)
        requires
            old(self)@.wf(),
        ensures
            final(self)@ == old(self)@.lease_returned(plan),
            final(self)@.wf(),
    {
        if !plan.held {
            let freed: Result<(), DomainError> = self.domain.release_controller(
                plan.pane,
                plan.client,
            );
            proof {
                if freed is Ok {
                    old(self)@.domain.leases_keep_topology(plan.pane, None, plan.client);
                }
            }
        }
    }

    /// Takes the result of the write.
    pub fn inject_written(
        &mut self,
        plan: InjectPlan,
        result: Result<(), LiveWriteError>,
        now: u64,
    ) -> (r: Result<(), ControlError>)
        requires
            old(self)@.wf(),
        ensures
            final(self)@ == old(self)@.inject_written(plan, result is Err, now),
            final(self)@.wf(),
            checked(
                match result {
                    Ok(()) => None,
                    Err(error) => Some(live_write_view(error)),
                },
                r,
            ),
    {
        match result {
            Err(error) => {
                self.return_lease(plan);
                Err(live_write_error(error))
            },
            Ok(()) => {
                let mut state: PaneState = self.take_pane(plan.pane);
                state.written = Some((now, true));
                self.put_pane(plan.pane, state);
                Ok(())
            },
        }
    }

    /// Settles a write: `bumped` tells whether the screen changed in time.
    pub fn inject_finish(
        &mut self,
        plan: InjectPlan,
        nbytes: usize,
        bumped: bool,
        facts: PaneFacts,
        now: u64,
    ) -> (r: ControlResponseData)
        requires
            old(self)@.wf(),
        ensures
            (final(self)@, r@) == old(self)@.inject_finish(plan, nbytes, bumped, facts, now),
            final(self)@.wf(),
    {
        self.return_lease(plan);
        let mut state: PaneState = self.take_pane(plan.pane);
        let writes: u32 = match state.inject {
            Some(record) => record.writes.saturating_add(1),
            None => 1,
        };
        let revision: u64 = match facts.revision {
            Some(revision) => revision,
            None => 0,
        };
        state.inject = Some(
            MailInjectRecord {
                queue_rev: plan.queue_rev,
                stuck: !bumped,
                hide_until_ms: if bumped {
                    now.saturating_add(MAIL_INJECT_HIDE_MS)
                } else {
                    0
                },
                hide_revision: revision,
                writes,
            },
        );
        if bumped && writes == 1 {
            state.nudge = Some(
                MailNudge {
                    queue_rev: plan.queue_rev,
                    due_at_ms: now.saturating_add(MAIL_INJECT_VERIFY_MS),
                    verification: true,
                },
            );
        }
        self.put_pane(plan.pane, state);
        let outcome: MailInjectOutcome = if bumped {
            MailInjectOutcome::Wrote
        } else {
            MailInjectOutcome::Stuck
        };
        self.mail_inject_response(plan.pane, plan.queue_rev, outcome, nbytes, facts.agent, now)
    }
}

/// The attention of mux-native mail.
pub open spec fn native_mail(
    pane: u64,
    queue_rev: u64,
    depth: u32,
    wake: Option<MailWake>,
) -> MailAttentionView {
    MailAttentionView {
        pane_id: pane,
        cell: MAIL_ATTENTION_CELL@,
        gen: 0,
        queue_rev,
        depth,
        wake,
        bound_pid: None,
    }
}

fn native_mail_state(pane: u64, queue_rev: u64, depth: u32, wake: Option<MailWake>) -> (r:
    MailAttentionState)
    ensures
        r@ == native_mail(pane, queue_rev, depth, wake),
{
    MailAttentionState {
        pane_id: pane,
        cell: String::from_str(MAIL_ATTENTION_CELL),
        gen: 0,
        queue_rev,
        depth,
        wake,
        bound_pid: None,
    }
}

/// Whether the doorbell tries again after this result.
pub open spec fn retry_wanted(reply: Result<DataView, ErrorView>, verification: bool) -> bool {
    match reply {
        Err(_) => true,
        Ok(DataView::MailInject { outcome, .. }) => {
            ||| outcome == MailInjectOutcome::DeferredBusy
            ||| outcome == MailInjectOutcome::DeferredDirty
            ||| outcome == MailInjectOutcome::DeferredTyping
            ||| outcome == MailInjectOutcome::DeferredNoAgent
            ||| outcome == MailInjectOutcome::DeferredLease
            ||| outcome == MailInjectOutcome::DeferredFocused
            ||| (verification && outcome == MailInjectOutcome::DeferredHide)
        },
        Ok(_) => false,
    }
}

fn wants_retry(reply: &Result<ControlResponseData, ControlError>, verification: bool) -> (r: bool)
    ensures
        r == retry_wanted(reply_view(*reply), verification),
{
    match reply {
        Err(_) => true,
        Ok(ControlResponseData::MailInject { outcome, .. }) => match *outcome {
            MailInjectOutcome::DeferredBusy => true,
            MailInjectOutcome::DeferredDirty => true,
            MailInjectOutcome::DeferredTyping => true,
            MailInjectOutcome::DeferredNoAgent => true,
            MailInjectOutcome::DeferredLease => true,
            MailInjectOutcome::DeferredFocused => true,
            MailInjectOutcome::DeferredHide => verification,
            _ => false,
        },
        Ok(_) => false,
    }
}

impl PlaneView {
    pub open spec fn next_mail_rev(self, pane: u64) -> u64 {
        match self.panes[pane].mail_rev {
            Some(rev) => plus(rev, 1),
            None => 1,
        }
    }

    /// A letter was stored: the indicator of the recipient is armed. The pane
    /// and revision to ring come back, unless the recipient has no pane.
    pub open spec fn mail_stored(self, recipient: Seq<char>, depth: u32, now: u64) -> (
        PlaneView,
        Option<(u64, u64)>,
    ) {
        match self.domain.doorbell_pane(recipient) {
            None => (self, None),
            Some(pane) => {
                let queue_rev = self.next_mail_rev(pane);
                let (after, reply) = self.arm_mail(
                    pane,
                    native_mail(pane, queue_rev, depth, Some(MailWake::Armed)),
                    now,
                );
                if reply is Err {
                    (after, None)
                } else {
                    (after, Some((pane, queue_rev)))
                }
            },
        }
    }

    pub open spec fn without_nudge(self, pane: u64) -> PlaneView {
        self.with_pane(pane, PaneStateView { nudge: None, ..self.panes[pane] })
    }

    pub open spec fn cancel_nudge(self, agent: Seq<char>) -> PlaneView {
        match self.domain.doorbell_pane(agent) {
            None => self,
            Some(pane) => self.without_nudge(pane),
        }
    }

    /// The agent read or put back mail: the indicator shows what is open, and
    /// nothing rings.
    pub open spec fn refresh_mail(self, agent: Seq<char>, open: Option<u32>, now: u64) -> PlaneView {
        match self.domain.doorbell_pane(agent) {
            None => self,
            Some(pane) => {
                let calm = self.without_nudge(pane);
                let queue_rev = calm.next_mail_rev(pane);
                match open {
                    None => calm,
                    Some(depth) => if depth == 0 {
                        calm.clear_mail(pane, queue_rev, now).0
                    } else {
                        calm.arm_mail(pane, native_mail(pane, queue_rev, depth, None), now).0
                    },
                }
            },
        }
    }

    pub open spec fn due_panes(self, now: u64) -> Set<u64> {
        Set::new(|p: u64| self.panes[p].nudge matches Some(nudge) && nudge.due_at_ms <= now)
    }

    /// The letter that a nudge is about still waits.
    pub open spec fn nudge_lit(self, pane: u64, nudge: MailNudge) -> bool {
        &&& self.unread(pane, nudge.queue_rev)
        &&& self.panes[pane].mail->0.wake == Some(MailWake::Armed)
    }

    /// Plan the next ring, if this one was put off and the letter still waits.
    pub open spec fn nudge_end(
        self,
        pane: u64,
        nudge: MailNudge,
        reply: Result<DataView, ErrorView>,
        now: u64,
    ) -> PlaneView {
        if retry_wanted(reply, nudge.verification) && self.nudge_lit(pane, nudge) {
            self.with_pane(
                pane,
                PaneStateView {
                    nudge: Some(
                        MailNudge { due_at_ms: plus(now, MAIL_INJECT_NUDGE_DELAY_MS), ..nudge },
                    ),
                    ..self.panes[pane]
                },
            )
        } else {
            self
        }
    }

    /// Reading the mail of an agent ends its retries.
    pub proof fn reading_ends_retries(self, agent: Seq<char>, open: Option<u32>, now: u64)
        requires
            self.panes.dom() == Set::<u64>::full(),
        ensures
            self.domain.doorbell_pane(agent) matches Some(pane) ==> {
                &&& self.refresh_mail(agent, open, now).panes[pane].nudge is None
                &&& self.cancel_nudge(agent).panes[pane].nudge is None
                &&& (open == Some(0u32) && self.capacity_fault() is None && self.next_mail_rev(
                    pane,
                ) < u64::MAX ==> self.refresh_mail(agent, open, now).panes[pane].mail is None)
            },
    {
    }
}

impl ControlPlane {
    fn next_mail_rev(&self, pane: u64) -> (rev: u64)
        ensures
            rev == self@.next_mail_rev(pane),
    {
        match self.panes.get(pane) {
            Some(state) => match state.mail_rev {
                Some(rev) => rev.saturating_add(1),
                None => 1,
            },
            None => 1,
        }
    }

    /// A letter was stored for `recipient`: arms the indicator of its pane and
    /// returns the pane and revision to ring.
    pub fn on_mail_stored(&mut self, recipient: &str, depth: u32, now: u64) -> (r: Option<
        (u64, u64),
    >)
        requires
            old(self)@.wf(),
        ensures
            (final(self)@, r) == old(self)@.mail_stored(recipient@, depth, now),
            final(self)@.wf(),
    {
        let pane: u64 = match self.domain.doorbell_pane(recipient) {
            Some(pane) => pane,
            None => {
                return None;
            },
        };
        let queue_rev: u64 = self.next_mail_rev(pane);
        let mail: MailAttentionState = native_mail_state(
            pane,
            queue_rev,
            depth,
            Some(MailWake::Armed),
        );
        match self.arm_mail_attention(pane, mail, now) {
            Ok(_) => Some((pane, queue_rev)),
            Err(_) => None,
        }
    }

    fn drop_nudge(&mut self, pane: u64)
        requires
            old(self)@.wf(),
        ensures
            final(self)@ == old(self)@.without_nudge(pane),
            final(self)@.wf(),
    {
        let mut state: PaneState = self.take_pane(pane);
        state.nudge = None;
        self.put_pane(pane, state);
    }

    pub fn cancel_mail_nudge_for_agent(&mut self, agent: &str)
        requires
            old(self)@.wf(),
        ensures
            final(self)@ == old(self)@.cancel_nudge(agent@),
            final(self)@.wf(),
    {
        if let Some(pane) = self.domain.doorbell_pane(agent) {
            self.drop_nudge(pane);
        }
    }

    /// Keeps the indicator truthful after the agent read or put back mail.
    pub fn refresh_mail_attention(&mut self, agent: &str, open: Option<u32>, now: u64)
        requires
            old(self)@.wf(),
        ensures
            final(self)@ == old(self)@.refresh_mail(agent@, open, now),
            final(self)@.wf(),
    {
        let pane: u64 = match self.domain.doorbell_pane(agent) {
            Some(pane) => pane,
            None => {
                return ;
            },
        };
        self.drop_nudge(pane);
        let depth: u32 = match open {
            Some(depth) => depth,
            None => {
                return ;
            },
        };
        let queue_rev: u64 = self.next_mail_rev(pane);
        if depth == 0 {
            let _ = self.clear_mail(pane, queue_rev, now);
        } else {
            let mail: MailAttentionState = native_mail_state(pane, queue_rev, depth, None);
            let _ = self.arm_mail_attention(pane, mail, now);
        }
    }

    /// Nudges that are due, by ascending pane id.
    pub fn due_nudges(&self, now: u64) -> (v: Vec<(u64, MailNudge)>)
        ensures
            lists_ids(sorted_ids(self@.due_panes(now)), self@.due_panes(now)),
            v@.len() == sorted_ids(self@.due_panes(now)).len(),
            forall|i: int|
                0 <= i < v@.len() ==> (#[trigger] v@[i]).0 == sorted_ids(self@.due_panes(now))[i]
                    && self@.panes[v@[i].0].nudge == Some(v@[i].1),
    {
        let keys: Vec<u64> = self.panes.keys();
        let mut keep: Vec<bool> = Vec::new();
        let mut i: usize = 0;
        while i < keys.len()
            invariant
                i <= keys@.len(),
                keep@.len() == i,
                forall|k: int|
                    0 <= k < i ==> #[trigger] keep@[k] == self@.due_panes(now).contains(keys@[k]),
            decreases keys@.len() - i,
        {
            let due: bool = match self.panes.get(keys[i]) {
                Some(state) => match state.nudge {
                    Some(nudge) => nudge.due_at_ms <= now,
                    None => false,
                },
                None => false,
            };
            keep.push(due);
            i = i + 1;
        }
        let ids: Vec<u64> = pick_ids(&keys, &keep);
        proof {
            lemma_picked(keys@, keep@, ids@, self.panes@.dom(), self@.due_panes(now));
        }
        let mut v: Vec<(u64, MailNudge)> = Vec::new();
        let mut j: usize = 0;
        while j < ids.len()
            invariant
                j <= ids@.len(),
                v@.len() == j,
                lists_ids(ids@, self@.due_panes(now)),
                forall|k: int|
                    0 <= k < j ==> (#[trigger] v@[k]).0 == ids@[k] && self@.panes[ids@[k]].nudge
                        == Some(v@[k].1),
            decreases ids@.len() - j,
        {
            assert(ids@.contains(ids@[j as int]));
            assert(self@.due_panes(now).contains(ids@[j as int]));
            if let Some(state) = self.panes.get(ids[j]) {
                if let Some(nudge) = state.nudge {
                    v.push((ids[j], nudge));
                }
            }
            j = j + 1;
        }
        v
    }

    fn nudge_lit(&self, pane: u64, nudge: MailNudge) -> (r: bool)
        ensures
            r == self@.nudge_lit(pane, nudge),
    {
        match self.panes.get(pane) {
            Some(state) => match &state.mail {
                Some(mail) => mail.depth > 0 && mail.queue_rev == nudge.queue_rev && match mail.wake {
                    Some(MailWake::Armed) => true,
                    _ => false,
                },
                None => false,
            },
            None => false,
        }
    }

    /// Takes a due nudge off the list and tells whether it still has to ring.
    pub fn nudge_begin(&mut self, pane: u64, nudge: MailNudge) -> (ring: bool)
        requires
            old(self)@.wf(),
        ensures
            ring == old(self)@.nudge_lit(pane, nudge),
            final(self)@ == old(self)@.without_nudge(pane),
            final(self)@.wf(),
    {
        let ring: bool = self.nudge_lit(pane, nudge);
        self.drop_nudge(pane);
        ring
    }

    /// Plans the next ring after the result of this one.
    pub fn nudge_end(
        &mut self,
        pane: u64,
        nudge: MailNudge,
        result: &Result<ControlResponseData, ControlError>,
        now: u64,
    )
        requires
            old(self)@.wf(),
        ensures
            final(self)@ == old(self)@.nudge_end(pane, nudge, reply_view(*result), now),
            final(self)@.wf(),
    {
        if wants_retry(result, nudge.verification) && self.nudge_lit(pane, nudge) {
            let mut state: PaneState = self.take_pane(pane);
            state.nudge = Some(
                MailNudge {
                    queue_rev: nudge.queue_rev,
                    due_at_ms: now.saturating_add(MAIL_INJECT_NUDGE_DELAY_MS),
                    verification: nudge.verification,
                },
            );
            self.put_pane(pane, state);
        }
    }
}

} // verus!
