//! What the mail doorbell is for: an unread letter rings once its pane is ready for it,
//! and keeps waiting for that until it is read.
use vstd::prelude::*;

use crate::doorbell::{InjectPlan, InjectStepView, InjectWait, PaneFacts};
use crate::error::ErrorView;
use crate::event::EventView;
use crate::idmap::group_views;
use crate::laws::relations::{lemma_published_is_told, only_pane};
use crate::ledger::{output_total, recent_output};
use crate::model::group_seq_views;
use crate::plane::PlaneView;
use crate::response::DataView;
use crate::state::{group_pane_states, MailNudge};
use crate::wire::{InjectAgent, MailInjectOutcome, MailWake};

verus! {

broadcast use {group_views, group_seq_views, group_pane_states, lemma_published_is_told};

/// The letter of a revision still waits: it is unread and armed.
pub open spec fn waits(plane: PlaneView, pane: u64, queue_rev: u64) -> bool {
    &&& plane.panes[pane].mail matches Some(mail)
    &&& mail.depth > 0
    &&& mail.queue_rev == queue_rev
    &&& mail.wake == Some(MailWake::Armed)
}

/// A time later than another, or the end of time.
pub open spec fn later(now: u64, ms: int) -> u64 {
    if now + ms <= u64::MAX {
        (now + ms) as u64
    } else {
        u64::MAX
    }
}

/// A ring that failed or was put off is planned again, three seconds later, for as long as
/// its letter waits; a ring that was written or skipped is not. A ring that was put off
/// because the screen still shows the last one is planned again only to verify that one.
pub proof fn a_ring_that_was_put_off_is_planned_again(
    plane: PlaneView,
    pane: u64,
    nudge: MailNudge,
    reply: Result<DataView, ErrorView>,
    now: u64,
)
    ensures
        ({
            let after = plane.nudge_end(pane, nudge, reply, now);
            let again = MailNudge {
                queue_rev: nudge.queue_rev,
                due_at_ms: later(now, 3_000),
                verification: nudge.verification,
            };
            let put_off = match reply {
                Err(_) => true,
                Ok(DataView::MailInject { outcome, .. }) => match outcome {
                    MailInjectOutcome::DeferredFocused => true,
                    MailInjectOutcome::DeferredLease => true,
                    MailInjectOutcome::DeferredBusy => true,
                    MailInjectOutcome::DeferredDirty => true,
                    MailInjectOutcome::DeferredTyping => true,
                    MailInjectOutcome::DeferredNoAgent => true,
                    MailInjectOutcome::DeferredHide => nudge.verification,
                    MailInjectOutcome::Wrote => false,
                    MailInjectOutcome::Stuck => false,
                    MailInjectOutcome::SkippedNoMail => false,
                    MailInjectOutcome::SkippedExhausted => false,
                    MailInjectOutcome::SkippedStuck => false,
                },
                Ok(_) => false,
            };
            &&& put_off && waits(plane, pane, nudge.queue_rev) ==> after.panes[pane].nudge == Some(
                again,
            ) && only_pane(plane, after, pane) && after.ring == plane.ring
            &&& !put_off || !waits(plane, pane, nudge.queue_rev) ==> after == plane
            &&& after.panes[pane].mail == plane.panes[pane].mail
        }),
{
}

/// A nudge that is due is taken off, and rings exactly while its letter waits.
pub proof fn a_due_nudge_rings_while_its_letter_waits(plane: PlaneView, pane: u64, nudge: MailNudge)
    requires
        plane.wf(),
    ensures
        plane.nudge_lit(pane, nudge) <==> waits(plane, pane, nudge.queue_rev),
        plane.without_nudge(pane).panes[pane].nudge is None,
        plane.without_nudge(pane).panes[pane].mail == plane.panes[pane].mail,
        only_pane(plane, plane.without_nudge(pane), pane),
        forall|p: u64, now: u64| #[trigger]
            plane.due_panes(now).contains(p) <==> plane.panes[p].nudge is Some
                && plane.panes[p].nudge->0.due_at_ms <= now,
{
}

/// How long ago something was; a clock that went back counts as no time.
pub open spec fn ago(at: u64, now: u64) -> int {
    if now >= at {
        now - at
    } else {
        0
    }
}

/// A line that was begun and not sent stands in the pane: its last write did not end it,
/// and input or output was within the last minute.
pub open spec fn half_a_line(plane: PlaneView, pane: u64, now: u64) -> bool {
    &&& plane.panes[pane].written matches Some(w)
    &&& !w.1
    &&& ago(w.0, now) < 60_000 || (plane.panes[pane].output_at matches Some(out) && ago(out, now)
        < 60_000)
}

/// The gates are passed in their order, and the first that is closed answers: no unread
/// mail of this revision, no attempts left, a revision that got stuck, half a line, input
/// within ten seconds, busy output, a screen that still shows the last ring, a write that
/// was made already, no agent, somebody else's lease.
pub proof fn the_first_closed_gate_answers(
    plane: PlaneView,
    client: u64,
    pane: u64,
    queue_rev: u64,
    attempts: u32,
    verification: bool,
    facts: PaneFacts,
    now: u64,
)
    requires
        plane.wf(),
        pane != 0,
    ensures
        ({
            let (after, step) = plane.inject_begin(
                client,
                pane,
                queue_rev,
                attempts,
                verification,
                facts,
                now,
            );
            let state = plane.panes[pane];
            let unread = state.mail matches Some(m) && m.depth > 0 && m.queue_rev == queue_rev;
            let wake = state.mail->0.wake;
            let tried = state.inject matches Some(r) && r.queue_rev == queue_rev;
            let stuck = (tried && state.inject->0.stuck) || wake == Some(MailWake::Stuck);
            let typing = state.input_at matches Some(at) && ago(at, now) < 10_000;
            let busy = output_total(recent_output(state.output, now)) >= 8_192;
            let hidden = tried && now < state.inject->0.hide_until_ms && facts.revision == Some(
                state.inject->0.hide_revision,
            );
            let written = tried && state.inject->0.writes > 0 && !(verification
                && state.inject->0.writes == 1);
            let holder = plane.domain.panes[pane].controller;
            let foreign = plane.domain.panes.contains_key(pane) && holder is Some && holder != Some(
                client,
            );
            let outcome = if !unread {
                Some(MailInjectOutcome::SkippedNoMail)
            } else if attempts == 0 || wake == Some(MailWake::Exhausted) {
                Some(MailInjectOutcome::SkippedExhausted)
            } else if stuck {
                Some(MailInjectOutcome::SkippedStuck)
            } else if half_a_line(plane, pane, now) {
                Some(MailInjectOutcome::DeferredDirty)
            } else if typing {
                Some(MailInjectOutcome::DeferredTyping)
            } else if busy {
                Some(MailInjectOutcome::DeferredBusy)
            } else if hidden && !verification {
                Some(MailInjectOutcome::DeferredHide)
            } else if written {
                Some(MailInjectOutcome::SkippedExhausted)
            } else if facts.agent == InjectAgent::Unknown {
                Some(MailInjectOutcome::DeferredNoAgent)
            } else if foreign {
                Some(MailInjectOutcome::DeferredLease)
            } else {
                None
            };
            match outcome {
                Some(outcome) => {
                    &&& step matches InjectStepView::Done(
                        Ok(
                            DataView::MailInject {
                                pane_id,
                                queue_rev: rev,
                                outcome: said,
                                nbytes,
                                ledger,
                            },
                        ),
                    )
                    &&& pane_id == pane && rev == queue_rev && said == outcome && nbytes == 0
                    &&& after.panes[pane].inject_last matches Some(last)
                    &&& last.outcome == outcome && last.queue_rev == queue_rev && last.nbytes == 0
                        && last.at_ms == now && last.agent == facts.agent
                    &&& after.panes[pane].inject == state.inject
                    &&& after.panes[pane].mail == state.mail
                    &&& after.panes[pane].nudge == state.nudge
                    &&& after.panes[pane].written == state.written
                    &&& only_pane(plane, after, pane)
                    &&& after.ring == plane.ring
                },
                None => if plane.domain.panes.contains_key(pane) {
                    &&& step matches InjectStepView::Write(plan)
                    &&& plan.client == client && plan.pane == pane && plan.queue_rev == queue_rev
                        && plan.facts == facts
                    &&& plan.held <==> holder == Some(client)
                    &&& after.domain.panes[pane].controller == Some(client)
                    &&& after.ring == plane.ring
                } else {
                    step matches InjectStepView::Done(Err(_))
                },
            }
        }),
{
}

/// What counts as recent output: everything from the first chunk on that is not three
/// seconds old.
pub proof fn recent_output_is_what_follows_the_old(s: Seq<(u64, usize)>, now: u64)
    ensures
        recent_output(s, now).len() <= s.len(),
        ({
            let k = s.len() - recent_output(s, now).len();
            &&& recent_output(s, now) == s.skip(k)
            &&& forall|i: int| 0 <= i < k ==> ago((#[trigger] s[i]).0, now) >= 3_000
            &&& k < s.len() ==> ago(s[k].0, now) < 3_000
        }),
    decreases s.len(),
{
    if s.len() > 0 && ago(s[0].0, now) >= 3_000 {
        let rest = s.drop_first();
        recent_output_is_what_follows_the_old(rest, now);
        let k = rest.len() - recent_output(rest, now).len();
        assert(s.skip(k + 1) =~= rest.skip(k));
        assert forall|i: int| 0 <= i < k + 1 implies ago((#[trigger] s[i]).0, now) >= 3_000 by {
            if i > 0 {
                assert(rest[i - 1] == s[i]);
            }
        }
        if k < rest.len() {
            assert(rest[k] == s[k + 1]);
        }
    } else {
        assert(s.skip(0) =~= s);
    }
}

/// Output adds up: nothing is nothing, and every chunk counts with its bytes.
pub proof fn output_adds_up(s: Seq<(u64, usize)>, at: u64, nbytes: usize)
    ensures
        output_total(Seq::empty()) == 0,
        output_total(s.push((at, nbytes))) == output_total(s) + nbytes,
{
    assert(s.push((at, nbytes)).drop_last() =~= s);
}

/// A chunk of output is noted with its time and its size; an empty one is not.
pub proof fn output_is_noted(s: Seq<(u64, usize)>, nbytes: usize, now: u64)
    ensures
        nbytes == 0 ==> crate::ledger::noted_output(s, nbytes, now) == s,
        nbytes > 0 ==> {
            let after = crate::ledger::noted_output(s, nbytes, now);
            after.len() > 0 && after.last() == (now, nbytes)
        },
{
    if nbytes > 0 {
        let all = s.push((now, nbytes));
        recent_output_is_what_follows_the_old(all, now);
        let k = all.len() - recent_output(all, now).len();
        if k == all.len() {
            assert(ago(all[all.len() - 1].0, now) >= 3_000);
        }
    }
}

/// A write that was made is recorded with its revision: shown, it hides further rings for
/// a minute and, the first time, is verified eight seconds later; not shown, it is stuck.
/// The lease goes back unless the client had held it before.
pub proof fn a_write_is_recorded(
    plane: PlaneView,
    plan: InjectPlan,
    nbytes: usize,
    bumped: bool,
    facts: PaneFacts,
    now: u64,
)
    requires
        plane.wf(),
    ensures
        ({
            let (after, data) = plane.inject_finish(plan, nbytes, bumped, facts, now);
            let state = plane.panes[plan.pane];
            let now_there = after.panes[plan.pane];
            let before = match state.inject {
                Some(r) => r.writes,
                None => 0,
            };
            &&& now_there.inject matches Some(record)
            &&& record.queue_rev == plan.queue_rev
            &&& record.stuck == !bumped
            &&& record.writes == if before < u32::MAX {
                before + 1
            } else {
                before as int
            }
            &&& record.hide_revision == match facts.revision {
                Some(revision) => revision,
                None => 0,
            }
            &&& record.hide_until_ms == if bumped {
                later(now, 60_000)
            } else {
                0
            }
            &&& bumped && record.writes == 1 ==> now_there.nudge == Some(
                MailNudge {
                    queue_rev: plan.queue_rev,
                    due_at_ms: later(now, 8_000),
                    verification: true,
                },
            )
            &&& !(bumped && record.writes == 1) ==> now_there.nudge == state.nudge
            &&& now_there.mail == state.mail
            &&& now_there.inject_last matches Some(last)
            &&& last.outcome == if bumped {
                MailInjectOutcome::Wrote
            } else {
                MailInjectOutcome::Stuck
            }
            &&& last.nbytes == nbytes && last.agent == facts.agent && last.queue_rev
                == plan.queue_rev && last.at_ms == now
            &&& data matches DataView::MailInject {
                pane_id,
                queue_rev,
                outcome,
                nbytes: said,
                ledger,
            }
            &&& pane_id == plan.pane && queue_rev == plan.queue_rev && outcome == last.outcome
                && said == nbytes
        }),
        ({
            let after = plane.inject_finish(plan, nbytes, bumped, facts, now).0;
            let holder = plane.domain.panes[plan.pane].controller;
            &&& plane.domain.panes.contains_key(plan.pane) && !plan.held && holder == Some(
                plan.client,
            ) ==> after.domain.panes[plan.pane].controller is None
            &&& plan.held ==> after.domain == plane.domain
            &&& forall|p: u64| #[trigger]
                plane.domain.panes.contains_key(p) && p != plan.pane ==> after.domain.panes[p]
                    == plane.domain.panes[p]
            &&& forall|p: u64|
                p != plan.pane ==> #[trigger] after.panes[p] == plane.panes[p]
            &&& after.ring == plane.ring
        }),
{
}

/// A written ring has sent its line; one that could not be written gives its lease back.
pub proof fn a_ring_sends_its_line(plane: PlaneView, plan: InjectPlan, now: u64)
    requires
        plane.wf(),
    ensures
        plane.inject_written(plan, false, now).panes[plan.pane].written == Some((now, true)),
        only_pane(plane, plane.inject_written(plan, false, now), plan.pane),
        plane.inject_written(plan, true, now).panes == plane.panes,
        plan.held ==> plane.inject_written(plan, true, now) == plane,
        !plan.held && plane.domain.panes.contains_key(plan.pane)
            && plane.domain.panes[plan.pane].controller == Some(plan.client)
            ==> plane.inject_written(plan, true, now).domain.panes[plan.pane].controller is None,
{
}

/// The screen is watched for a quarter of a second, with pauses that double up to ten
/// milliseconds and never run past the end.
pub proof fn the_screen_is_watched_in_growing_pauses(
    before: Option<u64>,
    current: Option<u64>,
    elapsed: u64,
    pause: u64,
    r: InjectWait,
)
    requires
        call_ensures(
            crate::doorbell::inject_wait,
            (before, current, elapsed, pause),
            r,
        ),
    ensures
        elapsed >= 250 <==> r == InjectWait::TimedOut,
        elapsed < 250 && current != before ==> r == InjectWait::Bumped,
        elapsed < 250 && current == before ==> (r matches InjectWait::Pause { sleep_ms, next_ms }
            && elapsed + sleep_ms <= 250 && (sleep_ms == pause || elapsed + sleep_ms == 250)
            && next_ms <= 10 && (next_ms == 2 * pause || next_ms == 10)),
{
}

/// A letter that was stored arms the indicator of the recipient's pane with its depth and
/// the next revision, and is due to ring again in three seconds.
pub proof fn a_stored_letter_arms_its_pane(
    plane: PlaneView,
    recipient: Seq<char>,
    depth: u32,
    now: u64,
)
    requires
        plane.wf(),
        plane.ring.sequence < u64::MAX,
    ensures
        plane.domain.doorbell_pane(recipient) is None ==> plane.mail_stored(recipient, depth, now)
            == (plane, None::<(u64, u64)>),
        plane.domain.doorbell_pane(recipient) matches Some(pane) ==> {
            let (after, ring) = plane.mail_stored(recipient, depth, now);
            let rev = match plane.panes[pane].mail_rev {
                Some(rev) => later(rev, 1),
                None => 1,
            };
            plane.panes[pane].mail_rev != Some(u64::MAX) ==> {
                &&& ring == Some((pane, rev))
                &&& after.panes[pane].mail_rev == Some(rev)
                &&& after.panes[pane].mail matches Some(mail)
                &&& mail.depth == depth && mail.queue_rev == rev && mail.wake == Some(
                    MailWake::Armed,
                ) && mail.pane_id == pane
                &&& after.panes[pane].nudge == Some(
                    MailNudge {
                        queue_rev: rev,
                        due_at_ms: later(now, 3_000),
                        verification: false,
                    },
                )
                &&& only_pane(plane, after, pane)
                &&& after.ring.events.last().event == (EventView::MailAttentionChanged {
                    pane_id: pane,
                    cell: Some(mail.cell),
                    gen: Some(mail.gen),
                    queue_rev: Some(rev),
                    depth,
                    wake: Some(MailWake::Armed),
                })
            }
        },
{
    lemma_mail_cell();
}

proof fn lemma_mail_cell()
    ensures
        crate::attention::mail_cell_fault(crate::wire::MAIL_ATTENTION_CELL@) is None,
{
    reveal_strlit("mail");
    let cell = "mail"@;
    assert(cell.len() == 4 && cell[0] == 'm' && cell[1] == 'a' && cell[2] == 'i' && cell[3] == 'l');
    assert(crate::text::trimmed(cell) == cell);
    vstd::utf8::is_ascii_chars_encode_utf8(cell);
    assert(!cell.contains('\0'));
}

/// The pane that rings for an agent is the first pane of the first window of the session
/// that is bound to it; an agent without such a pane does not ring.
pub proof fn an_agent_rings_in_its_first_pane(plane: PlaneView, agent: Seq<char>, session: u64)
    requires
        plane.wf(),
        plane.domain.names_apart(),
        plane.domain.sessions.contains_key(session),
        plane.domain.sessions[session].agent_id == Some(agent),
    ensures
        plane.domain.sessions[session].windows.len() == 0 ==> plane.domain.doorbell_pane(agent)
            is None,
        plane.domain.sessions[session].windows.len() > 0 ==> plane.domain.doorbell_pane(agent)
            == Some(
            plane.domain.windows[plane.domain.sessions[session].windows[0]].layout.leaves()[0],
        ),
{
    assert forall|t: u64| #[trigger] plane.domain.sessions.contains_key(t) && t
        < session implies plane.domain.sessions[t].agent_id != Some(agent) by {}
    assert(plane.domain.is_agent_session(agent, session));
    let c = choose|s: u64| plane.domain.is_agent_session(agent, s);
    assert(plane.domain.sessions.contains_key(c));
    assert(c == session);
}

/// An agent that no session is bound to rings nowhere.
pub proof fn an_unbound_agent_rings_nowhere(plane: PlaneView, agent: Seq<char>)
    requires
        forall|s: u64| #[trigger]
            plane.domain.sessions.contains_key(s) ==> plane.domain.sessions[s].agent_id != Some(
                agent,
            ),
    ensures
        plane.domain.doorbell_pane(agent) is None,
{
    assert forall|s: u64| !plane.domain.is_agent_session(agent, s) by {}
}

/// Mail that was read or put back shows what is open: the indicator goes out at nothing,
/// and otherwise shows the depth without ringing.
pub proof fn read_mail_shows_what_is_open(
    plane: PlaneView,
    agent: Seq<char>,
    open: Option<u32>,
    now: u64,
)
    requires
        plane.wf(),
        plane.ring.sequence < u64::MAX,
    ensures
        plane.domain.doorbell_pane(agent) is None ==> plane.refresh_mail(agent, open, now) == plane,
        plane.domain.doorbell_pane(agent) matches Some(pane) ==> {
            let after = plane.refresh_mail(agent, open, now);
            &&& after.panes[pane].nudge is None
            &&& only_pane(plane, after, pane)
            &&& open is None ==> after.panes[pane].mail == plane.panes[pane].mail
            &&& plane.panes[pane].mail_rev != Some(u64::MAX) ==> {
                &&& open == Some(0u32) ==> after.panes[pane].mail is None
                &&& open matches Some(depth) ==> (depth > 0 ==> {
                    &&& after.panes[pane].mail matches Some(mail)
                    &&& mail.depth == depth
                    &&& mail.wake is None
                })
            }
        },
{
    lemma_mail_cell();
}

} // verus!
