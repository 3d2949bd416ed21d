//! What calls for attention are for: those of the mail, and those that somebody raises.
use vstd::prelude::*;

use crate::error::ControlErrorCode;
use crate::event::EventView;
use crate::idmap::{group_views, sorted_ids};
use crate::laws::holding::lemma_listed;
use crate::laws::layout::{acknowledges, refuses};
use crate::laws::moving::home;
use crate::laws::relations::{lemma_published_is_told, only_pane, tells};
use crate::laws::ringing::later;
use crate::model::group_seq_views;
use crate::plane::PlaneView;
use crate::response::DataView;
use crate::state::{group_pane_states, AskView, EffectView, MailNudge};
use crate::step::StepView;
use crate::text::{any_control, byte_count, hex_value, is_hex_char, trimmed};
use crate::wire::{AttentionAction, AttentionRequestView, MailAttentionView, MailWake};

verus! {

broadcast use {group_views, group_seq_views, group_pane_states, lemma_published_is_told};

/// A pane keeps everything but its mail indicator and the ring that is planned for it.
pub open spec fn same_but_mail(before: PlaneView, after: PlaneView, pane: u64) -> bool {
    let was = before.panes[pane];
    let is = after.panes[pane];
    &&& is.spawn == was.spawn
    &&& is.attention == was.attention
    &&& is.team == was.team
    &&& is.status == was.status
    &&& is.written == was.written
    &&& is.input_at == was.input_at
    &&& is.output_at == was.output_at
    &&& is.output == was.output
    &&& is.receipt == was.receipt
    &&& is.inject == was.inject
    &&& is.inject_last == was.inject_last
}

/// A revision of the mail is news to a pane: it is later than the last one applied.
pub open spec fn news(plane: PlaneView, pane: u64, queue_rev: u64) -> bool {
    plane.panes[pane].mail_rev matches Some(last) ==> queue_rev > last
}

/// Mail that is news lights the indicator of its pane, as it was reported; an armed one is
/// rung three seconds later. Old mail changes nothing.
pub proof fn mail_lights_its_pane(
    plane: PlaneView,
    client: u64,
    pane: u64,
    mail: MailAttentionView,
    now: u64,
)
    requires
        plane.wf(),
        plane.ring.sequence < u64::MAX,
        mail.depth > 0,
    ensures
        ({
            let (after, result) = plane.set_mail_attention(client, pane, mail, now);
            let cell = trimmed(mail.cell);
            let open = plane.clients.contains_key(client) && plane.domain.panes.contains_key(pane)
                && cell.len() > 0 && byte_count(cell) <= 128 && !cell.contains('\0');
            &&& result is Ok <==> open
            &&& !(open && news(plane, pane, mail.queue_rev)) ==> after == plane
            &&& open && news(plane, pane, mail.queue_rev) ==> {
                let is = after.panes[pane];
                &&& is.mail matches Some(lit)
                &&& lit.pane_id == pane
                &&& lit.cell == cell
                &&& lit.gen == mail.gen
                &&& lit.queue_rev == mail.queue_rev
                &&& lit.depth == mail.depth
                &&& lit.wake == mail.wake
                &&& lit.bound_pid == mail.bound_pid
                &&& is.mail_rev == Some(mail.queue_rev)
                &&& mail.wake == Some(MailWake::Armed) ==> is.nudge == Some(
                    MailNudge {
                        queue_rev: mail.queue_rev,
                        due_at_ms: later(now, 3_000),
                        verification: false,
                    },
                )
                &&& mail.wake != Some(MailWake::Armed) ==> is.nudge is None
            }
        }),
        ({
            let (after, result) = plane.set_mail_attention(client, pane, mail, now);
            result is Ok && news(plane, pane, mail.queue_rev) ==> {
                &&& same_but_mail(plane, after, pane)
                &&& only_pane(plane, after, pane)
                &&& after.effects =~= if plane.live {
                    plane.effects.push(EffectView::LogMailDepth { pane, depth: mail.depth })
                } else {
                    plane.effects
                }
                &&& tells(
                    plane.ring,
                    after.ring,
                    EventView::MailAttentionChanged {
                        pane_id: pane,
                        cell: Some(trimmed(mail.cell)),
                        gen: Some(mail.gen),
                        queue_rev: Some(mail.queue_rev),
                        depth: mail.depth,
                        wake: mail.wake,
                    },
                )
            }
        }),
        ({
            let (after, result) = plane.set_mail_attention(client, pane, mail, now);
            result matches Ok(reply) ==> {
                &&& reply matches DataView::MailAttention { pane_id, attention, ledger }
                &&& pane_id == pane
                &&& attention == after.panes[pane].mail
            }
        }),
{
}

/// An inbox that was read takes the indicator of its pane down, and with it the ring that
/// was planned, unless later mail came in between. Mail of depth zero does the same.
pub proof fn read_mail_lights_nothing(
    plane: PlaneView,
    client: u64,
    pane: u64,
    queue_rev: u64,
    now: u64,
)
    requires
        plane.wf(),
        plane.ring.sequence < u64::MAX,
    ensures
        ({
            let (after, result) = plane.clear_mail_attention(client, pane, queue_rev, now);
            let open = plane.clients.contains_key(client) && plane.domain.panes.contains_key(pane);
            &&& result is Ok <==> open
            &&& !(open && news(plane, pane, queue_rev)) ==> after == plane
            &&& open && news(plane, pane, queue_rev) ==> {
                &&& after.panes[pane].mail is None
                &&& after.panes[pane].nudge is None
                &&& after.panes[pane].mail_rev == Some(queue_rev)
                &&& same_but_mail(plane, after, pane)
                &&& only_pane(plane, after, pane)
            }
            &&& open && news(plane, pane, queue_rev) && plane.panes[pane].mail is None ==> after.ring
                == plane.ring && after.effects == plane.effects
            &&& open && news(plane, pane, queue_rev) && plane.panes[pane].mail is Some ==> {
                &&& after.effects =~= if plane.live {
                    plane.effects.push(EffectView::LogMailDepth { pane, depth: 0 })
                } else {
                    plane.effects
                }
                &&& tells(
                    plane.ring,
                    after.ring,
                    EventView::MailAttentionChanged {
                        pane_id: pane,
                        cell: None,
                        gen: None,
                        queue_rev: Some(queue_rev),
                        depth: 0,
                        wake: None,
                    },
                )
            }
        }),
        forall|mail: MailAttentionView|
            mail.depth == 0 && mail.queue_rev == queue_rev ==> #[trigger] plane.set_mail_attention(
                client,
                pane,
                mail,
                now,
            ) == plane.clear_mail_attention(client, pane, queue_rev, now),
{
}

/// A drained inbox takes the indicator of its pane down, whatever its revision.
pub proof fn a_drained_inbox_lights_nothing(plane: PlaneView, pane: u64)
    requires
        plane.wf(),
        plane.ring.sequence < u64::MAX,
        plane.domain.panes.contains_key(pane),
        plane.panes[pane].mail matches Some(mail) && mail.queue_rev < u64::MAX && (
        plane.panes[pane].mail_rev matches Some(last) ==> last <= mail.queue_rev),
    ensures
        ({
            let after = plane.after_hive_drain(pane);
            let rev = (plane.panes[pane].mail->0.queue_rev + 1) as u64;
            &&& after.panes[pane].mail is None
            &&& after.panes[pane].nudge is None
            &&& after.panes[pane].mail_rev == Some(rev)
            &&& same_but_mail(plane, after, pane)
            &&& only_pane(plane, after, pane)
            &&& tells(
                plane.ring,
                after.ring,
                EventView::MailAttentionChanged {
                    pane_id: pane,
                    cell: None,
                    gen: None,
                    queue_rev: Some(rev),
                    depth: 0,
                    wake: None,
                },
            )
        }),
{
}

/// An open pane keeps everything but the call for attention.
pub open spec fn same_but_attention(before: PlaneView, after: PlaneView, pane: u64) -> bool {
    let was = before.panes[pane];
    let is = after.panes[pane];
    &&& is.spawn == was.spawn
    &&& is.mail == was.mail
    &&& is.status == was.status
    &&& is.mail_rev == was.mail_rev
    &&& is.nudge == was.nudge
    &&& is.written == was.written
    &&& is.input_at == was.input_at
    &&& is.output_at == was.output_at
    &&& is.output == was.output
    &&& is.receipt == was.receipt
    &&& is.inject == was.inject
    &&& is.inject_last == was.inject_last
}

/// Whoever raises attention has a request open at that pane, with this message, raised now
/// and not put off, under the number that the host drew for it. To raise it again changes
/// nothing.
pub proof fn raised_attention_is_open(
    plane: PlaneView,
    client: u64,
    pane: u64,
    message: Seq<char>,
    token: Seq<char>,
    now: u64,
)
    requires
        plane.wf(),
        plane.ring.sequence < u64::MAX,
    ensures
        ({
            let (after, step) = plane.raise_step(client, pane, message, Some(Ok(token)), now);
            let open = plane.clients.contains_key(client) && plane.domain.panes.contains_key(pane)
                && byte_count(message) <= 512 && !any_control(message);
            let again = plane.panes[pane].team matches Some(request) && request.message == message;
            &&& !open ==> after == plane && refuses(step)
            &&& open && again ==> after == plane && acknowledges(after, step)
            &&& refuses(step) ==> after == plane
            &&& open && !again && !refuses(step) ==> {
                &&& acknowledges(after, step)
                &&& after.panes[pane].attention == Some(message)
                &&& after.panes[pane].team matches Some(request)
                &&& request.pane_id == pane
                &&& request.message == message
                &&& request.raised_at_ms == now
                &&& request.source == "explicit attention request"@
                &&& request.snoozed_until_ms == 0
                &&& token.len() >= 13 ==> request.revision == hex_value(token.take(13))
                &&& same_but_attention(plane, after, pane)
                &&& only_pane(plane, after, pane)
                &&& after.effects == plane.effects
                &&& tells(
                    plane.ring,
                    after.ring,
                    EventView::PaneAttention { pane_id: pane, message },
                )
            }
        }),
        ({
            let (after, step) = plane.raise_step(client, pane, message, None, now);
            &&& after == plane
            &&& step is Wait ==> step == StepView::Wait(AskView::Token)
            &&& plane.clients.contains_key(client) && plane.domain.panes.contains_key(pane)
                && byte_count(message) <= 512 && !any_control(message) && plane.panes[pane].team
                is None ==> step is Wait
        }),
{
    if token.len() >= 13 && forall|i: int| 0 <= i < 13 ==> is_hex_char(#[trigger] token[i]) {
        let digits = token.take(13);
        assert forall|i: int| 0 <= i < digits.len() implies is_hex_char(#[trigger] digits[i]) by {
            assert(digits[i] == token[i]);
        }
        lemma_hex_bound(digits);
        reveal_with_fuel(sixteens, 14);
    }
}

/// How many numbers have that many hexadecimal digits.
spec fn sixteens(n: nat) -> nat
    decreases n,
{
    if n == 0 {
        1
    } else {
        16 * sixteens((n - 1) as nat)
    }
}

proof fn lemma_hex_bound(s: Seq<char>)
    requires
        forall|i: int| 0 <= i < s.len() ==> is_hex_char(#[trigger] s[i]),
    ensures
        hex_value(s) < sixteens(s.len()),
    decreases s.len(),
{
    if s.len() > 0 {
        let head = s.drop_last();
        assert forall|i: int| 0 <= i < head.len() implies is_hex_char(#[trigger] head[i]) by {
            assert(head[i] == s[i]);
        }
        lemma_hex_bound(head);
        assert(is_hex_char(s[s.len() - 1]));
    }
}

/// The open requests are listed by pane, each once: exactly those of the panes that exist.
/// Requests of panes that are gone are dropped.
pub proof fn open_requests_are_listed(plane: PlaneView, client: u64)
    requires
        plane.wf(),
        plane.clients.contains_key(client),
    ensures
        ({
            let (after, result) = plane.list_attention(client);
            &&& after == (PlaneView { panes: after.panes, ..plane })
            &&& forall|p: u64|
                #![trigger after.panes[p]]
                {
                    &&& after.panes[p].team == if plane.domain.panes.contains_key(p) {
                        plane.panes[p].team
                    } else {
                        None
                    }
                    &&& after.panes[p].attention == plane.panes[p].attention
                    &&& same_but_attention(plane, after, p)
                }
        }),
        ({
            let (after, result) = plane.list_attention(client);
            &&& result matches Ok(DataView::AttentionRequests { requests })
            &&& lists_requests(after, requests)
        }),
{
    lemma_requests_listed(plane.prune_requests());
}

/// A list names the open requests, by pane.
pub open spec fn lists_requests(plane: PlaneView, requests: Seq<AttentionRequestView>) -> bool {
    exists|ids: Seq<u64>|
        {
            &&& #[trigger] ids.len() == requests.len()
            &&& forall|p: u64| #[trigger] ids.contains(p) <==> plane.panes[p].team is Some
            &&& forall|i: int, j: int|
                0 <= i < j < ids.len() ==> #[trigger] ids[i] < #[trigger] ids[j]
            &&& forall|i: int|
                0 <= i < ids.len() ==> Some(#[trigger] requests[i]) == plane.panes[ids[i]].team
        }
}

proof fn lemma_requests_listed(plane: PlaneView)
    ensures
        lists_requests(plane, plane.attention_list()),
{
    let d = plane.asking_panes();
    let ids = sorted_ids(d);
    lemma_listed(d);
    let requests = plane.attention_list();
    assert(ids.len() == requests.len());
    assert forall|p: u64| #[trigger] ids.contains(p) <==> plane.panes[p].team is Some by {
        assert(d.contains(p) <==> plane.panes[p].team is Some);
    }
    assert forall|i: int| 0 <= i < ids.len() implies Some(#[trigger] requests[i])
        == plane.panes[ids[i]].team by {
        assert(ids.contains(ids[i]));
    }
}

/// A request is resolved or put off by whoever knows where its pane stands and which
/// request it is. A resolved one is gone, and the hint with it where it is still the one
/// that was raised; one put off stays, quiet for that many seconds.
pub proof fn attention_is_resolved_or_put_off(
    plane: PlaneView,
    client: u64,
    pane: u64,
    revision: u64,
    space: Seq<char>,
    session: u64,
    action: AttentionAction,
    now: u64,
)
    requires
        plane.wf(),
        plane.ring.sequence < u64::MAX,
    ensures
        ({
            let (after, result) = plane.update_team_attention(
                client,
                pane,
                revision,
                space,
                session,
                action,
                now,
            );
            let placed = plane.domain.panes.contains_key(pane) && home(plane, pane) == session
                && plane.domain.sessions[session].space_id == Some(space);
            let current = plane.panes[pane].team matches Some(request) && request.revision
                == revision;
            let short = action matches AttentionAction::Snooze { seconds } ==> 1 <= seconds
                && seconds <= 86_400;
            let known = plane.clients.contains_key(client);
            &&& result is Ok <==> known && placed && current && short
            &&& result is Err ==> after == plane
            &&& known && !placed ==> result->Err_0.code == ControlErrorCode::StaleId
            &&& known && placed && !current ==> result->Err_0.code
                == ControlErrorCode::StaleRequestId
            &&& known && placed && current && !short ==> result->Err_0.code
                == ControlErrorCode::InvalidRequest
            &&& result is Ok ==> {
                &&& same_but_attention(plane, after, pane)
                &&& only_pane(plane, after, pane)
                &&& after.effects == plane.effects
            }
        }),
        ({
            let (after, result) = plane.update_team_attention(
                client,
                pane,
                revision,
                space,
                session,
                action,
                now,
            );
            let was = plane.panes[pane];
            let is = after.panes[pane];
            &&& result is Ok && action is Resolve ==> {
                &&& is.team is None
                &&& was.attention == Some(was.team->0.message) ==> is.attention is None && tells(
                    plane.ring,
                    after.ring,
                    EventView::PaneAttentionCleared { pane_id: pane },
                )
                &&& was.attention != Some(was.team->0.message) ==> is.attention == was.attention
                    && after.ring == plane.ring
            }
            &&& result is Ok && action is Snooze ==> {
                &&& is.attention == was.attention
                &&& after.ring == plane.ring
                &&& is.team is Some
                &&& is.team->0.snoozed_until_ms == later(
                    now,
                    action->Snooze_seconds * 1_000,
                )
                &&& is.team->0.pane_id == was.team->0.pane_id
                &&& is.team->0.revision == was.team->0.revision
                &&& is.team->0.message == was.team->0.message
                &&& is.team->0.source == was.team->0.source
                &&& is.team->0.raised_at_ms == was.team->0.raised_at_ms
            }
        }),
        plane.update_team_attention(client, pane, revision, space, session, action, now).1 matches
            Ok(reply) ==> {
            &&& reply matches DataView::AttentionRequests { requests }
            &&& lists_requests(
                plane.update_team_attention(
                    client,
                    pane,
                    revision,
                    space,
                    session,
                    action,
                    now,
                ).0,
                requests,
            )
        },
{
    lemma_requests_listed(plane.update_attention(pane, action, now));
}

/// A pane that is gone is forgotten: nobody shows it, and of its record only an open
/// request for attention is left. Where its indicator was lit or it had a status, it is
/// told that they are gone.
pub proof fn a_lost_pane_is_forgotten(plane: PlaneView, pane: u64)
    requires
        plane.wf(),
        plane.ring.sequence + 2 <= u64::MAX,
    ensures
        ({
            let after = plane.forget_pane(pane);
            let is = after.panes[pane];
            &&& is.team == plane.panes[pane].team
            &&& is.spawn is None
            &&& is.mail is None
            &&& is.attention is None
            &&& is.status is None
            &&& is.mail_rev is None
            &&& is.written is None
            &&& is.input_at is None
            &&& is.output_at is None
            &&& is.output.len() == 0
            &&& is.receipt is None
            &&& is.inject is None
            &&& is.inject_last is None
            &&& is.nudge is None
            &&& after.domain == plane.domain
            &&& after.frames == plane.frames
            &&& forall|p: u64| p != pane ==> #[trigger] after.panes[p] == plane.panes[p]
            &&& forall|c: u64|
                #![trigger after.clients.contains_key(c)]
                {
                    &&& after.clients.contains_key(c) <==> plane.clients.contains_key(c)
                    &&& plane.clients.contains_key(c) ==> {
                        &&& after.clients[c].focus == if plane.clients[c].focus == Some(pane) {
                            None
                        } else {
                            plane.clients[c].focus
                        }
                        &&& after.clients[c].view == plane.clients[c].view
                        &&& after.clients[c].window_view == plane.clients[c].window_view
                        &&& after.clients[c].viewports == plane.clients[c].viewports
                    }
                }
        }),
        ({
            let after = plane.forget_pane(pane);
            let was = plane.panes[pane];
            &&& was.status is Some ==> after.ring.events.len() > 0 && after.ring.events.last().event
                == (EventView::PaneStatusChanged { pane_id: pane, status: None })
            &&& was.mail is Some && was.status is None ==> after.ring.events.len() > 0
                && after.ring.events.last().event == (EventView::MailAttentionChanged {
                pane_id: pane,
                cell: None,
                gen: None,
                queue_rev: None,
                depth: 0,
                wake: None,
            })
            &&& was.mail is None && was.status is None ==> after.ring == plane.ring
            &&& was.mail is Some && plane.live ==> after.effects =~= plane.effects.push(
                EffectView::LogMailDepth { pane, depth: 0 },
            )
            &&& was.mail is None ==> after.effects == plane.effects
        }),
{
}

} // verus!
