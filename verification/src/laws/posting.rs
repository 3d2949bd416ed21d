//! What the letters of agents are for: who sends, who gets them, and under which names.
use vstd::prelude::*;

use crate::error::ControlErrorCode;
use crate::idmap::{group_views, sorted_ids};
use crate::laws::holding::lemma_listed;
use crate::laws::layout::refuses;
use crate::laws::relations::only_client;
use crate::mailbox::{AddressView, StoreFaultView};
use crate::model::group_seq_views;
use crate::order::text_less;
use crate::plane::PlaneView;
use crate::response::DataView;
use crate::state::{group_pane_states, AskView};
use crate::step::StepView;

verus! {

broadcast use {group_views, group_seq_views, group_pane_states};

/// A client speaks for the agent that it said it is.
pub open spec fn speaks(plane: PlaneView, client: u64) -> bool {
    plane.clients.contains_key(client) && plane.clients[client].agent is Some
}

/// A client is seated as the agent that its name resolves to, and as nobody else.
pub proof fn a_hello_seats_the_agent(
    plane: PlaneView,
    client: u64,
    agent: Seq<char>,
    name: Seq<char>,
    resolved: Seq<char>,
)
    requires
        plane.wf(),
    ensures
        ({
            let (after, step) = plane.mail_hello(
                client,
                agent,
                Some(AddressView::Found { name, resolved }),
            );
            &&& !plane.clients.contains_key(client) ==> after == plane && refuses(step)
            &&& plane.clients.contains_key(client) ==> {
                &&& step == StepView::Reply(Ok(DataView::MailSeated { agent: resolved }))
                &&& after.clients[client].agent == Some(resolved)
                &&& after.clients[client].space == plane.clients[client].space
                &&& after.clients[client].viewer == plane.clients[client].viewer
                &&& after.clients[client].view == plane.clients[client].view
                &&& after.clients[client].window_view == plane.clients[client].window_view
                &&& after.clients[client].focus == plane.clients[client].focus
                &&& after.clients[client].viewports == plane.clients[client].viewports
                &&& after.clients[client].host == plane.clients[client].host
                &&& only_client(plane, after, client)
                &&& after.ring == plane.ring
                &&& after.effects == plane.effects
                &&& speaks(after, client)
            }
        }),
        plane.clients.contains_key(client) ==> plane.mail_hello(client, agent, None) == (
            plane,
            StepView::Wait(AskView::Seat { name: agent }),
        ),
        ({
            let (after, step) = plane.mail_hello(
                client,
                agent,
                Some(AddressView::Invalid { error: name }),
            );
            after == plane && refuses(step)
        }),
{
}

/// Letters are sent, claimed, committed, released and counted for the agent that a client
/// speaks for, as it is called now; who speaks for nobody is refused.
pub proof fn mail_is_handled_for_the_agent(
    plane: PlaneView,
    client: u64,
    sender: Seq<char>,
    ids: Seq<Seq<char>>,
)
    ensures
        ({
            let asked = StepView::Wait(AskView::Resolve { name: plane.clients[client].agent->0 });
            &&& speaks(plane, client) ==> {
                &&& plane.mail_claim(client, None) == asked
                &&& plane.mail_commit(client, ids, None) == asked
                &&& plane.mail_release(client, ids, None) == asked
                &&& plane.mail_inbox(client, None) == asked
                &&& plane.mail_claim(client, Some(Ok(sender))) == StepView::Wait(
                    AskView::StoreClaim { agent: sender },
                )
                &&& plane.mail_commit(client, ids, Some(Ok(sender))) == StepView::Wait(
                    AskView::StoreCommit { agent: sender, ids },
                )
                &&& plane.mail_release(client, ids, Some(Ok(sender))) == StepView::Wait(
                    AskView::StoreRelease { agent: sender, ids },
                )
                &&& plane.mail_inbox(client, Some(Ok(sender))) == StepView::Wait(
                    AskView::StoreDepth { agent: sender },
                )
            }
            &&& !speaks(plane, client) ==> {
                &&& refuses(plane.mail_claim(client, Some(Ok(sender))))
                &&& refuses(plane.mail_commit(client, ids, Some(Ok(sender))))
                &&& refuses(plane.mail_release(client, ids, Some(Ok(sender))))
                &&& refuses(plane.mail_inbox(client, Some(Ok(sender))))
            }
        }),
{
}

/// A letter goes to whom its address stands for, an alias to its agent; what is stored is
/// what was sent, by whom it was sent, and once it is stored its recipient is rung.
pub proof fn a_letter_goes_to_its_address(
    plane: PlaneView,
    client: u64,
    to: Seq<char>,
    summary: Seq<char>,
    body: Seq<char>,
    sender: Seq<char>,
    name: Seq<char>,
    resolved: Seq<char>,
    id: Seq<char>,
    depth: u32,
)
    ensures
        ({
            let from = Some(Ok::<Seq<char>, Seq<char>>(sender));
            let address = Some(AddressView::Found { name, resolved });
            &&& !speaks(plane, client) ==> refuses(
                plane.mail_send(client, to, summary, body, from, address, None),
            )
            &&& speaks(plane, client) ==> {
                &&& plane.mail_send(client, to, summary, body, None, None, None) == StepView::Wait(
                    AskView::Resolve { name: plane.clients[client].agent->0 },
                )
                &&& plane.mail_send(client, to, summary, body, from, None, None) == StepView::Wait(
                    AskView::Recipient {
                        name: if plane.aliases.contains_key(to) {
                            plane.aliases[to]
                        } else {
                            to
                        },
                    },
                )
                &&& plane.mail_send(client, to, summary, body, from, address, None)
                    == StepView::Wait(
                    AskView::StoreSend { from: sender, to: resolved, summary, body },
                )
                &&& plane.mail_send(
                    client,
                    to,
                    summary,
                    body,
                    from,
                    address,
                    Some(Ok((id, depth))),
                ) matches StepView::Bells { rings, reply }
                &&& reply == (DataView::MailSent { id, depth })
                &&& rings.len() == 1
                &&& rings[0].agent == resolved
                &&& rings[0].depth == depth
            }
        }),
{
}

/// An alias leads to the agent that took it. The names of agents, the addresses that are
/// kept for somebody else, and the aliases of others cannot be taken.
pub proof fn an_alias_leads_to_its_agent(
    plane: PlaneView,
    client: u64,
    asked: Seq<char>,
    sender: Seq<char>,
    name: Seq<char>,
    resolved: Seq<char>,
)
    requires
        plane.wf(),
    ensures
        ({
            let from = Some(Ok::<Seq<char>, Seq<char>>(sender));
            let (after, step) = plane.mail_alias(
                client,
                asked,
                from,
                Some(AddressView::Found { name, resolved }),
            );
            let bound = exists|s: u64| #[trigger]
                plane.domain.sessions.contains_key(s) && plane.domain.sessions[s].agent_id == Some(
                    name,
                );
            let open = speaks(plane, client) && !bound && (resolved == name || resolved == sender)
                && (plane.aliases.contains_key(name) ==> plane.aliases[name] == sender);
            &&& open ==> {
                &&& after == (PlaneView { aliases: after.aliases, ..plane })
                &&& after.aliases =~= plane.aliases.insert(name, sender)
                &&& step == StepView::Reply(Ok(DataView::MailAliased { name, agent: sender }))
                &&& plane.mail_alias(client, asked, from, None) == (
                    plane,
                    StepView::Wait(AskView::Seat { name: asked }),
                )
            }
            &&& !open ==> after == plane
            &&& !open ==> !(step matches StepView::Reply(Ok(DataView::MailAliased { .. })))
        }),
{
    if exists|s: u64| #[trigger]
        plane.domain.sessions.contains_key(s) && plane.domain.sessions[s].agent_id == Some(name) {
        let s = choose|s: u64| #[trigger]
            plane.domain.sessions.contains_key(s) && plane.domain.sessions[s].agent_id == Some(
                name,
            );
        assert(s != 0);
    }
}

/// A broadcast goes to every agent but its sender, and each of them is rung.
pub proof fn a_broadcast_reaches_everyone_else(
    plane: PlaneView,
    client: u64,
    summary: Seq<char>,
    body: Seq<char>,
    sender: Seq<char>,
    delivered: u32,
    depths: Seq<u32>,
)
    requires
        plane.wf(),
        speaks(plane, client),
    ensures
        ({
            let from = Some(Ok::<Seq<char>, Seq<char>>(sender));
            &&& plane.mail_broadcast(client, summary, body, from, None) matches StepView::Wait(
                AskView::StoreBroadcast { from: f, recipients, summary: s, body: b },
            )
            &&& f == sender
            &&& s == summary
            &&& b == body
            &&& forall|x: Seq<char>| #[trigger]
                recipients.contains(x) <==> x != sender && is_bound(plane, x)
            &&& plane.mail_broadcast(client, summary, body, from, Some(Ok((delivered, depths))))
                matches StepView::Bells { rings, reply }
            &&& reply == (DataView::MailBroadcasted { delivered, recipients })
            &&& rings.len() == recipients.len()
            &&& forall|i: int|
                0 <= i < rings.len() ==> (#[trigger] rings[i]).agent == recipients[i]
                    && rings[i].depth == if i < depths.len() {
                    depths[i]
                } else {
                    0
                }
        }),
{
    let ids = sorted_ids(plane.bound_sessions());
    lemma_listed(plane.bound_sessions());
    let agents = plane.bound_agents();
    let recipients = plane.broadcast_to(sender);
    broadcast use lemma_filtered;

    assert forall|x: Seq<char>| #[trigger] recipients.contains(x) <==> x != sender && is_bound(
        plane,
        x,
    ) by {
        if agents.contains(x) {
            let i = choose|i: int| 0 <= i < agents.len() && agents[i] == x;
            assert(ids.contains(ids[i]));
            assert(plane.bound_sessions().contains(ids[i]));
            assert(plane.domain.sessions.contains_key(ids[i]));
        }
        if is_bound(plane, x) {
            let id = choose|id: u64| #[trigger]
                plane.domain.sessions.contains_key(id) && plane.domain.sessions[id].agent_id
                    == Some(x);
            assert(plane.bound_sessions().contains(id));
            assert(ids.contains(id));
            let i = choose|i: int| 0 <= i < ids.len() && ids[i] == id;
            assert(agents[i] == x);
        }
    }
}

/// A filtered list holds what it held and what passes.
broadcast proof fn lemma_filtered(
    s: Seq<Seq<char>>,
    pred: spec_fn(Seq<char>) -> bool,
    x: Seq<char>,
)
    ensures
        #[trigger] s.filter(pred).contains(x) <==> s.contains(x) && pred(x),
    decreases s.len(),
{
    reveal(Seq::filter);
    if s.len() > 0 {
        let head = s.drop_last();
        lemma_filtered(head, pred, x);
        assert(s =~= head.push(s.last()));
        assert(s.contains(x) <==> head.contains(x) || x == s.last()) by {
            if s.contains(x) {
                let i = choose|i: int| 0 <= i < s.len() && s[i] == x;
                if i < head.len() {
                    assert(head[i] == x);
                }
            }
            if head.contains(x) {
                let i = choose|i: int| 0 <= i < head.len() && head[i] == x;
                assert(s[i] == x);
            }
            assert(s[s.len() - 1] == s.last());
        }
        let rest = head.filter(pred);
        if pred(s.last()) {
            let more = rest.push(s.last());
            assert(more.contains(x) <==> rest.contains(x) || x == s.last()) by {
                if more.contains(x) {
                    let i = choose|i: int| 0 <= i < more.len() && more[i] == x;
                    if i < rest.len() {
                        assert(rest[i] == x);
                    }
                }
                if rest.contains(x) {
                    let i = choose|i: int| 0 <= i < rest.len() && rest[i] == x;
                    assert(more[i] == x);
                }
                assert(more[rest.len() as int] == s.last());
            }
        }
    }
}

/// A session is bound to an agent.
pub open spec fn is_bound(plane: PlaneView, agent: Seq<char>) -> bool {
    exists|s: u64| #[trigger]
        plane.domain.sessions.contains_key(s) && plane.domain.sessions[s].agent_id == Some(agent)
}

/// Everyone who is bound to a session is present, with the session's name, whether one of
/// its panes runs, and every name that leads there.
pub proof fn everyone_bound_is_present(
    plane: PlaneView,
    forwards: Seq<Seq<Seq<char>>>,
    pids: Map<u64, u32>,
    session: u64,
)
    requires
        plane.wf(),
    ensures
        plane.domain.sessions.contains_key(session) && plane.domain.sessions[session].agent_id
            is Some ==> exists|i: int|
            0 <= i < plane.peers(forwards, pids).len() && {
                let peer = #[trigger] plane.peers(forwards, pids)[i];
                &&& peer.agent_id == plane.domain.sessions[session].agent_id->0
                &&& peer.session == plane.domain.sessions[session].name
                &&& peer.pane_live == (plane.live && exists|k: int|
                    0 <= k < plane.domain.session_panes(session).len() && pids.contains_key(
                        #[trigger] plane.domain.session_panes(session)[k],
                    ))
                &&& forall|x: Seq<char>| #[trigger]
                    peer.aliases.contains(x) <==> (plane.aliases.contains_key(x)
                        && plane.aliases[x] == peer.agent_id) || (i < forwards.len()
                        && forwards[i].contains(x))
                &&& forall|a: int, b: int|
                    0 <= a < b < peer.aliases.len() ==> text_less(
                        #[trigger] peer.aliases[a],
                        #[trigger] peer.aliases[b],
                    )
            },
        forall|i: int|
            0 <= i < plane.peers(forwards, pids).len() ==> is_bound(
                plane,
                (#[trigger] plane.peers(forwards, pids)[i]).agent_id,
            ),
{
    let d = plane.bound_sessions();
    let ids = sorted_ids(d);
    lemma_listed(d);
    let peers = plane.peers(forwards, pids);
    if plane.domain.sessions.contains_key(session) && plane.domain.sessions[session].agent_id
        is Some {
        assert(d.contains(session));
        assert(ids.contains(session));
        let i = choose|i: int| 0 <= i < ids.len() && ids[i] == session;
        let agent = plane.domain.sessions[session].agent_id->0;
        let given = if i < forwards.len() {
            forwards[i]
        } else {
            Seq::empty()
        };
        plane.names_are_listed(agent, given);
        let names = plane.names_of(agent, given);
        let peer = peers[i];
        assert forall|x: Seq<char>| #[trigger] peer.aliases.contains(x) <==> (
        plane.aliases.contains_key(x) && plane.aliases[x] == peer.agent_id) || (i < forwards.len()
            && forwards[i].contains(x)) by {
            assert(names.contains(x) <==> peer.aliases.contains(x));
        }
    }
    assert forall|i: int| 0 <= i < peers.len() implies is_bound(
        plane,
        (#[trigger] peers[i]).agent_id,
    ) by {
        assert(ids.contains(ids[i]));
        assert(d.contains(ids[i]));
        assert(plane.domain.sessions.contains_key(ids[i]));
    }
}

/// A store that fails is the daemon's own fault, whatever it was asked for.
pub proof fn a_failed_store_is_told(
    plane: PlaneView,
    client: u64,
    to: Seq<char>,
    summary: Seq<char>,
    body: Seq<char>,
    sender: Seq<char>,
    name: Seq<char>,
    resolved: Seq<char>,
    text: Seq<char>,
    fault: StoreFaultView,
)
    requires
        speaks(plane, client),
    ensures
        ({
            let from = Some(Ok::<Seq<char>, Seq<char>>(sender));
            let step = plane.mail_send(
                client,
                to,
                summary,
                body,
                from,
                Some(AddressView::Found { name, resolved }),
                Some(Err(text)),
            );
            &&& step matches StepView::Reply(Err(error))
            &&& error.code == ControlErrorCode::Internal
        }),
        ({
            let from = Some(Ok::<Seq<char>, Seq<char>>(sender));
            let step = plane.mail_broadcast(client, summary, body, from, Some(Err(fault)));
            &&& step matches StepView::Reply(Err(error))
            &&& error.code == ControlErrorCode::Internal
        }),
{
}

} // verus!
