//! Names: who is present, what is taken, and how a session is named.
use vstd::multiset::*;
use vstd::prelude::*;
use vstd::seq_lib::*;
use vstd::string::*;

use crate::alias::reassigned;
use crate::attention::{ack, text_result};
use crate::error::{
    control_domain_error, domain_error_view, plain_error, ControlError, ControlErrorCode, ErrorView,
};
use crate::event::{Event, EventView};
use crate::idmap::{
    group_views, lemma_ids_are_listed, lemma_picked, lists_ids, pick_ids, sorted_ids, IdMap,
};
use crate::mailbox::{
    store_fault_error, store_fault_view, Address, AddressView, StoreFault, StoreFaultView,
};
use crate::model::{group_seq_views, option_view, seq_views};
use crate::order::{
    add_text, add_texts, ascending_texts, lemma_sorted_texts, lemma_text_less_total,
    lemma_text_less_transitive, lemma_texts_are_listed, lists_texts, sorted_texts, text_before,
    text_less,
};
use crate::plane::{checked, first_fault, ControlPlane, PlaneView};
use crate::response::{ControlResponseData, DataView};
use crate::sessions::{mail_store_error, reserved_error, reserved_view, store_error_view};
use crate::state::{group_pane_states, Ask, AskView, Effect, EffectView};
use crate::step::{accept, refusal, refuse, BellView, Ring, Step, StepView};
use crate::text::{same_text, trim, trimmed};
use crate::wire::{MailPeer, MailPeerView};

verus! {

broadcast use {group_views, group_seq_views, group_pane_states};

/// Whether one of the panes has a running child.
pub open spec fn any_running(panes: Seq<u64>, pids: Map<u64, u32>) -> bool {
    exists|i: int| 0 <= i < panes.len() && pids.contains_key(#[trigger] panes[i])
}

fn some_running(panes: &Vec<u64>, pids: &IdMap<u32>) -> (r: bool)
    ensures
        r == any_running(panes@, pids@),
{
    let mut i: usize = 0;
    while i < panes.len()
        invariant
            i <= panes@.len(),
            forall|k: int| 0 <= k < i ==> !pids@.contains_key(#[trigger] panes@[k]),
        decreases panes@.len() - i,
    {
        if pids.contains_key(panes[i]) {
            return true;
        }
        i = i + 1;
    }
    false
}

/// Peers in the order of their agents.
pub open spec fn peers_ordered(s: Seq<MailPeerView>) -> bool {
    forall|i: int, j: int|
        0 <= i < j < s.len() ==> !text_less((#[trigger] s[j]).agent_id, (#[trigger] s[i]).agent_id)
}

/// Entry `i` of a list of lists, empty beyond its end.
pub open spec fn entry_at(lists: Seq<Seq<Seq<char>>>, i: int) -> Seq<Seq<char>> {
    if 0 <= i < lists.len() {
        lists[i]
    } else {
        Seq::empty()
    }
}

pub open spec fn nested_texts(v: Seq<Vec<String>>) -> Seq<Seq<Seq<char>>> {
    Seq::new(v.len(), |i: int| seq_views(v[i]@))
}

impl PlaneView {
    /// Sessions bound to an agent.
    pub open spec fn bound_sessions(self) -> Set<u64> {
        Set::new(
            |s: u64| self.domain.sessions.contains_key(s) && self.domain.sessions[s].agent_id is Some,
        )
    }

    /// The agents of those sessions, oldest session first.
    pub open spec fn bound_agents(self) -> Seq<Seq<char>> {
        let ids = sorted_ids(self.bound_sessions());
        Seq::new(ids.len(), |i: int| self.domain.sessions[ids[i]].agent_id->0)
    }

    /// Names that lead to an agent: its aliases, and the addresses that forward
    /// to it.
    pub open spec fn names_of(self, agent: Seq<char>, forwards: Seq<Seq<char>>) -> Set<Seq<char>> {
        Set::new(
            |x: Seq<char>|
                (self.aliases.contains_key(x) && self.aliases[x] == agent) || forwards.contains(x),
        )
    }

    pub open spec fn peer(self, session: u64, forwards: Seq<Seq<char>>, pids: Map<u64, u32>) -> MailPeerView {
        let s = self.domain.sessions[session];
        MailPeerView {
            agent_id: s.agent_id->0,
            session: s.name,
            pane_live: self.live && any_running(self.domain.session_panes(session), pids),
            aliases: sorted_texts(self.names_of(s.agent_id->0, forwards)),
        }
    }

    /// One peer per bound session.
    pub open spec fn peers(self, forwards: Seq<Seq<Seq<char>>>, pids: Map<u64, u32>) -> Seq<
        MailPeerView,
    > {
        let ids = sorted_ids(self.bound_sessions());
        Seq::new(ids.len(), |i: int| self.peer(ids[i], entry_at(forwards, i), pids))
    }

    /// Who is present. The store is asked for the addresses that forward.
    pub open spec fn mail_who(self, client: u64) -> StepView {
        match self.client_fault(client) {
            Some(fault) => refusal(fault),
            None => StepView::Wait(AskView::StoreForwards { agents: self.bound_agents() }),
        }
    }

    /// Everyone but the sender.
    pub open spec fn broadcast_to(self, from: Seq<char>) -> Seq<Seq<char>> {
        self.bound_agents().filter(|a: Seq<char>| a != from)
    }

    /// A letter to every other agent.
    pub open spec fn mail_broadcast(
        self,
        client: u64,
        summary: Seq<char>,
        body: Seq<char>,
        sender: Option<Result<Seq<char>, Seq<char>>>,
        sent: Option<Result<(u32, Seq<u32>), StoreFaultView>>,
    ) -> StepView {
        match self.mail_agent(client, sender) {
            Err(step) => step,
            Ok(from) => {
                let recipients = self.broadcast_to(from);
                match sent {
                    None => StepView::Wait(
                        AskView::StoreBroadcast { from, recipients, summary, body },
                    ),
                    Some(Err(fault)) => refusal(store_fault_view(fault)),
                    Some(Ok((delivered, depths))) => StepView::Bells {
                        rings: bells(recipients, depths),
                        reply: DataView::MailBroadcasted { delivered, recipients },
                    },
                }
            },
        }
    }

    /// Every name that is in use.
    pub open spec fn used_names(self, reserved: Seq<Seq<char>>) -> Set<Seq<char>> {
        Set::new(
            |x: Seq<char>|
                reserved.contains(x) || self.aliases.contains_key(x) || self.domain.name_taken(x, 0)
                    || self.domain.agent_taken(x, 0),
        )
    }

    /// The names of an agent are listed in full, each once.
    pub proof fn names_are_listed(self, agent: Seq<char>, forwards: Seq<Seq<char>>)
        requires
            self.wf(),
        ensures
            lists_texts(
                sorted_texts(self.names_of(agent, forwards)),
                self.names_of(agent, forwards),
            ),
    {
        let d = self.names_of(agent, forwards);
        let all = self.aliases.dom() + forwards.to_set();
        vstd::seq_lib::seq_to_set_is_finite(forwards);
        vstd::set_lib::lemma_set_subset_finite(all, d);
        lemma_texts_are_listed(d);
    }

    /// The names that are in use are listed in full, each once.
    pub proof fn used_names_are_listed(self, reserved: Seq<Seq<char>>)
        requires
            self.wf(),
        ensures
            lists_texts(sorted_texts(self.used_names(reserved)), self.used_names(reserved)),
    {
        let d = self.used_names(reserved);
        let ids = sorted_ids(self.domain.sessions.dom());
        let names = ids.map_values(|s: u64| self.domain.sessions[s].name);
        let agents = ids.map_values(|s: u64| self.domain.sessions[s].agent_id->0);
        let all = self.aliases.dom() + (reserved + names + agents).to_set();
        lemma_ids_are_listed(self.domain.sessions.dom());
        vstd::seq_lib::seq_to_set_is_finite(reserved + names + agents);
        assert forall|x: Seq<char>| #[trigger] d.contains(x) implies all.contains(x) by {
            let list = reserved + names + agents;
            if reserved.contains(x) {
                let i = choose|i: int| 0 <= i < reserved.len() && reserved[i] == x;
                assert(list[i] == x);
            } else if self.domain.name_taken(x, 0) {
                let s = choose|s: u64| #[trigger]
                    self.domain.sessions.contains_key(s) && s != 0 && self.domain.sessions[s].name
                        == x;
                assert(self.domain.sessions.dom().contains(s));
                let i = choose|i: int| 0 <= i < ids.len() && ids[i] == s;
                assert(list[reserved.len() + i] == x);
            } else if self.domain.agent_taken(x, 0) {
                let s = choose|s: u64| #[trigger]
                    self.domain.sessions.contains_key(s) && s != 0
                        && self.domain.sessions[s].agent_id == Some(x);
                assert(self.domain.sessions.dom().contains(s));
                let i = choose|i: int| 0 <= i < ids.len() && ids[i] == s;
                assert(list[reserved.len() + names.len() + i] == x);
            }
        }
        vstd::set_lib::lemma_set_subset_finite(all, d);
        lemma_texts_are_listed(d);
    }

    pub open spec fn session_names(self, reserved: Option<Result<Seq<Seq<char>>, Seq<char>>>) -> StepView {
        match reserved {
            None => StepView::Wait(AskView::StoreReserved),
            Some(Err(text)) => refusal(store_error_view(text)),
            Some(Ok(reserved)) => StepView::Reply(
                Ok(DataView::SessionNames { names: sorted_texts(self.used_names(reserved)) }),
            ),
        }
    }

    /// The mail address that a session has, or would get with its name.
    pub open spec fn agent_or(self, session: u64, name: Seq<char>) -> Seq<char> {
        match self.domain.sessions[session].agent_id {
            Some(agent) => agent,
            None => name,
        }
    }

    pub open spec fn naming_fault(
        self,
        session: u64,
        name: Seq<char>,
        resolved: Seq<char>,
    ) -> Option<ErrorView> {
        let agent = self.agent_or(session, name);
        if (resolved != name && resolved != agent) || (self.aliases.contains_key(name)
            && self.aliases[name] != agent) {
            Some(reserved_view(name))
        } else {
            match self.domain.name_session_fault(session, name) {
                Some(error) => Some(domain_error_view(error)),
                None => self.capacity_fault(),
            }
        }
    }

    pub open spec fn named(self, session: u64, name: Seq<char>, open: Option<u32>, now: u64) -> PlaneView {
        let agent = self.agent_or(session, name);
        let old_name = self.domain.sessions[session].name;
        PlaneView {
            aliases: reassigned(self.aliases, agent, name).remove(name),
            domain: self.domain.name_session(session, name),
            ..self
        }.note(EffectView::UnbindAgent { session: old_name }).note(
            EffectView::BindAgent { session: name, agent: name },
        ).refresh_mail(name, open, now).note(EffectView::RingMail).publish(
            EventView::SessionNamed { session_id: session, name },
        )
    }

    /// Name a session, and give its agent that name. Mail follows: the store
    /// renames first, then nothing can fail.
    pub open spec fn name_session(
        self,
        session: u64,
        name: Seq<char>,
        address: Option<AddressView>,
        renamed: Option<Result<Option<u32>, Seq<char>>>,
        now: u64,
    ) -> (PlaneView, StepView) {
        match address {
            None => (self, StepView::Wait(AskView::Seat { name: trimmed(name) })),
            Some(AddressView::Invalid { error }) => (
                self,
                refusal(plain_error(ControlErrorCode::InvalidRequest, error)),
            ),
            Some(AddressView::Failed { error, .. }) => (
                self,
                match self.session_fault(session) {
                    Some(fault) => refusal(fault),
                    None => refusal(store_error_view(error)),
                },
            ),
            Some(AddressView::Found { name: n, resolved }) => match first_fault(
                self.session_fault(session),
                self.naming_fault(session, n, resolved),
            ) {
                Some(fault) => (self, refusal(fault)),
                None => match renamed {
                    None => (
                        self,
                        StepView::Wait(
                            AskView::StoreRename { old_agent: self.agent_or(session, n), agent: n },
                        ),
                    ),
                    Some(Err(text)) => (self, refusal(store_error_view(text))),
                    Some(Ok(open)) => {
                        let after = self.named(session, n, open, now);
                        (after, StepView::Reply(Ok(ack(after))))
                    },
                },
            },
        }
    }
}

/// One bell per recipient, with the depth that is known.
pub open spec fn bells(recipients: Seq<Seq<char>>, depths: Seq<u32>) -> Seq<BellView> {
    Seq::new(
        recipients.len(),
        |i: int|
            BellView {
                agent: recipients[i],
                depth: if i < depths.len() {
                    depths[i]
                } else {
                    0
                },
            },
    )
}

impl ControlPlane {
    fn bound_sessions(&self) -> (ids: Vec<u64>)
        ensures
            ids@ == sorted_ids(self@.bound_sessions()),
            lists_ids(ids@, self@.bound_sessions()),
    {
        let keys: Vec<u64> = self.domain.sessions.keys();
        let mut keep: Vec<bool> = Vec::new();
        let mut i: usize = 0;
        while i < keys.len()
            invariant
                i <= keys@.len(),
                lists_ids(keys@, self.domain.sessions@.dom()),
                keep@.len() == i,
                forall|k: int|
                    0 <= k < i ==> #[trigger] keep@[k] == self@.bound_sessions().contains(keys@[k]),
            decreases keys@.len() - i,
        {
            assert(keys@.contains(keys@[i as int]));
            let bound: bool = match self.domain.sessions.get(keys[i]) {
                Some(s) => s.agent_id.is_some(),
                None => false,
            };
            keep.push(bound);
            i = i + 1;
        }
        let ids: Vec<u64> = pick_ids(&keys, &keep);
        proof {
            assert forall|k: u64| #[trigger]
                self@.bound_sessions().contains(k) implies self.domain.sessions@.dom().contains(
                k,
            ) by {
                assert(self@.domain.sessions.contains_key(k));
            }
            lemma_picked(
                keys@,
                keep@,
                ids@,
                self.domain.sessions@.dom(),
                self@.bound_sessions(),
            );
        }
        ids
    }

    fn bound_agents(&self) -> (v: Vec<String>)
        ensures
            seq_views(v@) == self@.bound_agents(),
    {
        let ids: Vec<u64> = self.bound_sessions();
        let mut v: Vec<String> = Vec::new();
        let mut i: usize = 0;
        while i < ids.len()
            invariant
                i <= ids@.len(),
                v@.len() == i,
                lists_ids(ids@, self@.bound_sessions()),
                forall|k: int|
                    0 <= k < i ==> (#[trigger] v@[k])@ == self@.domain.sessions[ids@[k]].agent_id->0,
            decreases ids@.len() - i,
        {
            assert(ids@.contains(ids@[i as int]));
            assert(self@.bound_sessions().contains(ids@[i as int]));
            if let Some(s) = self.domain.sessions.get(ids[i]) {
                if let Some(agent) = &s.agent_id {
                    v.push(agent.clone());
                }
            }
            i = i + 1;
        }
        assert(seq_views(v@) =~= self@.bound_agents());
        v
    }

    pub fn mail_who(&self, client: u64) -> (r: Step)
        ensures
            r@ == self@.mail_who(client),
            lists_ids(sorted_ids(self@.bound_sessions()), self@.bound_sessions()),
    {
        proof {
            lemma_ids_are_listed(self@.bound_sessions());
        }
        if let Err(error) = self.require_active_client(client) {
            return refuse(error);
        }
        Step::Wait(Ask::StoreForwards { agents: self.bound_agents() })
    }

    fn names_of(&self, agent: &str, forwards: &Vec<String>) -> (v: Vec<String>)
        ensures
            seq_views(v@) == sorted_texts(self@.names_of(agent@, seq_views(forwards@))),
    {
        let names: Vec<String> = self.aliases.names(Some(agent));
        let mut v: Vec<String> = Vec::new();
        assert(seq_views(v@) =~= Seq::empty());
        add_texts(&mut v, &names);
        add_texts(&mut v, forwards);
        proof {
            let d = self@.names_of(agent@, seq_views(forwards@));
            assert forall|x: Seq<char>| #[trigger] d.contains(x) <==> seq_views(v@).contains(x) by {
                assert(!Seq::<Seq<char>>::empty().contains(x));
            }
            lemma_sorted_texts(seq_views(v@), d);
        }
        v
    }

    fn peer(&self, session: u64, forwards: &Vec<String>, pids: &IdMap<u32>) -> (p: MailPeer)
        requires
            self@.wf(),
            self@.bound_sessions().contains(session),
        ensures
            p@ == self@.peer(session, seq_views(forwards@), pids@),
    {
        let panes: Vec<u64> = self.domain.session_panes(session);
        let pane_live: bool = self.live && some_running(&panes, pids);
        let (agent_id, name): (String, String) = match self.domain.sessions.get(session) {
            Some(s) => match &s.agent_id {
                Some(agent) => (agent.clone(), s.name.clone()),
                None => (String::new(), String::new()),
            },
            None => (String::new(), String::new()),
        };
        let aliases: Vec<String> = self.names_of(agent_id.as_str(), forwards);
        MailPeer { agent_id, session: name, pane_live, aliases }
    }

    /// Everyone who is present, in the order of their agents.
    pub fn mail_present(&self, forwards: &Result<Vec<Vec<String>>, String>, pids: &IdMap<u32>) -> (r:
        Result<ControlResponseData, ControlError>)
        requires
            self@.wf(),
        ensures
            match *forwards {
                Err(text) => r matches Err(e) && e@ == store_error_view(text@),
                Ok(lists) => r matches Ok(ControlResponseData::MailPeers { peers }) && {
                    &&& peers_ordered(seq_views(peers@))
                    &&& seq_views(peers@).to_multiset() == self@.peers(
                        nested_texts(lists@),
                        pids@,
                    ).to_multiset()
                },
            },
            lists_ids(sorted_ids(self@.bound_sessions()), self@.bound_sessions()),
    {
        proof {
            lemma_ids_are_listed(self@.bound_sessions());
        }
        let lists: &Vec<Vec<String>> = match forwards {
            Ok(lists) => lists,
            Err(text) => {
                return Err(mail_store_error(text.as_str()));
            },
        };
        let ids: Vec<u64> = self.bound_sessions();
        let mut peers: Vec<MailPeer> = Vec::new();
        let mut i: usize = 0;
        let ghost all = self@.peers(nested_texts(lists@), pids@);
        proof {
            assert(all.take(0) =~= Seq::empty());
            assert(seq_views(peers@) =~= Seq::empty());
        }
        while i < ids.len()
            invariant
                i <= ids@.len(),
                self@.wf(),
                ids@ == sorted_ids(self@.bound_sessions()),
                lists_ids(ids@, self@.bound_sessions()),
                all == self@.peers(nested_texts(lists@), pids@),
                peers_ordered(seq_views(peers@)),
                seq_views(peers@).to_multiset() == all.take(i as int).to_multiset(),
            decreases ids@.len() - i,
        {
            assert(ids@.contains(ids@[i as int]));
            assert(self@.bound_sessions().contains(ids@[i as int]));
            let none: Vec<String> = Vec::new();
            let list: &Vec<String> = if i < lists.len() {
                &lists[i]
            } else {
                &none
            };
            proof {
                assert(seq_views(none@) =~= Seq::empty());
                assert(seq_views(list@) == entry_at(nested_texts(lists@), i as int));
            }
            let peer: MailPeer = self.peer(ids[i], list, pids);
            proof {
                assert(peer@ == all[i as int]);
                assert(all.take(i + 1) =~= all.take(i as int).push(all[i as int]));
                all.take(i as int).to_multiset_ensures();
                broadcast use vstd::seq_lib::group_to_multiset_ensures;
            }
            insert_peer(&mut peers, peer);
            i = i + 1;
        }
        assert(all.take(i as int) =~= all);
        Ok(ControlResponseData::MailPeers { peers })
    }

    fn broadcast_to(&self, from: &str) -> (v: Vec<String>)
        ensures
            seq_views(v@) == self@.broadcast_to(from@),
    {
        let agents: Vec<String> = self.bound_agents();
        let ghost all = self@.bound_agents();
        let mut v: Vec<String> = Vec::new();
        let mut i: usize = 0;
        proof {
            reveal(Seq::filter);
            assert(all.take(0).filter(|a: Seq<char>| a != from@) =~= Seq::empty());
            assert(seq_views(v@) =~= Seq::empty());
        }
        while i < agents.len()
            invariant
                i <= agents@.len(),
                seq_views(agents@) == all,
                seq_views(v@) == all.take(i as int).filter(|a: Seq<char>| a != from@),
            decreases agents@.len() - i,
        {
            proof {
                reveal(Seq::filter);
                assert(all.take(i + 1).drop_last() =~= all.take(i as int));
                assert(all.take(i + 1).last() == agents@[i as int]@);
            }
            if !same_text(agents[i].as_str(), from) {
                v.push(agents[i].clone());
            }
            i = i + 1;
        }
        assert(all.take(i as int) =~= all);
        v
    }

    pub fn mail_broadcast(
        &self,
        client: u64,
        summary: &str,
        body: &str,
        sender: &Option<Result<String, String>>,
        sent: &Option<Result<(u32, Vec<u32>), StoreFault>>,
    ) -> (r: Step)
        ensures
            r@ == self@.mail_broadcast(
                client,
                summary@,
                body@,
                text_result(*sender),
                sent_view(*sent),
            ),
            lists_ids(sorted_ids(self@.bound_sessions()), self@.bound_sessions()),
    {
        proof {
            lemma_ids_are_listed(self@.bound_sessions());
        }
        let from: String = match self.mail_agent(client, sender) {
            Ok(from) => from,
            Err(step) => {
                return step;
            },
        };
        let recipients: Vec<String> = self.broadcast_to(from.as_str());
        match sent {
            None => Step::Wait(
                Ask::StoreBroadcast {
                    from,
                    recipients,
                    summary: String::from_str(summary),
                    body: String::from_str(body),
                },
            ),
            Some(Err(fault)) => refuse(store_fault_error(fault)),
            Some(Ok((delivered, depths))) => {
                let mut rings: Vec<Ring> = Vec::new();
                let mut i: usize = 0;
                while i < recipients.len()
                    invariant
                        i <= recipients@.len(),
                        rings@.len() == i,
                        forall|k: int|
                            0 <= k < i ==> (#[trigger] rings@[k])@ == bells(
                                seq_views(recipients@),
                                depths@,
                            )[k],
                    decreases recipients@.len() - i,
                {
                    let depth: u32 = if i < depths.len() {
                        depths[i]
                    } else {
                        0
                    };
                    rings.push(Ring { agent: recipients[i].clone(), depth });
                    i = i + 1;
                }
                assert(seq_views(rings@) =~= bells(seq_views(recipients@), depths@));
                Step::Bells {
                    rings,
                    reply: ControlResponseData::MailBroadcasted { delivered: *delivered, recipients },
                }
            },
        }
    }

    pub fn session_names(&self, reserved: &Option<Result<Vec<String>, String>>) -> (r: Step)
        requires
            self@.wf(),
        ensures
            r@ == self@.session_names(reserved_list(*reserved)),
    {
        let reserved: &Vec<String> = match reserved {
            None => {
                return Step::Wait(Ask::StoreReserved);
            },
            Some(Err(text)) => {
                return refuse(mail_store_error(text.as_str()));
            },
            Some(Ok(reserved)) => reserved,
        };
        let mut names: Vec<String> = Vec::new();
        assert(seq_views(names@) =~= Seq::empty());
        add_texts(&mut names, reserved);
        let aliases: Vec<String> = self.aliases.names(None);
        add_texts(&mut names, &aliases);
        let ids: Vec<u64> = self.domain.sessions.keys();
        let ghost base = seq_views(names@);
        let mut i: usize = 0;
        while i < ids.len()
            invariant
                i <= ids@.len(),
                lists_ids(ids@, self.domain.sessions@.dom()),
                ascending_texts(seq_views(names@)),
                forall|x: Seq<char>| #[trigger]
                    seq_views(names@).contains(x) <==> base.contains(x) || exists|k: int|
                        0 <= k < i && (self@.domain.sessions[#[trigger] ids@[k]].name == x
                            || self@.domain.sessions[ids@[k]].agent_id == Some(x)),
            decreases ids@.len() - i,
        {
            assert(ids@.contains(ids@[i as int]));
            let ghost before = seq_views(names@);
            if let Some(s) = self.domain.sessions.get(ids[i]) {
                add_text(&mut names, s.name.as_str());
                if let Some(agent) = &s.agent_id {
                    add_text(&mut names, agent.as_str());
                }
            }
            proof {
                let id = ids@[i as int];
                assert forall|x: Seq<char>| #[trigger]
                    seq_views(names@).contains(x) <==> base.contains(x) || exists|k: int|
                        0 <= k < i + 1 && (self@.domain.sessions[#[trigger] ids@[k]].name == x
                            || self@.domain.sessions[ids@[k]].agent_id == Some(x)) by {
                    let here = self@.domain.sessions[id].name == x
                        || self@.domain.sessions[id].agent_id == Some(x);
                    assert(seq_views(names@).contains(x) <==> before.contains(x) || here);
                    if before.contains(x) && !base.contains(x) {
                        let k = choose|k: int|
                            0 <= k < i && (self@.domain.sessions[#[trigger] ids@[k]].name == x
                                || self@.domain.sessions[ids@[k]].agent_id == Some(x));
                        assert(0 <= k < i + 1 && (self@.domain.sessions[ids@[k]].name == x
                            || self@.domain.sessions[ids@[k]].agent_id == Some(x)));
                    }
                    if here {
                        assert(0 <= i < i + 1 && (self@.domain.sessions[ids@[i as int]].name == x
                            || self@.domain.sessions[ids@[i as int]].agent_id == Some(x)));
                    }
                }
            }
            i = i + 1;
        }
        proof {
            let d = self@.used_names(seq_views(reserved@));
            assert forall|x: Seq<char>| #[trigger]
                d.contains(x) <==> seq_views(names@).contains(x) by {
                assert(!Seq::<Seq<char>>::empty().contains(x));
                assert(base.contains(x) <==> seq_views(reserved@).contains(x)
                    || self@.aliases.contains_key(x));
                if self@.domain.name_taken(x, 0) || self@.domain.agent_taken(x, 0) {
                    let s = choose|s: u64|
                        #![trigger self@.domain.sessions.contains_key(s)]
                        self@.domain.sessions.contains_key(s) && s != 0 && (
                        self@.domain.sessions[s].name == x || self@.domain.sessions[s].agent_id
                            == Some(x));
                    assert(self.domain.sessions@.dom().contains(s));
                    let k = choose|k: int| 0 <= k < ids@.len() && ids@[k] == s;
                    assert(self@.domain.sessions[ids@[k]].name == x
                        || self@.domain.sessions[ids@[k]].agent_id == Some(x));
                }
                if seq_views(names@).contains(x) && !base.contains(x) {
                    let k = choose|k: int|
                        0 <= k < i && (self@.domain.sessions[#[trigger] ids@[k]].name == x
                            || self@.domain.sessions[ids@[k]].agent_id == Some(x));
                    assert(ids@.contains(ids@[k]));
                    assert(self@.domain.sessions.contains_key(ids@[k]));
                }
            }
            lemma_sorted_texts(seq_views(names@), d);
        }
        accept(ControlResponseData::SessionNames { names })
    }
}

/// Adds a peer after those whose agents do not come after it.
fn insert_peer(v: &mut Vec<MailPeer>, peer: MailPeer)
    requires
        peers_ordered(seq_views(old(v)@)),
    ensures
        peers_ordered(seq_views(final(v)@)),
        seq_views(final(v)@).to_multiset() == seq_views(old(v)@).to_multiset().insert(peer@),
{
    let ghost before = seq_views(v@);
    let ghost p = peer@;
    let mut i: usize = 0;
    while i < v.len() && !text_before(peer.agent_id.as_str(), v[i].agent_id.as_str())
        invariant
            i <= v@.len(),
            p == peer@,
            before == seq_views(v@),
            forall|k: int| 0 <= k < i ==> !text_less(p.agent_id, (#[trigger] before[k]).agent_id),
        decreases v@.len() - i,
    {
        assert(before[i as int] == v@[i as int]@);
        i = i + 1;
    }
    v.insert(i, peer);
    proof {
        let after = seq_views(v@);
        assert(after =~= before.insert(i as int, p));
        assert forall|a: int, b: int| 0 <= a < b < after.len() implies !text_less(
            (#[trigger] after[b]).agent_id,
            (#[trigger] after[a]).agent_id,
        ) by {
            let x = if a < i {
                a
            } else {
                a - 1
            };
            let y = if b < i {
                b
            } else {
                b - 1
            };
            if a == i {
                assert(after[b] == before[b - 1]);
                assert(text_less(p.agent_id, before[i as int].agent_id));
                if text_less(after[b].agent_id, p.agent_id) {
                    lemma_text_less_transitive(
                        after[b].agent_id,
                        p.agent_id,
                        before[i as int].agent_id,
                    );
                    if b - 1 > i {
                        assert(!text_less(before[b - 1].agent_id, before[i as int].agent_id));
                    } else {
                        lemma_text_less_total(before[i as int].agent_id, before[i as int].agent_id);
                    }
                }
            } else if b == i {
                assert(after[a] == before[a]);
            } else {
                assert(after[a] == before[x]);
                assert(after[b] == before[y]);
            }
        }
        broadcast use vstd::seq_lib::group_to_multiset_ensures;
        to_multiset_insert(before, i as int, p);
    }
}

/// A broadcast result taken by view.
pub open spec fn sent_view(r: Option<Result<(u32, Vec<u32>), StoreFault>>) -> Option<
    Result<(u32, Seq<u32>), StoreFaultView>,
> {
    match r {
        None => None,
        Some(Ok((delivered, depths))) => Some(Ok((delivered, depths@))),
        Some(Err(fault)) => Some(Err(fault@)),
    }
}

/// Reserved addresses taken by view.
pub open spec fn reserved_list(r: Option<Result<Vec<String>, String>>) -> Option<
    Result<Seq<Seq<char>>, Seq<char>>,
> {
    match r {
        None => None,
        Some(Ok(v)) => Some(Ok(seq_views(v@))),
        Some(Err(text)) => Some(Err(text@)),
    }
}

/// A rename result taken by view.
pub open spec fn renamed_view(r: Option<Result<Option<u32>, String>>) -> Option<
    Result<Option<u32>, Seq<char>>,
> {
    match r {
        None => None,
        Some(Ok(open)) => Some(Ok(open)),
        Some(Err(text)) => Some(Err(text@)),
    }
}

impl ControlPlane {
    fn agent_or(&self, session: u64, name: &str) -> (agent: String)
        requires
            self@.domain.sessions.contains_key(session),
        ensures
            agent@ == self@.agent_or(session, name@),
    {
        match self.domain.sessions.get(session) {
            Some(s) => match &s.agent_id {
                Some(agent) => agent.clone(),
                None => String::from_str(name),
            },
            None => String::from_str(name),
        }
    }

    fn check_naming(&self, session: u64, name: &str, resolved: &str) -> (r: Result<
        String,
        ControlError,
    >)
        requires
            self@.wf(),
        ensures
            checked(
                first_fault(
                    self@.session_fault(session),
                    self@.naming_fault(session, name@, resolved@),
                ),
                r,
            ),
            r matches Ok(agent) ==> agent@ == self@.agent_or(session, name@),
    {
        self.require_session(session)?;
        let agent: String = self.agent_or(session, name);
        let other: bool = match self.aliases.owner(name) {
            Some(owner) => !same_text(owner.as_str(), agent.as_str()),
            None => false,
        };
        if (!same_text(resolved, name) && !same_text(resolved, agent.as_str())) || other {
            return Err(reserved_error(name));
        }
        if let Err(error) = self.domain.check_name_session(session, name) {
            return Err(control_domain_error(error));
        }
        self.ensure_sequence_capacity()?;
        Ok(agent)
    }

    fn set_name(&mut self, session: u64, name: &str, agent: &str, open: Option<u32>, now: u64)
        requires
            old(self)@.wf(),
            old(self)@.domain.sessions.contains_key(session),
            agent@ == old(self)@.agent_or(session, name@),
        ensures
            final(self)@ == old(self)@.named(session, name@, open, now),
            final(self)@.wf(),
    {
        let old_name: String = match self.domain.sessions.get(session) {
            Some(s) => s.name.clone(),
            None => String::new(),
        };
        self.aliases.reassign(agent, name);
        self.aliases.remove(name);
        proof {
            let known = old(self)@.aliases;
            assert(reassigned(known, agent@, name@).dom() =~= known.dom());
            self@.domain.labels_keep_wf(session, 0, 0, name@, None, false, Seq::empty());
        }
        self.domain.name_session(session, name);
        self.note(Effect::UnbindAgent { session: old_name });
        self.note(
            Effect::BindAgent { session: String::from_str(name), agent: String::from_str(name) },
        );
        self.refresh_mail_attention(name, open, now);
        self.note(Effect::RingMail);
        let _ = self.publish(
            Event::SessionNamed { session_id: session, name: String::from_str(name) },
        );
    }

    pub fn name_session(
        &mut self,
        session: u64,
        name: &str,
        address: &Option<Address>,
        renamed: &Option<Result<Option<u32>, String>>,
        now: u64,
    ) -> (r: Step)
        requires
            old(self)@.wf(),
        ensures
            (final(self)@, r@) == old(self)@.name_session(
                session,
                name@,
                option_view(*address),
                renamed_view(*renamed),
                now,
            ),
            final(self)@.wf(),
    {
        match address {
            None => Step::Wait(Ask::Seat { name: trim(name) }),
            Some(Address::Invalid { error }) => refuse(
                ControlError::new(ControlErrorCode::InvalidRequest, error.as_str()),
            ),
            Some(Address::Failed { error, .. }) => match self.require_session(session) {
                Err(fault) => refuse(fault),
                Ok(()) => refuse(mail_store_error(error.as_str())),
            },
            Some(Address::Found { name: n, resolved }) => {
                let agent: String = match self.check_naming(
                    session,
                    n.as_str(),
                    resolved.as_str(),
                ) {
                    Ok(agent) => agent,
                    Err(error) => {
                        return refuse(error);
                    },
                };
                match renamed {
                    None => Step::Wait(Ask::StoreRename { old_agent: agent, agent: n.clone() }),
                    Some(Err(text)) => refuse(mail_store_error(text.as_str())),
                    Some(Ok(open)) => {
                        self.set_name(session, n.as_str(), agent.as_str(), *open, now);
                        accept(self.ack())
                    },
                }
            },
        }
    }
}

} // verus!
