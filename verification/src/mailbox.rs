//! Mail verbs. Letters live in a store that the host keeps; the plane decides
//! who asks, for whom, and what follows.
use vstd::prelude::*;
use vstd::string::*;

use crate::attention::text_result;
use crate::error::{plain_error, ControlError, ControlErrorCode, ErrorView};
use crate::event::clone_option_text;
use crate::idmap::group_views;
use crate::model::{group_seq_views, option_view, seq_views};
use crate::plane::{checked, first_fault, ControlPlane, PlaneView};
use crate::response::{ControlResponseData, DataView};
use crate::sessions::{mail_store_error, store_error_view};
use crate::state::{group_pane_states, Ask, AskView, ClientView};
use crate::step::{accept, refusal, refuse, BellView, Ring, Step, StepView};
use crate::text::{concat2, concat3, debug_text, quoted, same_text};
use crate::wire::Letter;

verus! {

broadcast use {group_views, group_seq_views, group_pane_states};

/// What the store says of an address: the name it checked and the agent behind
/// it; that it is no agent name; or that the store failed.
#[derive(Debug, PartialEq)]
pub enum Address {
    Found { name: String, resolved: String },
    Invalid { error: String },
    Failed { name: String, error: String },
}

pub enum AddressView {
    Found { name: Seq<char>, resolved: Seq<char> },
    Invalid { error: Seq<char> },
    Failed { name: Seq<char>, error: Seq<char> },
}

impl View for Address {
    type V = AddressView;

    open spec fn view(&self) -> AddressView {
        match *self {
            Address::Found { name, resolved } => AddressView::Found {
                name: name@,
                resolved: resolved@,
            },
            Address::Invalid { error } => AddressView::Invalid { error: error@ },
            Address::Failed { name, error } => AddressView::Failed { name: name@, error: error@ },
        }
    }
}

/// Why the store did not do what it was asked.
#[derive(Debug, PartialEq)]
pub enum StoreFault {
    /// An agent name is not one.
    Name(String),
    /// The store failed.
    Store(String),
    /// Counting failed.
    Depth(String),
}

pub enum StoreFaultView {
    Name(Seq<char>),
    Store(Seq<char>),
    Depth(Seq<char>),
}

impl View for StoreFault {
    type V = StoreFaultView;

    open spec fn view(&self) -> StoreFaultView {
        match *self {
            StoreFault::Name(s) => StoreFaultView::Name(s@),
            StoreFault::Store(s) => StoreFaultView::Store(s@),
            StoreFault::Depth(s) => StoreFaultView::Depth(s@),
        }
    }
}

/// A bad name inside the daemon is its own fault.
pub open spec fn store_fault_view(fault: StoreFaultView) -> ErrorView {
    match fault {
        StoreFaultView::Name(text) => plain_error(ControlErrorCode::Internal, text),
        StoreFaultView::Store(text) => store_error_view(text),
        StoreFaultView::Depth(text) => plain_error(
            ControlErrorCode::Internal,
            "mailbox depth: "@ + text,
        ),
    }
}

pub fn store_fault_error(fault: &StoreFault) -> (e: ControlError)
    ensures
        e@ == store_fault_view(fault@),
{
    match fault {
        StoreFault::Name(text) => ControlError::new(ControlErrorCode::Internal, text.as_str()),
        StoreFault::Store(text) => mail_store_error(text.as_str()),
        StoreFault::Depth(text) => {
            let message: String = concat2("mailbox depth: ", text.as_str());
            ControlError::new(ControlErrorCode::Internal, message.as_str())
        },
    }
}

/// A bad name from outside is an invalid request.
pub open spec fn depth_fault_view(fault: StoreFaultView) -> ErrorView {
    match fault {
        StoreFaultView::Name(text) => plain_error(ControlErrorCode::InvalidRequest, text),
        _ => store_fault_view(fault),
    }
}

/// Open and held letters of an agent, as a waiting client polls them.
pub fn mail_depth_for(counted: Result<(u32, u32), StoreFault>) -> (r: Result<
    (u32, u32),
    ControlError,
>)
    ensures
        match counted {
            Ok(depth) => r == Ok::<(u32, u32), ControlError>(depth),
            Err(fault) => r matches Err(e) && e@ == depth_fault_view(fault@),
        },
{
    match counted {
        Ok(depth) => Ok(depth),
        Err(StoreFault::Name(text)) => Err(
            ControlError::new(ControlErrorCode::InvalidRequest, text.as_str()),
        ),
        Err(fault) => Err(store_fault_error(&fault)),
    }
}

pub open spec fn no_identity_view() -> ErrorView {
    plain_error(
        ControlErrorCode::InvalidRequest,
        "no agent identity: send MailHello first (pmux mail --as <agent>)"@,
    )
}

/// A refusal in words, which is no protocol error.
pub open spec fn alias_refusal(name: Seq<char>, why: Seq<char>) -> StepView {
    StepView::Reply(Ok(DataView::MailRefused { reason: "alias "@ + name + why }))
}

fn refuse_alias(name: &str, why: &str) -> (s: Step)
    ensures
        s@ == alias_refusal(name@, why@),
{
    accept(ControlResponseData::MailRefused { reason: concat3("alias ", name, why) })
}

impl PlaneView {
    pub open spec fn identity_fault(self, client: u64) -> Option<ErrorView> {
        first_fault(
            self.client_fault(client),
            if self.clients[client].agent is None {
                Some(no_identity_view())
            } else {
                None
            },
        )
    }

    /// The agent that a client speaks for, or the step to take first.
    pub open spec fn mail_agent(
        self,
        client: u64,
        sender: Option<Result<Seq<char>, Seq<char>>>,
    ) -> Result<Seq<char>, StepView> {
        match self.identity_fault(client) {
            Some(fault) => Err(refusal(fault)),
            None => match sender {
                None => Err(
                    StepView::Wait(AskView::Resolve { name: self.clients[client].agent->0 }),
                ),
                Some(Err(text)) => Err(refusal(store_error_view(text))),
                Some(Ok(agent)) => Ok(agent),
            },
        }
    }

    /// A client says which agent it is.
    pub open spec fn mail_hello(self, client: u64, agent: Seq<char>, address: Option<AddressView>) -> (
        PlaneView,
        StepView,
    ) {
        match self.client_fault(client) {
            Some(fault) => (self, refusal(fault)),
            None => match address {
                None => (self, StepView::Wait(AskView::Seat { name: agent })),
                Some(AddressView::Invalid { error }) => (
                    self,
                    refusal(plain_error(ControlErrorCode::InvalidRequest, error)),
                ),
                Some(AddressView::Failed { error, .. }) => (
                    self,
                    refusal(store_error_view(error)),
                ),
                Some(AddressView::Found { resolved, .. }) => (
                    self.with_client(
                        client,
                        ClientView { agent: Some(resolved), ..self.clients[client] },
                    ),
                    StepView::Reply(Ok(DataView::MailSeated { agent: resolved })),
                ),
            },
        }
    }

    /// The address that a recipient stands for.
    pub open spec fn aliased(self, to: Seq<char>) -> Seq<char> {
        if self.aliases.contains_key(to) {
            self.aliases[to]
        } else {
            to
        }
    }

    /// Send a letter. Once it is stored, the recipient's doorbell rings.
    pub open spec fn mail_send(
        self,
        client: u64,
        to: Seq<char>,
        summary: Seq<char>,
        body: Seq<char>,
        sender: Option<Result<Seq<char>, Seq<char>>>,
        address: Option<AddressView>,
        stored: Option<Result<(Seq<char>, u32), Seq<char>>>,
    ) -> StepView {
        match self.mail_agent(client, sender) {
            Err(step) => step,
            Ok(from) => match address {
                None => StepView::Wait(AskView::Recipient { name: self.aliased(to) }),
                Some(AddressView::Failed { error, .. }) => refusal(store_error_view(error)),
                Some(AddressView::Invalid { error }) => refusal(
                    plain_error(
                        ControlErrorCode::InvalidRequest,
                        "recipient "@ + debug_text(to) + (": "@ + error),
                    ),
                ),
                Some(AddressView::Found { resolved, .. }) => match stored {
                    None => StepView::Wait(
                        AskView::StoreSend { from, to: resolved, summary, body },
                    ),
                    Some(Err(text)) => refusal(store_error_view(text)),
                    Some(Ok((id, depth))) => StepView::Bells {
                        rings: seq![BellView { agent: resolved, depth }],
                        reply: DataView::MailSent { id, depth },
                    },
                },
            },
        }
    }

    /// Ask the store for the letters of the client's agent.
    pub open spec fn mail_claim(
        self,
        client: u64,
        sender: Option<Result<Seq<char>, Seq<char>>>,
    ) -> StepView {
        match self.mail_agent(client, sender) {
            Err(step) => step,
            Ok(agent) => StepView::Wait(AskView::StoreClaim { agent }),
        }
    }

    pub open spec fn mail_commit(
        self,
        client: u64,
        ids: Seq<Seq<char>>,
        sender: Option<Result<Seq<char>, Seq<char>>>,
    ) -> StepView {
        match self.mail_agent(client, sender) {
            Err(step) => step,
            Ok(agent) => StepView::Wait(AskView::StoreCommit { agent, ids }),
        }
    }

    pub open spec fn mail_release(
        self,
        client: u64,
        ids: Seq<Seq<char>>,
        sender: Option<Result<Seq<char>, Seq<char>>>,
    ) -> StepView {
        match self.mail_agent(client, sender) {
            Err(step) => step,
            Ok(agent) => StepView::Wait(AskView::StoreRelease { agent, ids }),
        }
    }

    pub open spec fn mail_inbox(
        self,
        client: u64,
        sender: Option<Result<Seq<char>, Seq<char>>>,
    ) -> StepView {
        match self.mail_agent(client, sender) {
            Err(step) => step,
            Ok(agent) => StepView::Wait(AskView::StoreDepth { agent }),
        }
    }

    /// Register a shorthand for the client's agent.
    pub open spec fn mail_alias(
        self,
        client: u64,
        name: Seq<char>,
        sender: Option<Result<Seq<char>, Seq<char>>>,
        address: Option<AddressView>,
    ) -> (PlaneView, StepView) {
        match self.mail_agent(client, sender) {
            Err(step) => (self, step),
            Ok(agent) => match address {
                None => (self, StepView::Wait(AskView::Seat { name })),
                Some(AddressView::Invalid { error }) => (
                    self,
                    refusal(
                        plain_error(
                            ControlErrorCode::InvalidRequest,
                            "alias "@ + debug_text(name) + (" is not an agent-id charset name: "@
                                + error),
                        ),
                    ),
                ),
                Some(AddressView::Failed { name: n, error }) => if self.domain.agent_taken(n, 0) {
                    (self, alias_refusal(n, " is a bound agent id"@))
                } else {
                    (self, refusal(store_error_view(error)))
                },
                Some(AddressView::Found { name: n, resolved }) => if self.domain.agent_taken(n, 0) {
                    (self, alias_refusal(n, " is a bound agent id"@))
                } else if resolved != n && resolved != agent {
                    (self, alias_refusal(n, " is a retained mailbox address"@))
                } else if self.aliases.contains_key(n) && self.aliases[n] != agent {
                    (self, alias_refusal(n, " is taken"@))
                } else {
                    (
                        PlaneView { aliases: self.aliases.insert(n, agent), ..self },
                        StepView::Reply(Ok(DataView::MailAliased { name: n, agent })),
                    )
                },
            },
        }
    }
}

impl ControlPlane {
    fn check_identity(&self, client: u64) -> (r: Result<String, ControlError>)
        ensures
            checked(self@.identity_fault(client), r),
            r matches Ok(agent) ==> self@.clients[client].agent == Some(agent@),
    {
        let _ = self.require_active_client(client)?;
        let agent: Option<String> = match self.clients.get(client) {
            Some(c) => clone_option_text(&c.agent),
            None => None,
        };
        match agent {
            Some(agent) => Ok(agent),
            None => Err(
                ControlError::new(
                    ControlErrorCode::InvalidRequest,
                    "no agent identity: send MailHello first (pmux mail --as <agent>)",
                ),
            ),
        }
    }

    /// The agent that a client speaks for, or the step to take first.
    pub fn mail_agent(&self, client: u64, sender: &Option<Result<String, String>>) -> (r: Result<
        String,
        Step,
    >)
        ensures
            match self@.mail_agent(client, text_result(*sender)) {
                Ok(agent) => r matches Ok(name) && name@ == agent,
                Err(step) => r matches Err(s) && s@ == step,
            },
    {
        let name: String = match self.check_identity(client) {
            Ok(name) => name,
            Err(error) => {
                return Err(refuse(error));
            },
        };
        match sender {
            None => Err(Step::Wait(Ask::Resolve { name })),
            Some(Err(text)) => Err(refuse(mail_store_error(text.as_str()))),
            Some(Ok(agent)) => Ok(agent.clone()),
        }
    }

    pub fn mail_hello(&mut self, client: u64, agent: &str, address: &Option<Address>) -> (r: Step)
        requires
            old(self)@.wf(),
        ensures
            (final(self)@, r@) == old(self)@.mail_hello(client, agent@, option_view(*address)),
            final(self)@.wf(),
    {
        if let Err(error) = self.require_active_client(client) {
            return refuse(error);
        }
        match address {
            None => Step::Wait(Ask::Seat { name: String::from_str(agent) }),
            Some(Address::Invalid { error }) => refuse(
                ControlError::new(ControlErrorCode::InvalidRequest, error.as_str()),
            ),
            Some(Address::Failed { error, .. }) => refuse(mail_store_error(error.as_str())),
            Some(Address::Found { resolved, .. }) => {
                if let Some(mut c) = self.clients.remove(client) {
                    c.agent = Some(resolved.clone());
                    let _ = self.clients.insert(client, c);
                    assert(self@.clients =~= old(self)@.clients.insert(
                        client,
                        ClientView { agent: Some(resolved@), ..old(self)@.clients[client] },
                    ));
                }
                accept(ControlResponseData::MailSeated { agent: resolved.clone() })
            },
        }
    }

    pub fn mail_send(
        &self,
        client: u64,
        to: &str,
        summary: &str,
        body: &str,
        sender: &Option<Result<String, String>>,
        address: &Option<Address>,
        stored: &Option<Result<(String, u32), String>>,
    ) -> (r: Step)
        ensures
            r@ == self@.mail_send(
                client,
                to@,
                summary@,
                body@,
                text_result(*sender),
                option_view(*address),
                stored_view(*stored),
            ),
    {
        let from: String = match self.mail_agent(client, sender) {
            Ok(from) => from,
            Err(step) => {
                return step;
            },
        };
        let resolved: &String = match address {
            None => {
                let name: String = match self.aliases.owner(to) {
                    Some(owner) => owner,
                    None => String::from_str(to),
                };
                return Step::Wait(Ask::Recipient { name });
            },
            Some(Address::Failed { error, .. }) => {
                return refuse(mail_store_error(error.as_str()));
            },
            Some(Address::Invalid { error }) => {
                let shown: String = quoted(to);
                let tail: String = concat2(": ", error.as_str());
                let message: String = concat3("recipient ", shown.as_str(), tail.as_str());
                return refuse(
                    ControlError::new(ControlErrorCode::InvalidRequest, message.as_str()),
                );
            },
            Some(Address::Found { resolved, .. }) => resolved,
        };
        match stored {
            None => Step::Wait(
                Ask::StoreSend {
                    from,
                    to: resolved.clone(),
                    summary: String::from_str(summary),
                    body: String::from_str(body),
                },
            ),
            Some(Err(text)) => refuse(mail_store_error(text.as_str())),
            Some(Ok((id, depth))) => {
                let mut rings: Vec<Ring> = Vec::new();
                rings.push(Ring { agent: resolved.clone(), depth: *depth });
                assert(seq_views(rings@) =~= seq![BellView { agent: resolved@, depth: *depth }]);
                Step::Bells {
                    rings,
                    reply: ControlResponseData::MailSent { id: id.clone(), depth: *depth },
                }
            },
        }
    }

    pub fn mail_claim(&self, client: u64, sender: &Option<Result<String, String>>) -> (r: Step)
        ensures
            r@ == self@.mail_claim(client, text_result(*sender)),
    {
        match self.mail_agent(client, sender) {
            Ok(agent) => Step::Wait(Ask::StoreClaim { agent }),
            Err(step) => step,
        }
    }

    pub fn mail_commit(
        &self,
        client: u64,
        ids: &Vec<String>,
        sender: &Option<Result<String, String>>,
    ) -> (r: Step)
        ensures
            r@ == self@.mail_commit(client, seq_views(ids@), text_result(*sender)),
    {
        match self.mail_agent(client, sender) {
            Ok(agent) => Step::Wait(Ask::StoreCommit { agent, ids: copy_texts(ids) }),
            Err(step) => step,
        }
    }

    pub fn mail_release(
        &self,
        client: u64,
        ids: &Vec<String>,
        sender: &Option<Result<String, String>>,
    ) -> (r: Step)
        ensures
            r@ == self@.mail_release(client, seq_views(ids@), text_result(*sender)),
    {
        match self.mail_agent(client, sender) {
            Ok(agent) => Step::Wait(Ask::StoreRelease { agent, ids: copy_texts(ids) }),
            Err(step) => step,
        }
    }

    pub fn mail_inbox(&self, client: u64, sender: &Option<Result<String, String>>) -> (r: Step)
        ensures
            r@ == self@.mail_inbox(client, text_result(*sender)),
    {
        match self.mail_agent(client, sender) {
            Ok(agent) => Step::Wait(Ask::StoreDepth { agent }),
            Err(step) => step,
        }
    }

    /// Letters that the agent now holds, oldest first.
    pub fn mail_claimed(
        &mut self,
        agent: &str,
        letters: Result<Vec<Letter>, StoreFault>,
        open: Option<u32>,
        now: u64,
    ) -> (r: Result<ControlResponseData, ControlError>)
        requires
            old(self)@.wf(),
        ensures
            match letters {
                Err(fault) => final(self)@ == old(self)@ && (r matches Err(e) && e@
                    == store_fault_view(fault@)),
                Ok(letters) => final(self)@ == old(self)@.refresh_mail(agent@, open, now) && (
                r matches Ok(data) && data@ == (DataView::MailLetters { letters: letters@ })),
            },
            final(self)@.wf(),
    {
        match letters {
            Err(fault) => Err(store_fault_error(&fault)),
            Ok(letters) => {
                self.refresh_mail_attention(agent, open, now);
                Ok(ControlResponseData::MailLetters { letters })
            },
        }
    }

    pub fn mail_committed(
        &mut self,
        agent: &str,
        committed: Result<u32, StoreFault>,
        open: Option<u32>,
        now: u64,
    ) -> (r: Result<ControlResponseData, ControlError>)
        requires
            old(self)@.wf(),
        ensures
            match committed {
                Err(fault) => final(self)@ == old(self)@ && (r matches Err(e) && e@
                    == store_fault_view(fault@)),
                Ok(n) => final(self)@ == old(self)@.refresh_mail(agent@, open, now) && (
                r matches Ok(data) && data@ == (DataView::MailCommitted { committed: n })),
            },
            final(self)@.wf(),
    {
        match committed {
            Err(fault) => Err(store_fault_error(&fault)),
            Ok(committed) => {
                self.refresh_mail_attention(agent, open, now);
                Ok(ControlResponseData::MailCommitted { committed })
            },
        }
    }

    pub fn mail_released(
        &mut self,
        agent: &str,
        released: Result<u32, StoreFault>,
        open: Option<u32>,
        now: u64,
    ) -> (r: Result<ControlResponseData, ControlError>)
        requires
            old(self)@.wf(),
        ensures
            match released {
                Err(fault) => final(self)@ == old(self)@ && (r matches Err(e) && e@
                    == store_fault_view(fault@)),
                Ok(n) => final(self)@ == old(self)@.refresh_mail(agent@, open, now) && (
                r matches Ok(data) && data@ == (DataView::MailReleased { released: n })),
            },
            final(self)@.wf(),
    {
        match released {
            Err(fault) => Err(store_fault_error(&fault)),
            Ok(released) => {
                self.refresh_mail_attention(agent, open, now);
                Ok(ControlResponseData::MailReleased { released })
            },
        }
    }

    /// A look into the inbox. It ends the retries of the doorbell.
    pub fn mail_peeked(&mut self, agent: &str, counted: Result<(u32, u32), StoreFault>) -> (r:
        Result<ControlResponseData, ControlError>)
        requires
            old(self)@.wf(),
        ensures
            match counted {
                Err(fault) => final(self)@ == old(self)@ && (r matches Err(e) && e@
                    == depth_fault_view(fault@)),
                Ok((open, held)) => final(self)@ == old(self)@.cancel_nudge(agent@) && (
                r matches Ok(data) && data@ == (DataView::MailDepth { open, held })),
            },
            final(self)@.wf(),
    {
        let (open, held): (u32, u32) = mail_depth_for(counted)?;
        self.cancel_mail_nudge_for_agent(agent);
        Ok(ControlResponseData::MailDepth { open, held })
    }

    pub fn mail_alias(
        &mut self,
        client: u64,
        name: &str,
        sender: &Option<Result<String, String>>,
        address: &Option<Address>,
    ) -> (r: Step)
        requires
            old(self)@.wf(),
        ensures
            (final(self)@, r@) == old(self)@.mail_alias(
                client,
                name@,
                text_result(*sender),
                option_view(*address),
            ),
            final(self)@.wf(),
    {
        let agent: String = match self.mail_agent(client, sender) {
            Ok(agent) => agent,
            Err(step) => {
                return step;
            },
        };
        match address {
            None => Step::Wait(Ask::Seat { name: String::from_str(name) }),
            Some(Address::Invalid { error }) => {
                let shown: String = quoted(name);
                let tail: String = concat2(" is not an agent-id charset name: ", error.as_str());
                let message: String = concat3("alias ", shown.as_str(), tail.as_str());
                refuse(ControlError::new(ControlErrorCode::InvalidRequest, message.as_str()))
            },
            Some(Address::Failed { name: n, error }) => {
                if self.domain.agent_taken(n.as_str(), 0) {
                    return refuse_alias(n.as_str(), " is a bound agent id");
                }
                refuse(mail_store_error(error.as_str()))
            },
            Some(Address::Found { name: n, resolved }) => {
                if self.domain.agent_taken(n.as_str(), 0) {
                    return refuse_alias(n.as_str(), " is a bound agent id");
                }
                if !same_text(resolved.as_str(), n.as_str()) && !same_text(
                    resolved.as_str(),
                    agent.as_str(),
                ) {
                    return refuse_alias(n.as_str(), " is a retained mailbox address");
                }
                let taken: bool = match self.aliases.owner(n.as_str()) {
                    Some(owner) => !same_text(owner.as_str(), agent.as_str()),
                    None => false,
                };
                if taken {
                    return refuse_alias(n.as_str(), " is taken");
                }
                self.aliases.insert(n.as_str(), agent.as_str());
                accept(ControlResponseData::MailAliased { name: n.clone(), agent })
            },
        }
    }
}

/// A stored letter taken by view.
pub open spec fn stored_view(r: Option<Result<(String, u32), String>>) -> Option<
    Result<(Seq<char>, u32), Seq<char>>,
> {
    match r {
        None => None,
        Some(Ok((id, depth))) => Some(Ok((id@, depth))),
        Some(Err(text)) => Some(Err(text@)),
    }
}

pub fn copy_texts(v: &Vec<String>) -> (r: Vec<String>)
    ensures
        seq_views(r@) == seq_views(v@),
{
    let mut r: Vec<String> = Vec::new();
    let mut i: usize = 0;
    while i < v.len()
        invariant
            i <= v@.len(),
            r@.len() == i,
            forall|k: int| 0 <= k < i ==> (#[trigger] r@[k])@ == v@[k]@,
        decreases v@.len() - i,
    {
        r.push(v[i].clone());
        i = i + 1;
    }
    assert(seq_views(r@) =~= seq_views(v@));
    r
}

impl PlaneView {
    /// An alias stays with the agent that has it.
    pub proof fn aliases_keep_their_owner(
        self,
        client: u64,
        name: Seq<char>,
        sender: Option<Result<Seq<char>, Seq<char>>>,
        address: Option<AddressView>,
        alias: Seq<char>,
    )
        requires
            self.aliases.contains_key(alias),
        ensures
            ({
                let after = self.mail_alias(client, name, sender, address).0;
                after.aliases.contains_key(alias) && after.aliases[alias] == self.aliases[alias]
            }),
    {
    }
}

} // verus!
