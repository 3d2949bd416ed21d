//! One request: the checks that every request passes, and where each one goes.
use vstd::prelude::*;
use vstd::string::*;

use crate::attention::text_result;
use crate::error::{plain_error, ControlError, ControlErrorCode, ErrorView, LiveWriteError};
use crate::event::option_text;
use crate::idmap::{group_views, IdMap};
use crate::leases::mint_error_view;
use crate::mailbox::{stored_view, Address, StoreFault};
use crate::model::{group_seq_views, option_view, seq_views};
use crate::panes::{lived_view, Lived, Placed};
use crate::plane::{first_fault, ControlPlane, PlaneView};
use crate::request::ControlRequest;
use crate::response::{ControlResponse, ControlResponseData, DataView, ResponseView};
use crate::roster::{renamed_view, reserved_list, sent_view};
use crate::sessions::{resolved_view, Resolved};
use crate::sizes::{report_size, reported_size};
use crate::state::group_pane_states;
use crate::step::{accept, refusal, refuse, Step, StepView};
use crate::text::{concat2, concat3, decimal, decimal_text};
use crate::wire::{
    InjectAgent, MailAttentionState, MailAttentionView, ViewerId, Viewport,
    PROTOCOL_VERSION,
};
use crate::writes::ChunkReport;

verus! {

broadcast use {group_views, group_seq_views, group_pane_states};

/// What the host knows when a request comes in.
#[derive(Debug)]
pub struct Facts {
    /// Milliseconds since the Unix epoch.
    pub now: u64,
    /// Process id of the server.
    pub pid: u32,
    pub package_version: String,
    /// Process id of the child of each pane that runs one.
    pub pids: IdMap<u32>,
    /// Modifier bits that structured input may carry.
    pub modifier_mask: u8,
    /// Bytes that submit a prompt in the Cursor agent.
    pub cursor_submit: Vec<u8>,
}

/// What the host has answered to the asks of one request so far.
#[derive(Debug)]
pub struct Answers {
    pub placed: Placed,
    pub lived: Lived,
    pub written: Option<Result<(), LiveWriteError>>,
    pub agent: Option<InjectAgent>,
    pub chunks: Option<ChunkReport>,
    pub token: Option<Result<String, String>>,
    pub record_host: Option<bool>,
    pub size: Option<Option<Viewport>>,
    pub space_valid: Option<bool>,
    pub resolved: Option<Resolved>,
    pub sender: Option<Result<String, String>>,
    pub address: Option<Address>,
    pub stored: Option<Result<(String, u32), String>>,
    pub sent: Option<Result<(u32, Vec<u32>), StoreFault>>,
    pub reserved: Option<Result<Vec<String>, String>>,
    pub renamed: Option<Result<Option<u32>, String>>,
}

impl Answers {
    /// Nothing asked yet.
    pub fn blank() -> (a: Self)
        ensures
            a == blank_answers(),
    {
        Answers {
            placed: None,
            lived: None,
            written: None,
            agent: None,
            chunks: None,
            token: None,
            record_host: None,
            size: None,
            space_valid: None,
            resolved: None,
            sender: None,
            address: None,
            stored: None,
            sent: None,
            reserved: None,
            renamed: None,
        }
    }
}

pub open spec fn blank_answers() -> Answers {
    Answers {
        placed: None,
        lived: None,
        written: None,
        agent: None,
        chunks: None,
        token: None,
        record_host: None,
        size: None,
        space_valid: None,
        resolved: None,
        sender: None,
        address: None,
        stored: None,
        sent: None,
        reserved: None,
        renamed: None,
    }
}

/// A response to send, or work for the host that comes before it.
#[derive(Debug, PartialEq)]
pub enum Handled {
    Respond(ControlResponse),
    Work(Step),
}

#[verifier::ext_equal]
pub enum HandledView {
    Respond(ResponseView),
    Work(StepView),
}

impl View for Handled {
    type V = HandledView;

    open spec fn view(&self) -> HandledView {
        match *self {
            Handled::Respond(response) => HandledView::Respond(response@),
            Handled::Work(step) => HandledView::Work(step@),
        }
    }
}

/// A settled request.
pub open spec fn settled(p: (PlaneView, Result<DataView, ErrorView>)) -> (PlaneView, StepView) {
    (p.0, StepView::Reply(p.1))
}

pub open spec fn response(request_id: u64, body: Result<DataView, ErrorView>) -> HandledView {
    HandledView::Respond(ResponseView { version: PROTOCOL_VERSION, request_id, body })
}

pub open spec fn wrong_version(version: u16) -> ErrorView {
    plain_error(
        ControlErrorCode::IncompatibleVersion,
        "protocol "@ + decimal(version as nat) + " is incompatible with "@ + decimal(
            PROTOCOL_VERSION as nat,
        ),
    )
}

impl PlaneView {
    /// Why a request is refused before it is looked at.
    pub open spec fn header_fault(self, request: ControlRequest) -> Option<ErrorView> {
        let (version, request_id) = request.spec_header();
        if request_id == 0 {
            Some(plain_error(ControlErrorCode::InvalidRequest, "request_id must be non-zero"@))
        } else if version != PROTOCOL_VERSION {
            Some(wrong_version(version))
        } else if self.shutdown_pending {
            Some(plain_error(ControlErrorCode::InvalidRequest, "daemon is shutting down"@))
        } else {
            None
        }
    }

    /// The doorbell is for a known client and a known pane.
    pub open spec fn inject_request(
        self,
        client: u64,
        pane: u64,
        queue_rev: u64,
        attempts: u32,
    ) -> StepView {
        match first_fault(self.client_fault(client), self.pane_fault(pane)) {
            Some(fault) => refusal(fault),
            None => StepView::Inject { client, pane, queue_rev, attempts },
        }
    }

    /// What a request that passed the checks comes to. `identity` is the viewer
    /// identity that was drawn for a new client, or why none could be drawn.
    pub open spec fn dispatch(
        self,
        request: ControlRequest,
        answers: Answers,
        facts: Facts,
        identity: Result<ViewerId, Seq<char>>,
    ) -> (PlaneView, StepView) {
        match request {
            ControlRequest::ServerInfo { .. } => (
                self,
                StepView::Reply(
                    Ok(
                        DataView::ServerInfo {
                            package_version: facts.package_version@,
                            pid: facts.pid,
                        },
                    ),
                ),
            ),
            ControlRequest::Ping { .. } => (self, StepView::Reply(Ok(DataView::Pong))),
            ControlRequest::Snapshot { .. } => (
                self,
                StepView::Reply(
                    Ok(DataView::Snapshot { snapshot: self.snapshot(facts.pids@, facts.now) }),
                ),
            ),
            ControlRequest::Events { after_sequence, limit, .. } => (
                self,
                match self.ring.replay_fault(after_sequence, limit) {
                    Some(fault) => refusal(fault),
                    None => StepView::Reply(
                        Ok(DataView::Events { batch: self.ring.batch(after_sequence, limit) }),
                    ),
                },
            ),
            ControlRequest::SubscribePane { .. } => (
                self,
                refusal(
                    plain_error(
                        ControlErrorCode::Internal,
                        "SubscribePane is served on the client thread, never under the plane lock"@,
                    ),
                ),
            ),
            ControlRequest::Split {
                window_id,
                target_pane_id,
                axis,
                ratio_bits,
                spawn,
                client_id,
                ..
            } => self.split(
                window_id,
                target_pane_id,
                axis,
                ratio_bits,
                spawn@,
                client_id,
                answers.placed,
                lived_view(answers.lived),
            ),
            ControlRequest::Close {
                window_id,
                pane_id,
                prior_focus_id,
                client_id,
                ..
            } => self.close(
                window_id,
                pane_id,
                prior_focus_id,
                client_id,
                answers.placed,
                lived_view(answers.lived),
            ),
            ControlRequest::Resize {
                window_id,
                cols,
                rows,
                cell_width_px,
                cell_height_px,
                client_id,
                fit,
                host,
                ..
            } => self.resize(
                window_id,
                reported_size(cols, rows, cell_width_px, cell_height_px),
                client_id,
                fit,
                host,
                answers.record_host,
                answers.size,
                answers.placed,
                lived_view(answers.lived),
            ),
            ControlRequest::SuggestFocus {
                window_id,
                pane_id,
                reason,
                ..
            } => settled(self.suggest_focus(window_id, pane_id, option_text(reason))),
            ControlRequest::ReportFocus {
                client_id,
                window_id,
                pane_id,
                ..
            } => settled(self.report_focus(client_id, window_id, pane_id, facts.now)),
            ControlRequest::RaiseAttention {
                client_id,
                pane_id,
                message,
                ..
            } => self.raise_step(client_id, pane_id, message@, text_result(answers.token), facts.now),
            ControlRequest::AttentionRequests {
                client_id,
                ..
            } => settled(self.list_attention(client_id)),
            ControlRequest::UpdateAttention {
                client_id,
                pane_id,
                revision,
                expected_space,
                expected_session,
                action,
                ..
            } => settled(
                self.update_team_attention(
                    client_id,
                    pane_id,
                    revision,
                    expected_space@,
                    expected_session,
                    action,
                    facts.now,
                ),
            ),
            ControlRequest::MailAttentionSet {
                client_id,
                pane_id,
                cell,
                gen,
                queue_rev,
                depth,
                wake,
                bound_pid,
                ..
            } => settled(
                self.set_mail_attention(
                    client_id,
                    pane_id,
                    MailAttentionView {
                        pane_id,
                        cell: cell@,
                        gen,
                        queue_rev,
                        depth,
                        wake,
                        bound_pid,
                    },
                    facts.now,
                ),
            ),
            ControlRequest::MailAttentionClear {
                client_id,
                pane_id,
                queue_rev,
                ..
            } => settled(self.clear_mail_attention(client_id, pane_id, queue_rev, facts.now)),
            ControlRequest::InjectMail {
                client_id,
                pane_id,
                queue_rev,
                remaining_attempts,
                ..
            } => (self, self.inject_request(client_id, pane_id, queue_rev, remaining_attempts)),
            ControlRequest::MailHello {
                client_id,
                agent,
                ..
            } => self.mail_hello(client_id, agent@, option_view(answers.address)),
            ControlRequest::MailSend { client_id, to, summary, body, .. } => (
                self,
                self.mail_send(
                    client_id,
                    to@,
                    summary@,
                    body@,
                    text_result(answers.sender),
                    option_view(answers.address),
                    stored_view(answers.stored),
                ),
            ),
            ControlRequest::MailClaim {
                client_id,
                ..
            } => (self, self.mail_claim(client_id, text_result(answers.sender))),
            ControlRequest::MailCommit {
                client_id,
                ids,
                ..
            } => (self, self.mail_commit(client_id, seq_views(ids@), text_result(answers.sender))),
            ControlRequest::MailRelease {
                client_id,
                ids,
                ..
            } => (self, self.mail_release(client_id, seq_views(ids@), text_result(answers.sender))),
            ControlRequest::MailInbox {
                client_id,
                ..
            } => (self, self.mail_inbox(client_id, text_result(answers.sender))),
            ControlRequest::MailWait { .. } => (
                self,
                refusal(
                    plain_error(
                        ControlErrorCode::Internal,
                        "MailWait is served on the client thread, never under the plane lock"@,
                    ),
                ),
            ),
            ControlRequest::MailWho { client_id, .. } => (self, self.mail_who(client_id)),
            ControlRequest::MailAlias { client_id, name, .. } => self.mail_alias(
                client_id,
                name@,
                text_result(answers.sender),
                option_view(answers.address),
            ),
            ControlRequest::MailBroadcast { client_id, summary, body, .. } => (
                self,
                self.mail_broadcast(
                    client_id,
                    summary@,
                    body@,
                    text_result(answers.sender),
                    sent_view(answers.sent),
                ),
            ),
            ControlRequest::RichFocusToggle {
                client_id,
                pane_id,
                revoke,
                ..
            } => (self, self.rich_focus_toggle(client_id, pane_id, revoke)),
            ControlRequest::RichInput {
                client_id,
                pane_id,
                input,
                ..
            } => (self, self.rich_input(client_id, pane_id, input, facts.modifier_mask)),
            ControlRequest::CopySemantic {
                client_id,
                pane_id,
                seq,
                ..
            } => (self, self.copy_semantic(client_id, pane_id, seq)),
            ControlRequest::RegisterClient { .. } => match identity {
                Ok(viewer) => settled(self.register(viewer)),
                Err(text) => (self, refusal(mint_error_view(text))),
            },
            ControlRequest::AcquireLease {
                client_id,
                pane_id,
                ..
            } => settled(self.acquire_lease(client_id, pane_id)),
            ControlRequest::ReleaseLease {
                client_id,
                pane_id,
                ..
            } => settled(self.release_lease(client_id, pane_id)),
            ControlRequest::TakeoverLease {
                client_id,
                pane_id,
                ..
            } => settled(self.takeover_lease(client_id, pane_id)),
            ControlRequest::DisconnectClient { client_id, .. } => self.disconnect(client_id),
            ControlRequest::WritePane {
                client_id,
                pane_id,
                data,
                ..
            } => self.write_pane(client_id, pane_id, data@, answers.written, facts.now),
            ControlRequest::PaneWrite {
                client_id,
                pane_id,
                expected_child_pid,
                data,
                submit,
                ..
            } => self.pane_write(
                client_id,
                pane_id,
                expected_child_pid,
                data@,
                submit,
                self.child_of(pane_id, facts.pids@),
                answers.agent,
                facts.cursor_submit@,
                answers.chunks,
                facts.now,
            ),
            ControlRequest::ReadPane {
                client_id,
                pane_id,
                ..
            } => (self, self.read_pane(client_id, pane_id)),
            ControlRequest::ReadPaneStyled {
                client_id,
                pane_id,
                view_offset,
                ..
            } => (self, self.read_pane_styled(client_id, pane_id, view_offset)),
            ControlRequest::CreateSession {
                name,
                spawn,
                cols,
                rows,
                agent_id,
                headless,
                ..
            } => self.create_session(
                name@,
                spawn@,
                cols,
                rows,
                option_text(agent_id),
                headless,
                resolved_view(answers.resolved),
                answers.placed,
                lived_view(answers.lived),
            ),
            ControlRequest::SetClientSpace {
                client_id,
                space_id,
                ..
            } => self.set_client_space(client_id, space_id@, answers.space_valid),
            ControlRequest::TransferSpaceSessions { session_ids, from, to, .. } => settled(
                self.transfer_sessions(session_ids@, option_text(from), option_text(to)),
            ),
            ControlRequest::TransferSpacePane {
                pane_id,
                to_session_id,
                from_space,
                to_space,
                ..
            } => self.transfer_pane(
                pane_id,
                to_session_id,
                from_space@,
                to_space@,
                answers.placed,
                lived_view(answers.lived),
            ),
            ControlRequest::SessionNames { .. } => (self, self.session_names(reserved_list(answers.reserved))),
            ControlRequest::NameSession { session_id, name, .. } => self.name_session(
                session_id,
                name@,
                option_view(answers.address),
                renamed_view(answers.renamed),
                facts.now,
            ),
            ControlRequest::SwitchSession {
                client_id,
                session_id,
                ..
            } => settled(self.switch_session(client_id, session_id)),
            ControlRequest::DestroySession {
                session_id,
                ..
            } => settled(self.destroy_session(session_id)),
            ControlRequest::ShutdownServer { client_id, .. } => (
                self,
                match self.client_fault(client_id) {
                    Some(fault) => refusal(fault),
                    None => StepView::Reply(Ok(DataView::ShutdownAccepted)),
                },
            ),
            ControlRequest::ShutdownIdle {
                client_id,
                ..
            } => settled(self.shutdown_idle(client_id)),
            ControlRequest::CreateWindow {
                session_id,
                title,
                spawn,
                cols,
                rows,
                ..
            } => self.create_window(
                session_id,
                title@,
                spawn@,
                cols,
                rows,
                answers.placed,
                lived_view(answers.lived),
            ),
            ControlRequest::DestroyWindow {
                window_id,
                ..
            } => settled(self.destroy_window(window_id)),
            ControlRequest::MovePane {
                from_window_id,
                to_window_id,
                pane_id,
                target_pane_id,
                axis,
                ratio_bits,
                client_id,
                ..
            } => self.move_pane(
                from_window_id,
                to_window_id,
                pane_id,
                target_pane_id,
                axis,
                ratio_bits,
                client_id,
                answers.placed,
                lived_view(answers.lived),
            ),
            ControlRequest::ApplyArrangement {
                window_id,
                kind,
                focused_pane_id,
                ..
            } => self.arrange(
                window_id,
                kind,
                focused_pane_id,
                answers.placed,
                lived_view(answers.lived),
            ),
            ControlRequest::SwitchWindow {
                client_id,
                window_id,
                ..
            } => settled(self.switch_window(client_id, window_id)),
            ControlRequest::RenameWindow {
                window_id,
                title,
                ..
            } => settled(self.rename_window(window_id, title@)),
            ControlRequest::SetSyncInput {
                client_id,
                window_id,
                enabled,
                ..
            } => settled(self.set_sync_input(client_id, window_id, enabled)),
            ControlRequest::SetPaneStatus {
                pane_id,
                text,
                ..
            } => settled(self.set_pane_status(pane_id, option_text(text))),
            ControlRequest::RenamePane {
                pane_id,
                title,
                ..
            } => settled(self.rename_pane(pane_id, title@)),
        }
    }

    /// What a request comes to.
    pub open spec fn handled(
        self,
        request: ControlRequest,
        answers: Answers,
        facts: Facts,
        identity: Result<ViewerId, Seq<char>>,
    ) -> (PlaneView, HandledView) {
        let request_id = request.spec_header().1;
        match self.header_fault(request) {
            Some(fault) => (self, response(request_id, Err(fault))),
            None => match self.dispatch(request, answers, facts, identity) {
                (after, StepView::Reply(body)) => (after, response(request_id, body)),
                (after, step) => (after, HandledView::Work(step)),
            },
        }
    }
}

pub fn version_error(version: u16) -> (e: ControlError)
    ensures
        e@ == wrong_version(version),
{
    let theirs: String = decimal_text(version as u64);
    let ours: String = decimal_text(PROTOCOL_VERSION as u64);
    let head: String = concat3("protocol ", theirs.as_str(), " is incompatible with ");
    let message: String = concat2(head.as_str(), ours.as_str());
    ControlError::new(ControlErrorCode::IncompatibleVersion, message.as_str())
}

impl ControlPlane {
    fn check_header(&self, version: u16, request_id: u64) -> (r: Result<(), ControlError>)
        ensures
            forall|request: ControlRequest|
                #![trigger self@.header_fault(request)]
                request.spec_header() == (version, request_id) ==> match self@.header_fault(
                    request,
                ) {
                    Some(fault) => r matches Err(e) && e@ == fault,
                    None => r is Ok,
                },
    {
        if request_id == 0 {
            return Err(
                ControlError::new(ControlErrorCode::InvalidRequest, "request_id must be non-zero"),
            );
        }
        if version != PROTOCOL_VERSION {
            return Err(version_error(version));
        }
        if self.shutdown_pending {
            return Err(
                ControlError::new(ControlErrorCode::InvalidRequest, "daemon is shutting down"),
            );
        }
        Ok(())
    }

    /// Serve one request. Where the host is to do something first, serve the same
    /// request again with its answer.
    pub fn handle(&mut self, request: &ControlRequest, answers: &Answers, facts: &Facts) -> (r:
        Handled)
        requires
            old(self)@.wf(),
        ensures
            exists|identity: Result<ViewerId, Seq<char>>|
                (final(self)@, r@) == #[trigger] old(self)@.handled(
                    *request,
                    *answers,
                    *facts,
                    identity,
                ),
            final(self)@.wf(),
    {
        let (version, request_id) = request.header();
        let ghost before = self@;
        if let Err(error) = self.check_header(version, request_id) {
            let r = Handled::Respond(ControlResponse::error(request_id, error));
            proof {
                let identity: Result<ViewerId, Seq<char>> = Err(Seq::empty());
                assert(before.header_fault(*request) is Some);
                assert((self@, r@) == before.handled(*request, *answers, *facts, identity));
            }
            return r;
        }
        let step: Step = self.handle_compatible(request, answers, facts);
        let ghost identity = choose|identity: Result<ViewerId, Seq<char>>|
            (self@, step@) == #[trigger] before.dispatch(*request, *answers, *facts, identity);
        let r: Handled = match step {
            Step::Reply(result) => Handled::Respond(
                ControlResponse::from_result(request_id, result),
            ),
            work => Handled::Work(work),
        };
        proof {
            assert(before.header_fault(*request) is None);
            assert((self@, r@) == before.handled(*request, *answers, *facts, identity));
        }
        r
    }

    fn apply_mail_inject(&self, client: u64, pane: u64, queue_rev: u64, attempts: u32) -> (r: Step)
        ensures
            r@ == self@.inject_request(client, pane, queue_rev, attempts),
    {
        if let Err(error) = self.require_active_client(client) {
            return refuse(error);
        }
        if let Err(error) = self.require_pane(pane) {
            return refuse(error);
        }
        Step::Inject { client, pane, queue_rev, attempts }
    }

    /// Serve a request whose header is in order.
    #[verifier::rlimit(100)]
    pub fn handle_compatible(
        &mut self,
        request: &ControlRequest,
        answers: &Answers,
        facts: &Facts,
    ) -> (r: Step)
        requires
            old(self)@.wf(),
        ensures
            exists|identity: Result<ViewerId, Seq<char>>|
                (final(self)@, r@) == #[trigger] old(self)@.dispatch(
                    *request,
                    *answers,
                    *facts,
                    identity,
                ),
            final(self)@.wf(),
    {
        let ghost before = self@;
        let r: Step = match request {
            ControlRequest::ServerInfo { .. } => accept(
                ControlResponseData::ServerInfo {
                    package_version: facts.package_version.clone(),
                    pid: facts.pid,
                },
            ),
            ControlRequest::Ping { .. } => accept(ControlResponseData::Pong),
            ControlRequest::Snapshot { .. } => match self.snapshot(&facts.pids, facts.now) {
                Ok(snapshot) => accept(ControlResponseData::Snapshot { snapshot }),
                Err(error) => refuse(error),
            },
            ControlRequest::Events {
                after_sequence,
                limit,
                ..
            } => match self.ring.events_after(*after_sequence, *limit) {
                Ok(batch) => accept(ControlResponseData::Events { batch }),
                Err(error) => refuse(error),
            },
            ControlRequest::SubscribePane { .. } => refuse(
                ControlError::new(
                    ControlErrorCode::Internal,
                    "SubscribePane is served on the client thread, never under the plane lock",
                ),
            ),
            ControlRequest::Split {
                window_id,
                target_pane_id,
                axis,
                ratio_bits,
                spawn,
                client_id,
                ..
            } => self.split(
                *window_id,
                *target_pane_id,
                *axis,
                *ratio_bits,
                spawn,
                *client_id,
                &answers.placed,
                &answers.lived,
            ),
            ControlRequest::Close {
                window_id,
                pane_id,
                prior_focus_id,
                client_id,
                ..
            } => self.close(
                *window_id,
                *pane_id,
                *prior_focus_id,
                *client_id,
                &answers.placed,
                &answers.lived,
            ),
            ControlRequest::Resize {
                window_id,
                cols,
                rows,
                cell_width_px,
                cell_height_px,
                client_id,
                fit,
                host,
                ..
            } => {
                let reported: Viewport = report_size(*cols, *rows, *cell_width_px, *cell_height_px);
                self.resize(
                    *window_id,
                    reported,
                    *client_id,
                    *fit,
                    *host,
                    answers.record_host,
                    answers.size,
                    &answers.placed,
                    &answers.lived,
                )
            },
            ControlRequest::SuggestFocus {
                window_id,
                pane_id,
                reason,
                ..
            } => Step::Reply(self.suggest_focus(*window_id, *pane_id, reason)),
            ControlRequest::ReportFocus {
                client_id,
                window_id,
                pane_id,
                ..
            } => Step::Reply(self.report_focus(*client_id, *window_id, *pane_id, facts.now)),
            ControlRequest::RaiseAttention {
                client_id,
                pane_id,
                message,
                ..
            } => self.raise_attention(*client_id, *pane_id, message.as_str(), &answers.token, facts.now),
            ControlRequest::AttentionRequests {
                client_id,
                ..
            } => Step::Reply(self.attention_requests(*client_id)),
            ControlRequest::UpdateAttention {
                client_id,
                pane_id,
                revision,
                expected_space,
                expected_session,
                action,
                ..
            } => Step::Reply(
                self.update_team_attention(
                    *client_id,
                    *pane_id,
                    *revision,
                    expected_space.as_str(),
                    *expected_session,
                    *action,
                    facts.now,
                ),
            ),
            ControlRequest::MailAttentionSet {
                client_id,
                pane_id,
                cell,
                gen,
                queue_rev,
                depth,
                wake,
                bound_pid,
                ..
            } => {
                let mail = MailAttentionState {
                    pane_id: *pane_id,
                    cell: cell.clone(),
                    gen: *gen,
                    queue_rev: *queue_rev,
                    depth: *depth,
                    wake: *wake,
                    bound_pid: *bound_pid,
                };
                Step::Reply(self.apply_mail_attention_set(*client_id, *pane_id, mail, facts.now))
            },
            ControlRequest::MailAttentionClear { client_id, pane_id, queue_rev, .. } => Step::Reply(
                self.apply_mail_attention_clear(*client_id, *pane_id, *queue_rev, facts.now),
            ),
            ControlRequest::InjectMail {
                client_id,
                pane_id,
                queue_rev,
                remaining_attempts,
                ..
            } => self.apply_mail_inject(*client_id, *pane_id, *queue_rev, *remaining_attempts),
            ControlRequest::MailHello {
                client_id,
                agent,
                ..
            } => self.mail_hello(*client_id, agent.as_str(), &answers.address),
            ControlRequest::MailSend { client_id, to, summary, body, .. } => self.mail_send(
                *client_id,
                to.as_str(),
                summary.as_str(),
                body.as_str(),
                &answers.sender,
                &answers.address,
                &answers.stored,
            ),
            ControlRequest::MailClaim {
                client_id,
                ..
            } => self.mail_claim(*client_id, &answers.sender),
            ControlRequest::MailCommit {
                client_id,
                ids,
                ..
            } => self.mail_commit(*client_id, ids, &answers.sender),
            ControlRequest::MailRelease {
                client_id,
                ids,
                ..
            } => self.mail_release(*client_id, ids, &answers.sender),
            ControlRequest::MailInbox {
                client_id,
                ..
            } => self.mail_inbox(*client_id, &answers.sender),
            ControlRequest::MailWait { .. } => refuse(
                ControlError::new(
                    ControlErrorCode::Internal,
                    "MailWait is served on the client thread, never under the plane lock",
                ),
            ),
            ControlRequest::MailWho { client_id, .. } => self.mail_who(*client_id),
            ControlRequest::MailAlias {
                client_id,
                name,
                ..
            } => self.mail_alias(*client_id, name.as_str(), &answers.sender, &answers.address),
            ControlRequest::MailBroadcast { client_id, summary, body, .. } => self.mail_broadcast(
                *client_id,
                summary.as_str(),
                body.as_str(),
                &answers.sender,
                &answers.sent,
            ),
            ControlRequest::RichFocusToggle {
                client_id,
                pane_id,
                revoke,
                ..
            } => self.rich_focus_toggle(*client_id, *pane_id, *revoke),
            ControlRequest::RichInput {
                client_id,
                pane_id,
                input,
                ..
            } => self.rich_input(*client_id, *pane_id, input, facts.modifier_mask),
            ControlRequest::CopySemantic {
                client_id,
                pane_id,
                seq,
                ..
            } => self.copy_semantic(*client_id, *pane_id, *seq),
            ControlRequest::RegisterClient { .. } => Step::Reply(self.register_client()),
            ControlRequest::AcquireLease {
                client_id,
                pane_id,
                ..
            } => Step::Reply(self.acquire_lease(*client_id, *pane_id)),
            ControlRequest::ReleaseLease {
                client_id,
                pane_id,
                ..
            } => Step::Reply(self.release_lease(*client_id, *pane_id)),
            ControlRequest::TakeoverLease {
                client_id,
                pane_id,
                ..
            } => Step::Reply(self.takeover_lease(*client_id, *pane_id)),
            ControlRequest::DisconnectClient {
                client_id,
                ..
            } => self.disconnect_client(*client_id),
            ControlRequest::WritePane {
                client_id,
                pane_id,
                data,
                ..
            } => self.write_pane(*client_id, *pane_id, data.as_str(), answers.written, facts.now),
            ControlRequest::PaneWrite {
                client_id,
                pane_id,
                expected_child_pid,
                data,
                submit,
                ..
            } => {
                let pid: Option<u32> = self.child_pid(*pane_id, &facts.pids);
                self.intentional_pane_write(
                    *client_id,
                    *pane_id,
                    *expected_child_pid,
                    data.as_str(),
                    *submit,
                    pid,
                    answers.agent,
                    &facts.cursor_submit,
                    answers.chunks,
                    facts.now,
                )
            },
            ControlRequest::ReadPane {
                client_id,
                pane_id,
                ..
            } => self.read_pane(*client_id, *pane_id),
            ControlRequest::ReadPaneStyled {
                client_id,
                pane_id,
                view_offset,
                ..
            } => self.read_pane_styled(*client_id, *pane_id, *view_offset),
            ControlRequest::CreateSession {
                name,
                spawn,
                cols,
                rows,
                agent_id,
                headless,
                ..
            } => self.create_session(
                name.as_str(),
                spawn,
                *cols,
                *rows,
                agent_id,
                *headless,
                &answers.resolved,
                &answers.placed,
                &answers.lived,
            ),
            ControlRequest::SetClientSpace {
                client_id,
                space_id,
                ..
            } => self.set_client_space(*client_id, space_id.as_str(), answers.space_valid),
            ControlRequest::TransferSpaceSessions {
                session_ids,
                from,
                to,
                ..
            } => Step::Reply(self.transfer_space_sessions(session_ids, from, to)),
            ControlRequest::TransferSpacePane {
                pane_id,
                to_session_id,
                from_space,
                to_space,
                ..
            } => self.transfer_space_pane(
                *pane_id,
                *to_session_id,
                from_space.as_str(),
                to_space.as_str(),
                &answers.placed,
                &answers.lived,
            ),
            ControlRequest::SessionNames { .. } => self.session_names(&answers.reserved),
            ControlRequest::NameSession { session_id, name, .. } => self.name_session(
                *session_id,
                name.as_str(),
                &answers.address,
                &answers.renamed,
                facts.now,
            ),
            ControlRequest::SwitchSession {
                client_id,
                session_id,
                ..
            } => Step::Reply(self.switch_session(*client_id, *session_id)),
            ControlRequest::DestroySession {
                session_id,
                ..
            } => Step::Reply(self.destroy_session(*session_id)),
            ControlRequest::ShutdownServer {
                client_id,
                ..
            } => Step::Reply(self.shutdown_server(*client_id)),
            ControlRequest::ShutdownIdle {
                client_id,
                ..
            } => Step::Reply(self.shutdown_idle(*client_id)),
            ControlRequest::CreateWindow {
                session_id,
                title,
                spawn,
                cols,
                rows,
                ..
            } => self.create_window(
                *session_id,
                title.as_str(),
                spawn,
                *cols,
                *rows,
                &answers.placed,
                &answers.lived,
            ),
            ControlRequest::DestroyWindow {
                window_id,
                ..
            } => Step::Reply(self.destroy_window(*window_id)),
            ControlRequest::MovePane {
                from_window_id,
                to_window_id,
                pane_id,
                target_pane_id,
                axis,
                ratio_bits,
                client_id,
                ..
            } => self.move_pane(
                *from_window_id,
                *to_window_id,
                *pane_id,
                *target_pane_id,
                *axis,
                *ratio_bits,
                *client_id,
                &answers.placed,
                &answers.lived,
            ),
            ControlRequest::ApplyArrangement {
                window_id,
                kind,
                focused_pane_id,
                ..
            } => self.apply_arrangement(
                *window_id,
                *kind,
                *focused_pane_id,
                &answers.placed,
                &answers.lived,
            ),
            ControlRequest::SwitchWindow {
                client_id,
                window_id,
                ..
            } => Step::Reply(self.switch_window(*client_id, *window_id)),
            ControlRequest::RenameWindow {
                window_id,
                title,
                ..
            } => Step::Reply(self.rename_window(*window_id, title.as_str())),
            ControlRequest::SetSyncInput {
                client_id,
                window_id,
                enabled,
                ..
            } => Step::Reply(self.set_sync_input(*client_id, *window_id, *enabled)),
            ControlRequest::SetPaneStatus {
                pane_id,
                text,
                ..
            } => Step::Reply(self.set_pane_status(*pane_id, text)),
            ControlRequest::RenamePane {
                pane_id,
                title,
                ..
            } => Step::Reply(self.rename_pane(*pane_id, title.as_str())),
        };
        proof {
            let identity = drawn(before, *request, self@, r@);
            assert((self@, r@) == before.dispatch(*request, *answers, *facts, identity));
        }
        r
    }
}

/// An outcome of drawing an identity that explains how a client was registered.
spec fn drawn(before: PlaneView, request: ControlRequest, after: PlaneView, step: StepView) -> Result<
    ViewerId,
    Seq<char>,
> {
    if exists|viewer: ViewerId| (after, step) == settled(#[trigger] before.register(viewer)) {
        Ok(
            choose|viewer: ViewerId|
                (after, step) == settled(#[trigger] before.register(viewer)),
        )
    } else {
        Err(choose|text: Seq<char>| step == refusal(#[trigger] mint_error_view(text)))
    }
}

} // verus!
