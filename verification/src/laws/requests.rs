//! That requests are carried out on what they name, with the answers that belong to them.
use vstd::prelude::*;

use crate::attention::text_result;
use crate::dispatch::{Answers, Facts};
use crate::error::ErrorView;
use crate::event::option_text;
use crate::laws::layout::refuses;
use crate::mailbox::stored_view;
use crate::model::{option_view, seq_views};
use crate::panes::lived_view;
use crate::plane::PlaneView;
use crate::request::ControlRequest;
use crate::response::DataView;
use crate::roster::{renamed_view, reserved_list, sent_view};
use crate::sessions::resolved_view;
use crate::step::StepView;
use crate::wire::{
    ArrangementWire, AttentionAction, AxisWire, MailAttentionView, MailWake, PaneWriteSubmit,
    RichInputKind, SpawnSpec, ViewerId, Viewport,
};

verus! {

/// Two ways to the same state and the same step.
pub open spec fn same(a: (PlaneView, StepView), b: (PlaneView, StepView)) -> bool {
    a == b
}

/// A request says its version and its number.
pub proof fn a_request_has_its_header(request: ControlRequest)
    ensures
        request is ServerInfo ==> request.spec_header() == (
            request->ServerInfo_version,
            request->ServerInfo_request_id,
        ),
        request is Ping ==> request.spec_header() == (
            request->Ping_version,
            request->Ping_request_id,
        ),
        request is Snapshot ==> request.spec_header() == (
            request->Snapshot_version,
            request->Snapshot_request_id,
        ),
        request is Events ==> request.spec_header() == (
            request->Events_version,
            request->Events_request_id,
        ),
        request is SubscribePane ==> request.spec_header() == (
            request->SubscribePane_version,
            request->SubscribePane_request_id,
        ),
        request is Split ==> request.spec_header() == (
            request->Split_version,
            request->Split_request_id,
        ),
        request is Close ==> request.spec_header() == (
            request->Close_version,
            request->Close_request_id,
        ),
        request is Resize ==> request.spec_header() == (
            request->Resize_version,
            request->Resize_request_id,
        ),
        request is SuggestFocus ==> request.spec_header() == (
            request->SuggestFocus_version,
            request->SuggestFocus_request_id,
        ),
        request is ReportFocus ==> request.spec_header() == (
            request->ReportFocus_version,
            request->ReportFocus_request_id,
        ),
        request is RaiseAttention ==> request.spec_header() == (
            request->RaiseAttention_version,
            request->RaiseAttention_request_id,
        ),
        request is AttentionRequests ==> request.spec_header() == (
            request->AttentionRequests_version,
            request->AttentionRequests_request_id,
        ),
        request is UpdateAttention ==> request.spec_header() == (
            request->UpdateAttention_version,
            request->UpdateAttention_request_id,
        ),
        request is MailAttentionSet ==> request.spec_header() == (
            request->MailAttentionSet_version,
            request->MailAttentionSet_request_id,
        ),
        request is MailAttentionClear ==> request.spec_header() == (
            request->MailAttentionClear_version,
            request->MailAttentionClear_request_id,
        ),
        request is InjectMail ==> request.spec_header() == (
            request->InjectMail_version,
            request->InjectMail_request_id,
        ),
        request is MailHello ==> request.spec_header() == (
            request->MailHello_version,
            request->MailHello_request_id,
        ),
        request is MailSend ==> request.spec_header() == (
            request->MailSend_version,
            request->MailSend_request_id,
        ),
        request is MailClaim ==> request.spec_header() == (
            request->MailClaim_version,
            request->MailClaim_request_id,
        ),
        request is MailCommit ==> request.spec_header() == (
            request->MailCommit_version,
            request->MailCommit_request_id,
        ),
        request is MailRelease ==> request.spec_header() == (
            request->MailRelease_version,
            request->MailRelease_request_id,
        ),
        request is MailInbox ==> request.spec_header() == (
            request->MailInbox_version,
            request->MailInbox_request_id,
        ),
        request is MailWait ==> request.spec_header() == (
            request->MailWait_version,
            request->MailWait_request_id,
        ),
        request is MailWho ==> request.spec_header() == (
            request->MailWho_version,
            request->MailWho_request_id,
        ),
        request is MailAlias ==> request.spec_header() == (
            request->MailAlias_version,
            request->MailAlias_request_id,
        ),
        request is MailBroadcast ==> request.spec_header() == (
            request->MailBroadcast_version,
            request->MailBroadcast_request_id,
        ),
        request is RichFocusToggle ==> request.spec_header() == (
            request->RichFocusToggle_version,
            request->RichFocusToggle_request_id,
        ),
        request is RichInput ==> request.spec_header() == (
            request->RichInput_version,
            request->RichInput_request_id,
        ),
        request is CopySemantic ==> request.spec_header() == (
            request->CopySemantic_version,
            request->CopySemantic_request_id,
        ),
        request is RegisterClient ==> request.spec_header() == (
            request->RegisterClient_version,
            request->RegisterClient_request_id,
        ),
        request is AcquireLease ==> request.spec_header() == (
            request->AcquireLease_version,
            request->AcquireLease_request_id,
        ),
        request is ReleaseLease ==> request.spec_header() == (
            request->ReleaseLease_version,
            request->ReleaseLease_request_id,
        ),
        request is TakeoverLease ==> request.spec_header() == (
            request->TakeoverLease_version,
            request->TakeoverLease_request_id,
        ),
        request is DisconnectClient ==> request.spec_header() == (
            request->DisconnectClient_version,
            request->DisconnectClient_request_id,
        ),
        request is WritePane ==> request.spec_header() == (
            request->WritePane_version,
            request->WritePane_request_id,
        ),
        request is PaneWrite ==> request.spec_header() == (
            request->PaneWrite_version,
            request->PaneWrite_request_id,
        ),
        request is ReadPane ==> request.spec_header() == (
            request->ReadPane_version,
            request->ReadPane_request_id,
        ),
        request is ReadPaneStyled ==> request.spec_header() == (
            request->ReadPaneStyled_version,
            request->ReadPaneStyled_request_id,
        ),
        request is CreateSession ==> request.spec_header() == (
            request->CreateSession_version,
            request->CreateSession_request_id,
        ),
        request is SetClientSpace ==> request.spec_header() == (
            request->SetClientSpace_version,
            request->SetClientSpace_request_id,
        ),
        request is TransferSpaceSessions ==> request.spec_header() == (
            request->TransferSpaceSessions_version,
            request->TransferSpaceSessions_request_id,
        ),
        request is TransferSpacePane ==> request.spec_header() == (
            request->TransferSpacePane_version,
            request->TransferSpacePane_request_id,
        ),
        request is SessionNames ==> request.spec_header() == (
            request->SessionNames_version,
            request->SessionNames_request_id,
        ),
        request is NameSession ==> request.spec_header() == (
            request->NameSession_version,
            request->NameSession_request_id,
        ),
        request is SwitchSession ==> request.spec_header() == (
            request->SwitchSession_version,
            request->SwitchSession_request_id,
        ),
        request is DestroySession ==> request.spec_header() == (
            request->DestroySession_version,
            request->DestroySession_request_id,
        ),
        request is ShutdownServer ==> request.spec_header() == (
            request->ShutdownServer_version,
            request->ShutdownServer_request_id,
        ),
        request is ShutdownIdle ==> request.spec_header() == (
            request->ShutdownIdle_version,
            request->ShutdownIdle_request_id,
        ),
        request is CreateWindow ==> request.spec_header() == (
            request->CreateWindow_version,
            request->CreateWindow_request_id,
        ),
        request is DestroyWindow ==> request.spec_header() == (
            request->DestroyWindow_version,
            request->DestroyWindow_request_id,
        ),
        request is MovePane ==> request.spec_header() == (
            request->MovePane_version,
            request->MovePane_request_id,
        ),
        request is ApplyArrangement ==> request.spec_header() == (
            request->ApplyArrangement_version,
            request->ApplyArrangement_request_id,
        ),
        request is SwitchWindow ==> request.spec_header() == (
            request->SwitchWindow_version,
            request->SwitchWindow_request_id,
        ),
        request is RenameWindow ==> request.spec_header() == (
            request->RenameWindow_version,
            request->RenameWindow_request_id,
        ),
        request is SetSyncInput ==> request.spec_header() == (
            request->SetSyncInput_version,
            request->SetSyncInput_request_id,
        ),
        request is SetPaneStatus ==> request.spec_header() == (
            request->SetPaneStatus_version,
            request->SetPaneStatus_request_id,
        ),
        request is RenamePane ==> request.spec_header() == (
            request->RenamePane_version,
            request->RenamePane_request_id,
        ),
{
}

/// A request that is made for a client claims that client, and the others claim none.
pub proof fn a_request_claims_its_client(request: ControlRequest)
    ensures
        request is ServerInfo ==> request.spec_claimed() is None,
        request is Ping ==> request.spec_claimed() is None,
        request is Snapshot ==> request.spec_claimed() is None,
        request is Events ==> request.spec_claimed() is None,
        request is SubscribePane ==> request.spec_claimed() == Some(request->SubscribePane_client_id),
        request is Split ==> request.spec_claimed() == request->Split_client_id,
        request is Close ==> request.spec_claimed() == request->Close_client_id,
        request is Resize ==> request.spec_claimed() == request->Resize_client_id,
        request is SuggestFocus ==> request.spec_claimed() is None,
        request is ReportFocus ==> request.spec_claimed() == Some(request->ReportFocus_client_id),
        request is RaiseAttention ==> request.spec_claimed() == Some(request->RaiseAttention_client_id),
        request is AttentionRequests ==> request.spec_claimed() == Some(request->AttentionRequests_client_id),
        request is UpdateAttention ==> request.spec_claimed() == Some(request->UpdateAttention_client_id),
        request is MailAttentionSet ==> request.spec_claimed() == Some(request->MailAttentionSet_client_id),
        request is MailAttentionClear ==> request.spec_claimed() == Some(request->MailAttentionClear_client_id),
        request is InjectMail ==> request.spec_claimed() == Some(request->InjectMail_client_id),
        request is MailHello ==> request.spec_claimed() == Some(request->MailHello_client_id),
        request is MailSend ==> request.spec_claimed() == Some(request->MailSend_client_id),
        request is MailClaim ==> request.spec_claimed() == Some(request->MailClaim_client_id),
        request is MailCommit ==> request.spec_claimed() == Some(request->MailCommit_client_id),
        request is MailRelease ==> request.spec_claimed() == Some(request->MailRelease_client_id),
        request is MailInbox ==> request.spec_claimed() == Some(request->MailInbox_client_id),
        request is MailWait ==> request.spec_claimed() == Some(request->MailWait_client_id),
        request is MailWho ==> request.spec_claimed() == Some(request->MailWho_client_id),
        request is MailAlias ==> request.spec_claimed() == Some(request->MailAlias_client_id),
        request is MailBroadcast ==> request.spec_claimed() == Some(request->MailBroadcast_client_id),
        request is RichFocusToggle ==> request.spec_claimed() == Some(request->RichFocusToggle_client_id),
        request is RichInput ==> request.spec_claimed() == Some(request->RichInput_client_id),
        request is CopySemantic ==> request.spec_claimed() == Some(request->CopySemantic_client_id),
        request is RegisterClient ==> request.spec_claimed() is None,
        request is AcquireLease ==> request.spec_claimed() == Some(request->AcquireLease_client_id),
        request is ReleaseLease ==> request.spec_claimed() == Some(request->ReleaseLease_client_id),
        request is TakeoverLease ==> request.spec_claimed() == Some(request->TakeoverLease_client_id),
        request is DisconnectClient ==> request.spec_claimed() == Some(request->DisconnectClient_client_id),
        request is WritePane ==> request.spec_claimed() == Some(request->WritePane_client_id),
        request is PaneWrite ==> request.spec_claimed() == Some(request->PaneWrite_client_id),
        request is ReadPane ==> request.spec_claimed() == Some(request->ReadPane_client_id),
        request is ReadPaneStyled ==> request.spec_claimed() == Some(request->ReadPaneStyled_client_id),
        request is CreateSession ==> request.spec_claimed() is None,
        request is SetClientSpace ==> request.spec_claimed() == Some(request->SetClientSpace_client_id),
        request is TransferSpaceSessions ==> request.spec_claimed() is None,
        request is TransferSpacePane ==> request.spec_claimed() is None,
        request is SessionNames ==> request.spec_claimed() is None,
        request is NameSession ==> request.spec_claimed() is None,
        request is SwitchSession ==> request.spec_claimed() == Some(request->SwitchSession_client_id),
        request is DestroySession ==> request.spec_claimed() is None,
        request is ShutdownServer ==> request.spec_claimed() == Some(request->ShutdownServer_client_id),
        request is ShutdownIdle ==> request.spec_claimed() == Some(request->ShutdownIdle_client_id),
        request is CreateWindow ==> request.spec_claimed() is None,
        request is DestroyWindow ==> request.spec_claimed() is None,
        request is MovePane ==> request.spec_claimed() == request->MovePane_client_id,
        request is ApplyArrangement ==> request.spec_claimed() is None,
        request is SwitchWindow ==> request.spec_claimed() == Some(request->SwitchWindow_client_id),
        request is RenameWindow ==> request.spec_claimed() is None,
        request is SetSyncInput ==> request.spec_claimed() == Some(request->SetSyncInput_client_id),
        request is SetPaneStatus ==> request.spec_claimed() is None,
        request is RenamePane ==> request.spec_claimed() is None,
{
}

/// A change that was decided at once, with its reply.
pub open spec fn replied(p: (PlaneView, Result<DataView, ErrorView>)) -> (PlaneView, StepView) {
    let (after, result) = p;
    (after, StepView::Reply(result))
}

/// A split is made in the window, at the pane and with the cut that the request names.
pub proof fn a_split_is_made_as_it_is_asked_for(
    plane: PlaneView,
    answers: Answers,
    facts: Facts,
    identity: Result<ViewerId, Seq<char>>,
    version: u16,
    request_id: u64,
    window_id: u64,
    target_pane_id: u64,
    axis: AxisWire,
    ratio_bits: u64,
    spawn: SpawnSpec,
    client_id: Option<u64>,
)
    ensures
        same(
            plane.dispatch(
                ControlRequest::Split {
                    version,
                    request_id,
                    window_id,
                    target_pane_id,
                    axis,
                    ratio_bits,
                    spawn,
                    client_id,
                },
                answers,
                facts,
                identity,
            ),
            plane.split(
                window_id,
                target_pane_id,
                axis,
                ratio_bits,
                spawn@,
                client_id,
                answers.placed,
                lived_view(answers.lived),
            ),
        ),
{
}

/// The pane that the request names is closed, from the focus that it names.
pub proof fn a_pane_is_closed_as_it_is_asked_for(
    plane: PlaneView,
    answers: Answers,
    facts: Facts,
    identity: Result<ViewerId, Seq<char>>,
    version: u16,
    request_id: u64,
    window_id: u64,
    pane_id: u64,
    prior_focus_id: u64,
    client_id: Option<u64>,
)
    ensures
        same(
            plane.dispatch(
                ControlRequest::Close {
                    version,
                    request_id,
                    window_id,
                    pane_id,
                    prior_focus_id,
                    client_id,
                },
                answers,
                facts,
                identity,
            ),
            plane.close(
                window_id,
                pane_id,
                prior_focus_id,
                client_id,
                answers.placed,
                lived_view(answers.lived),
            ),
        ),
{
}

/// A pane moves from the one window to the other, beside the pane that the request names.
pub proof fn a_move_is_made_as_it_is_asked_for(
    plane: PlaneView,
    answers: Answers,
    facts: Facts,
    identity: Result<ViewerId, Seq<char>>,
    version: u16,
    request_id: u64,
    from_window_id: u64,
    to_window_id: u64,
    pane_id: u64,
    target_pane_id: u64,
    axis: AxisWire,
    ratio_bits: u64,
    client_id: Option<u64>,
)
    ensures
        same(
            plane.dispatch(
                ControlRequest::MovePane {
                    version,
                    request_id,
                    from_window_id,
                    to_window_id,
                    pane_id,
                    target_pane_id,
                    axis,
                    ratio_bits,
                    client_id,
                },
                answers,
                facts,
                identity,
            ),
            plane.move_pane(
                from_window_id,
                to_window_id,
                pane_id,
                target_pane_id,
                axis,
                ratio_bits,
                client_id,
                answers.placed,
                lived_view(answers.lived),
            ),
        ),
{
}

/// A session is created under the name, in the size and for the agent that are asked for.
pub proof fn a_session_is_created_as_it_is_asked_for(
    plane: PlaneView,
    answers: Answers,
    facts: Facts,
    identity: Result<ViewerId, Seq<char>>,
    version: u16,
    request_id: u64,
    name: String,
    spawn: SpawnSpec,
    cols: Option<u32>,
    rows: Option<u32>,
    agent_id: Option<String>,
    headless: bool,
)
    ensures
        same(
            plane.dispatch(
                ControlRequest::CreateSession {
                    version,
                    request_id,
                    name,
                    spawn,
                    cols,
                    rows,
                    agent_id,
                    headless,
                },
                answers,
                facts,
                identity,
            ),
            plane.create_session(
                name@,
                spawn@,
                cols,
                rows,
                option_text(agent_id),
                headless,
                resolved_view(answers.resolved),
                answers.placed,
                lived_view(answers.lived),
            ),
        ),
{
}

/// A window is created in the session, under the title and in the size that are asked for.
pub proof fn a_window_is_created_as_it_is_asked_for(
    plane: PlaneView,
    answers: Answers,
    facts: Facts,
    identity: Result<ViewerId, Seq<char>>,
    version: u16,
    request_id: u64,
    session_id: u64,
    title: String,
    spawn: SpawnSpec,
    cols: Option<u32>,
    rows: Option<u32>,
)
    ensures
        same(
            plane.dispatch(
                ControlRequest::CreateWindow {
                    version,
                    request_id,
                    session_id,
                    title,
                    spawn,
                    cols,
                    rows,
                },
                answers,
                facts,
                identity,
            ),
            plane.create_window(
                session_id,
                title@,
                spawn@,
                cols,
                rows,
                answers.placed,
                lived_view(answers.lived),
            ),
        ),
{
}

/// Sessions are handed over from the one Space to the other.
pub proof fn sessions_are_handed_over_as_is_asked_for(
    plane: PlaneView,
    answers: Answers,
    facts: Facts,
    identity: Result<ViewerId, Seq<char>>,
    version: u16,
    request_id: u64,
    session_ids: Vec<u64>,
    from: Option<String>,
    to: Option<String>,
)
    ensures
        same(
            plane.dispatch(
                ControlRequest::TransferSpaceSessions {
                    version,
                    request_id,
                    session_ids,
                    from,
                    to,
                },
                answers,
                facts,
                identity,
            ),
            replied(plane.transfer_sessions(
                session_ids@,
                option_text(from),
                option_text(to),
            )),
        ),
{
}

/// A letter is sent to its recipient, with its summary and its body.
pub proof fn a_letter_is_sent_as_it_was_written(
    plane: PlaneView,
    answers: Answers,
    facts: Facts,
    identity: Result<ViewerId, Seq<char>>,
    version: u16,
    request_id: u64,
    client_id: u64,
    to: String,
    summary: String,
    body: String,
)
    ensures
        same(
            plane.dispatch(
                ControlRequest::MailSend {
                    version,
                    request_id,
                    client_id,
                    to,
                    summary,
                    body,
                },
                answers,
                facts,
                identity,
            ),
            (plane, plane.mail_send(
                client_id,
                to@,
                summary@,
                body@,
                text_result(answers.sender),
                option_view(answers.address),
                stored_view(answers.stored),
            )),
        ),
{
}

/// A broadcast is sent with its summary and its body.
pub proof fn a_broadcast_is_sent_as_it_was_written(
    plane: PlaneView,
    answers: Answers,
    facts: Facts,
    identity: Result<ViewerId, Seq<char>>,
    version: u16,
    request_id: u64,
    client_id: u64,
    summary: String,
    body: String,
)
    ensures
        same(
            plane.dispatch(
                ControlRequest::MailBroadcast {
                    version,
                    request_id,
                    client_id,
                    summary,
                    body,
                },
                answers,
                facts,
                identity,
            ),
            (plane, plane.mail_broadcast(
                client_id,
                summary@,
                body@,
                text_result(answers.sender),
                sent_view(answers.sent),
            )),
        ),
{
}

/// The letters that the request names are committed.
pub proof fn letters_are_committed_as_is_asked_for(
    plane: PlaneView,
    answers: Answers,
    facts: Facts,
    identity: Result<ViewerId, Seq<char>>,
    version: u16,
    request_id: u64,
    client_id: u64,
    ids: Vec<String>,
)
    ensures
        same(
            plane.dispatch(
                ControlRequest::MailCommit {
                    version,
                    request_id,
                    client_id,
                    ids,
                },
                answers,
                facts,
                identity,
            ),
            (plane, plane.mail_commit(
                client_id,
                seq_views(ids@),
                text_result(answers.sender),
            )),
        ),
{
}

/// The letters that the request names are released.
pub proof fn letters_are_released_as_is_asked_for(
    plane: PlaneView,
    answers: Answers,
    facts: Facts,
    identity: Result<ViewerId, Seq<char>>,
    version: u16,
    request_id: u64,
    client_id: u64,
    ids: Vec<String>,
)
    ensures
        same(
            plane.dispatch(
                ControlRequest::MailRelease {
                    version,
                    request_id,
                    client_id,
                    ids,
                },
                answers,
                facts,
                identity,
            ),
            (plane, plane.mail_release(
                client_id,
                seq_views(ids@),
                text_result(answers.sender),
            )),
        ),
{
}

/// The lease of the pane is acquired for the client that asks.
pub proof fn a_lease_is_acquired_for_its_client(
    plane: PlaneView,
    answers: Answers,
    facts: Facts,
    identity: Result<ViewerId, Seq<char>>,
    version: u16,
    request_id: u64,
    client_id: u64,
    pane_id: u64,
)
    ensures
        same(
            plane.dispatch(
                ControlRequest::AcquireLease {
                    version,
                    request_id,
                    client_id,
                    pane_id,
                },
                answers,
                facts,
                identity,
            ),
            replied(plane.acquire_lease(client_id, pane_id)),
        ),
{
}

/// The lease of the pane is released for the client that asks.
pub proof fn a_lease_is_released_for_its_client(
    plane: PlaneView,
    answers: Answers,
    facts: Facts,
    identity: Result<ViewerId, Seq<char>>,
    version: u16,
    request_id: u64,
    client_id: u64,
    pane_id: u64,
)
    ensures
        same(
            plane.dispatch(
                ControlRequest::ReleaseLease {
                    version,
                    request_id,
                    client_id,
                    pane_id,
                },
                answers,
                facts,
                identity,
            ),
            replied(plane.release_lease(client_id, pane_id)),
        ),
{
}

/// The lease of the pane is taken over for the client that asks.
pub proof fn a_lease_is_taken_over_for_its_client(
    plane: PlaneView,
    answers: Answers,
    facts: Facts,
    identity: Result<ViewerId, Seq<char>>,
    version: u16,
    request_id: u64,
    client_id: u64,
    pane_id: u64,
)
    ensures
        same(
            plane.dispatch(
                ControlRequest::TakeoverLease {
                    version,
                    request_id,
                    client_id,
                    pane_id,
                },
                answers,
                facts,
                identity,
            ),
            replied(plane.takeover_lease(client_id, pane_id)),
        ),
{
}

/// The session is selected for the client that asks.
pub proof fn a_session_is_selected_for_its_client(
    plane: PlaneView,
    answers: Answers,
    facts: Facts,
    identity: Result<ViewerId, Seq<char>>,
    version: u16,
    request_id: u64,
    client_id: u64,
    session_id: u64,
)
    ensures
        same(
            plane.dispatch(
                ControlRequest::SwitchSession {
                    version,
                    request_id,
                    client_id,
                    session_id,
                },
                answers,
                facts,
                identity,
            ),
            replied(plane.switch_session(client_id, session_id)),
        ),
{
}

/// The window is selected for the client that asks.
pub proof fn a_window_is_selected_for_its_client(
    plane: PlaneView,
    answers: Answers,
    facts: Facts,
    identity: Result<ViewerId, Seq<char>>,
    version: u16,
    request_id: u64,
    client_id: u64,
    window_id: u64,
)
    ensures
        same(
            plane.dispatch(
                ControlRequest::SwitchWindow {
                    version,
                    request_id,
                    client_id,
                    window_id,
                },
                answers,
                facts,
                identity,
            ),
            replied(plane.switch_window(client_id, window_id)),
        ),
{
}

/// The pane of the window has the focus of the client that reports it.
pub proof fn a_focus_is_reported_for_its_client(
    plane: PlaneView,
    answers: Answers,
    facts: Facts,
    identity: Result<ViewerId, Seq<char>>,
    version: u16,
    request_id: u64,
    client_id: u64,
    window_id: u64,
    pane_id: u64,
)
    ensures
        same(
            plane.dispatch(
                ControlRequest::ReportFocus {
                    version,
                    request_id,
                    client_id,
                    window_id,
                    pane_id,
                },
                answers,
                facts,
                identity,
            ),
            replied(plane.report_focus(
                client_id,
                window_id,
                pane_id,
                facts.now,
            )),
        ),
{
}

/// The pane of the window is suggested, for the reason that is given.
pub proof fn a_focus_is_suggested_where_it_is_named(
    plane: PlaneView,
    answers: Answers,
    facts: Facts,
    identity: Result<ViewerId, Seq<char>>,
    version: u16,
    request_id: u64,
    window_id: u64,
    pane_id: u64,
    reason: Option<String>,
)
    ensures
        same(
            plane.dispatch(
                ControlRequest::SuggestFocus {
                    version,
                    request_id,
                    window_id,
                    pane_id,
                    reason,
                },
                answers,
                facts,
                identity,
            ),
            replied(plane.suggest_focus(
                window_id,
                pane_id,
                option_text(reason),
            )),
        ),
{
}

/// Input is shared, or not, in the window that is named.
pub proof fn shared_input_is_set_where_it_is_named(
    plane: PlaneView,
    answers: Answers,
    facts: Facts,
    identity: Result<ViewerId, Seq<char>>,
    version: u16,
    request_id: u64,
    client_id: u64,
    window_id: u64,
    enabled: bool,
)
    ensures
        same(
            plane.dispatch(
                ControlRequest::SetSyncInput {
                    version,
                    request_id,
                    client_id,
                    window_id,
                    enabled,
                },
                answers,
                facts,
                identity,
            ),
            replied(plane.set_sync_input(
                client_id,
                window_id,
                enabled,
            )),
        ),
{
}

/// Attention is raised at the pane that is named, with its message.
pub proof fn attention_is_raised_where_it_is_named(
    plane: PlaneView,
    answers: Answers,
    facts: Facts,
    identity: Result<ViewerId, Seq<char>>,
    version: u16,
    request_id: u64,
    client_id: u64,
    pane_id: u64,
    message: String,
)
    ensures
        same(
            plane.dispatch(
                ControlRequest::RaiseAttention {
                    version,
                    request_id,
                    client_id,
                    pane_id,
                    message,
                },
                answers,
                facts,
                identity,
            ),
            plane.raise_step(
                client_id,
                pane_id,
                message@,
                text_result(answers.token),
                facts.now,
            ),
        ),
{
}

/// The request for attention that is named is resolved or put off.
pub proof fn attention_is_updated_where_it_is_named(
    plane: PlaneView,
    answers: Answers,
    facts: Facts,
    identity: Result<ViewerId, Seq<char>>,
    version: u16,
    request_id: u64,
    client_id: u64,
    pane_id: u64,
    revision: u64,
    expected_space: String,
    expected_session: u64,
    action: AttentionAction,
)
    ensures
        same(
            plane.dispatch(
                ControlRequest::UpdateAttention {
                    version,
                    request_id,
                    client_id,
                    pane_id,
                    revision,
                    expected_space,
                    expected_session,
                    action,
                },
                answers,
                facts,
                identity,
            ),
            replied(plane.update_team_attention(
                client_id,
                pane_id,
                revision,
                expected_space@,
                expected_session,
                action,
                facts.now,
            )),
        ),
{
}

/// The pane that is named is rung for the revision that is named.
pub proof fn a_ring_is_asked_for_where_it_is_named(
    plane: PlaneView,
    answers: Answers,
    facts: Facts,
    identity: Result<ViewerId, Seq<char>>,
    version: u16,
    request_id: u64,
    client_id: u64,
    pane_id: u64,
    queue_rev: u64,
    remaining_attempts: u32,
)
    ensures
        same(
            plane.dispatch(
                ControlRequest::InjectMail {
                    version,
                    request_id,
                    client_id,
                    pane_id,
                    queue_rev,
                    remaining_attempts,
                },
                answers,
                facts,
                identity,
            ),
            (plane, plane.inject_request(
                client_id,
                pane_id,
                queue_rev,
                remaining_attempts,
            )),
        ),
{
}

/// The client that says hello is the agent that it names.
pub proof fn a_hello_is_said_by_its_client(
    plane: PlaneView,
    answers: Answers,
    facts: Facts,
    identity: Result<ViewerId, Seq<char>>,
    version: u16,
    request_id: u64,
    client_id: u64,
    agent: String,
)
    ensures
        same(
            plane.dispatch(
                ControlRequest::MailHello {
                    version,
                    request_id,
                    client_id,
                    agent,
                },
                answers,
                facts,
                identity,
            ),
            plane.mail_hello(
                client_id,
                agent@,
                option_view(answers.address),
            ),
        ),
{
}

/// Letters are claimed for the client that asks.
pub proof fn letters_are_claimed_for_their_client(
    plane: PlaneView,
    answers: Answers,
    facts: Facts,
    identity: Result<ViewerId, Seq<char>>,
    version: u16,
    request_id: u64,
    client_id: u64,
)
    ensures
        same(
            plane.dispatch(
                ControlRequest::MailClaim {
                    version,
                    request_id,
                    client_id,
                },
                answers,
                facts,
                identity,
            ),
            (plane, plane.mail_claim(client_id, text_result(answers.sender))),
        ),
{
}

/// The inbox is counted for the client that asks.
pub proof fn an_inbox_is_counted_for_its_client(
    plane: PlaneView,
    answers: Answers,
    facts: Facts,
    identity: Result<ViewerId, Seq<char>>,
    version: u16,
    request_id: u64,
    client_id: u64,
)
    ensures
        same(
            plane.dispatch(
                ControlRequest::MailInbox {
                    version,
                    request_id,
                    client_id,
                },
                answers,
                facts,
                identity,
            ),
            (plane, plane.mail_inbox(client_id, text_result(answers.sender))),
        ),
{
}

/// Who is present is told to the client that asks.
pub proof fn who_is_present_is_told_to_its_client(
    plane: PlaneView,
    answers: Answers,
    facts: Facts,
    identity: Result<ViewerId, Seq<char>>,
    version: u16,
    request_id: u64,
    client_id: u64,
)
    ensures
        same(
            plane.dispatch(
                ControlRequest::MailWho {
                    version,
                    request_id,
                    client_id,
                },
                answers,
                facts,
                identity,
            ),
            (plane, plane.mail_who(client_id)),
        ),
{
}

/// The name is taken for the client that asks.
pub proof fn an_alias_is_taken_for_its_client(
    plane: PlaneView,
    answers: Answers,
    facts: Facts,
    identity: Result<ViewerId, Seq<char>>,
    version: u16,
    request_id: u64,
    client_id: u64,
    name: String,
)
    ensures
        same(
            plane.dispatch(
                ControlRequest::MailAlias {
                    version,
                    request_id,
                    client_id,
                    name,
                },
                answers,
                facts,
                identity,
            ),
            plane.mail_alias(
                client_id,
                name@,
                text_result(answers.sender),
                option_view(answers.address),
            ),
        ),
{
}

/// The session gets the name that is asked for.
pub proof fn a_session_is_named_as_is_asked_for(
    plane: PlaneView,
    answers: Answers,
    facts: Facts,
    identity: Result<ViewerId, Seq<char>>,
    version: u16,
    request_id: u64,
    session_id: u64,
    name: String,
)
    ensures
        same(
            plane.dispatch(
                ControlRequest::NameSession {
                    version,
                    request_id,
                    session_id,
                    name,
                },
                answers,
                facts,
                identity,
            ),
            plane.name_session(
                session_id,
                name@,
                option_view(answers.address),
                renamed_view(answers.renamed),
                facts.now,
            ),
        ),
{
}

/// The session that is named is ended.
pub proof fn a_session_is_ended_as_is_asked_for(
    plane: PlaneView,
    answers: Answers,
    facts: Facts,
    identity: Result<ViewerId, Seq<char>>,
    version: u16,
    request_id: u64,
    session_id: u64,
)
    ensures
        same(
            plane.dispatch(
                ControlRequest::DestroySession {
                    version,
                    request_id,
                    session_id,
                },
                answers,
                facts,
                identity,
            ),
            replied(plane.destroy_session(session_id)),
        ),
{
}

/// The window that is named is ended.
pub proof fn a_window_is_ended_as_is_asked_for(
    plane: PlaneView,
    answers: Answers,
    facts: Facts,
    identity: Result<ViewerId, Seq<char>>,
    version: u16,
    request_id: u64,
    window_id: u64,
)
    ensures
        same(
            plane.dispatch(
                ControlRequest::DestroyWindow {
                    version,
                    request_id,
                    window_id,
                },
                answers,
                facts,
                identity,
            ),
            replied(plane.destroy_window(window_id)),
        ),
{
}

/// The names in use are told.
pub proof fn names_in_use_are_told_on_request(
    plane: PlaneView,
    answers: Answers,
    facts: Facts,
    identity: Result<ViewerId, Seq<char>>,
    version: u16,
    request_id: u64,
)
    ensures
        same(
            plane.dispatch(
                ControlRequest::SessionNames {
                    version,
                    request_id,
                },
                answers,
                facts,
                identity,
            ),
            (plane, plane.session_names(reserved_list(answers.reserved))),
        ),
{
}

/// The client that is named is disconnected.
pub proof fn a_client_is_disconnected_as_is_asked_for(
    plane: PlaneView,
    answers: Answers,
    facts: Facts,
    identity: Result<ViewerId, Seq<char>>,
    version: u16,
    request_id: u64,
    client_id: u64,
)
    ensures
        same(
            plane.dispatch(
                ControlRequest::DisconnectClient {
                    version,
                    request_id,
                    client_id,
                },
                answers,
                facts,
                identity,
            ),
            plane.disconnect(client_id),
        ),
{
}

/// The client is bound to the Space that is named.
pub proof fn a_client_is_bound_as_is_asked_for(
    plane: PlaneView,
    answers: Answers,
    facts: Facts,
    identity: Result<ViewerId, Seq<char>>,
    version: u16,
    request_id: u64,
    client_id: u64,
    space_id: String,
)
    ensures
        same(
            plane.dispatch(
                ControlRequest::SetClientSpace {
                    version,
                    request_id,
                    client_id,
                    space_id,
                },
                answers,
                facts,
                identity,
            ),
            plane.set_client_space(
                client_id,
                space_id@,
                answers.space_valid,
            ),
        ),
{
}

/// The window gets the title that is asked for.
pub proof fn a_window_is_renamed_as_is_asked_for(
    plane: PlaneView,
    answers: Answers,
    facts: Facts,
    identity: Result<ViewerId, Seq<char>>,
    version: u16,
    request_id: u64,
    window_id: u64,
    title: String,
)
    ensures
        same(
            plane.dispatch(
                ControlRequest::RenameWindow {
                    version,
                    request_id,
                    window_id,
                    title,
                },
                answers,
                facts,
                identity,
            ),
            replied(plane.rename_window(window_id, title@)),
        ),
{
}

/// The pane gets the title that is asked for.
pub proof fn a_pane_is_renamed_as_is_asked_for(
    plane: PlaneView,
    answers: Answers,
    facts: Facts,
    identity: Result<ViewerId, Seq<char>>,
    version: u16,
    request_id: u64,
    pane_id: u64,
    title: String,
)
    ensures
        same(
            plane.dispatch(
                ControlRequest::RenamePane {
                    version,
                    request_id,
                    pane_id,
                    title,
                },
                answers,
                facts,
                identity,
            ),
            replied(plane.rename_pane(pane_id, title@)),
        ),
{
}

/// The pane gets the status that is asked for.
pub proof fn a_status_is_set_where_it_is_named(
    plane: PlaneView,
    answers: Answers,
    facts: Facts,
    identity: Result<ViewerId, Seq<char>>,
    version: u16,
    request_id: u64,
    pane_id: u64,
    text: Option<String>,
)
    ensures
        same(
            plane.dispatch(
                ControlRequest::SetPaneStatus {
                    version,
                    request_id,
                    pane_id,
                    text,
                },
                answers,
                facts,
                identity,
            ),
            replied(plane.set_pane_status(pane_id, option_text(text))),
        ),
{
}

/// An idle daemon is stopped for the client that asks.
pub proof fn an_idle_daemon_is_stopped_for_its_client(
    plane: PlaneView,
    answers: Answers,
    facts: Facts,
    identity: Result<ViewerId, Seq<char>>,
    version: u16,
    request_id: u64,
    client_id: u64,
)
    ensures
        same(
            plane.dispatch(
                ControlRequest::ShutdownIdle {
                    version,
                    request_id,
                    client_id,
                },
                answers,
                facts,
                identity,
            ),
            replied(plane.shutdown_idle(client_id)),
        ),
{
}

/// The open requests for attention are told to the client that asks.
pub proof fn open_requests_are_told_to_their_client(
    plane: PlaneView,
    answers: Answers,
    facts: Facts,
    identity: Result<ViewerId, Seq<char>>,
    version: u16,
    request_id: u64,
    client_id: u64,
)
    ensures
        same(
            plane.dispatch(
                ControlRequest::AttentionRequests {
                    version,
                    request_id,
                    client_id,
                },
                answers,
                facts,
                identity,
            ),
            replied(plane.list_attention(client_id)),
        ),
{
}

/// Mail attention is cleared at the pane, for the revision that is named.
pub proof fn mail_attention_is_cleared_where_it_is_named(
    plane: PlaneView,
    answers: Answers,
    facts: Facts,
    identity: Result<ViewerId, Seq<char>>,
    version: u16,
    request_id: u64,
    client_id: u64,
    pane_id: u64,
    queue_rev: u64,
)
    ensures
        same(
            plane.dispatch(
                ControlRequest::MailAttentionClear {
                    version,
                    request_id,
                    client_id,
                    pane_id,
                    queue_rev,
                },
                answers,
                facts,
                identity,
            ),
            replied(plane.clear_mail_attention(
                client_id,
                pane_id,
                queue_rev,
                facts.now,
            )),
        ),
{
}

/// The screen of the pane is read for the client that asks.
pub proof fn a_screen_is_read_where_it_is_named(
    plane: PlaneView,
    answers: Answers,
    facts: Facts,
    identity: Result<ViewerId, Seq<char>>,
    version: u16,
    request_id: u64,
    client_id: u64,
    pane_id: u64,
)
    ensures
        same(
            plane.dispatch(
                ControlRequest::ReadPane {
                    version,
                    request_id,
                    client_id,
                    pane_id,
                },
                answers,
                facts,
                identity,
            ),
            (plane, plane.read_pane(client_id, pane_id)),
        ),
{
}

/// The styled screen of the pane is read from the offset that is named.
pub proof fn a_styled_screen_is_read_where_it_is_named(
    plane: PlaneView,
    answers: Answers,
    facts: Facts,
    identity: Result<ViewerId, Seq<char>>,
    version: u16,
    request_id: u64,
    client_id: u64,
    pane_id: u64,
    view_offset: Option<u32>,
)
    ensures
        same(
            plane.dispatch(
                ControlRequest::ReadPaneStyled {
                    version,
                    request_id,
                    client_id,
                    pane_id,
                    view_offset,
                },
                answers,
                facts,
                identity,
            ),
            (plane, plane.read_pane_styled(
                client_id,
                pane_id,
                view_offset,
            )),
        ),
{
}

/// Structured focus is toggled or revoked at the pane that is named.
pub proof fn structured_focus_is_toggled_where_it_is_named(
    plane: PlaneView,
    answers: Answers,
    facts: Facts,
    identity: Result<ViewerId, Seq<char>>,
    version: u16,
    request_id: u64,
    client_id: u64,
    pane_id: u64,
    revoke: bool,
)
    ensures
        same(
            plane.dispatch(
                ControlRequest::RichFocusToggle {
                    version,
                    request_id,
                    client_id,
                    pane_id,
                    revoke,
                },
                answers,
                facts,
                identity,
            ),
            (plane, plane.rich_focus_toggle(
                client_id,
                pane_id,
                revoke,
            )),
        ),
{
}

/// Structured input goes to the pane that is named.
pub proof fn structured_input_is_sent_where_it_is_named(
    plane: PlaneView,
    answers: Answers,
    facts: Facts,
    identity: Result<ViewerId, Seq<char>>,
    version: u16,
    request_id: u64,
    client_id: u64,
    pane_id: u64,
    input: RichInputKind,
)
    ensures
        same(
            plane.dispatch(
                ControlRequest::RichInput {
                    version,
                    request_id,
                    client_id,
                    pane_id,
                    input,
                },
                answers,
                facts,
                identity,
            ),
            (plane, plane.rich_input(
                client_id,
                pane_id,
                input,
                facts.modifier_mask,
            )),
        ),
{
}

/// A copy is made of the pane and the place that are named.
pub proof fn a_copy_is_made_where_it_is_named(
    plane: PlaneView,
    answers: Answers,
    facts: Facts,
    identity: Result<ViewerId, Seq<char>>,
    version: u16,
    request_id: u64,
    client_id: u64,
    pane_id: u64,
    seq: Option<u64>,
)
    ensures
        same(
            plane.dispatch(
                ControlRequest::CopySemantic {
                    version,
                    request_id,
                    client_id,
                    pane_id,
                    seq,
                },
                answers,
                facts,
                identity,
            ),
            (plane, plane.copy_semantic(
                client_id,
                pane_id,
                seq,
            )),
        ),
{
}

/// Input is written to the pane that is named, for the client that writes it.
pub proof fn input_is_written_where_it_is_named(
    plane: PlaneView,
    answers: Answers,
    facts: Facts,
    identity: Result<ViewerId, Seq<char>>,
    version: u16,
    request_id: u64,
    client_id: u64,
    pane_id: u64,
    data: String,
)
    ensures
        same(
            plane.dispatch(
                ControlRequest::WritePane {
                    version,
                    request_id,
                    client_id,
                    pane_id,
                    data,
                },
                answers,
                facts,
                identity,
            ),
            plane.write_pane(
                client_id,
                pane_id,
                data@,
                answers.written,
                facts.now,
            ),
        ),
{
}

/// An arrangement is made in the window that the request names, and is of its kind.
pub proof fn an_arrangement_is_made_where_it_is_asked_for(
    plane: PlaneView,
    answers: Answers,
    facts: Facts,
    identity: Result<ViewerId, Seq<char>>,
    version: u16,
    request_id: u64,
    window_id: u64,
    kind: ArrangementWire,
    focused_pane_id: Option<u64>,
)
    ensures
        same(
            plane.dispatch(
                ControlRequest::ApplyArrangement {
                    version,
                    request_id,
                    window_id,
                    kind,
                    focused_pane_id,
                },
                answers,
                facts,
                identity,
            ),
            plane.arrange(
                window_id,
                kind,
                focused_pane_id,
                answers.placed,
                lived_view(answers.lived),
            ),
        ),
{
}

/// A pane is handed over to the session and between the Spaces that the request names.
pub proof fn a_transfer_is_made_as_it_is_asked_for(
    plane: PlaneView,
    answers: Answers,
    facts: Facts,
    identity: Result<ViewerId, Seq<char>>,
    version: u16,
    request_id: u64,
    pane_id: u64,
    to_session_id: u64,
    from_space: String,
    to_space: String,
)
    ensures
        same(
            plane.dispatch(
                ControlRequest::TransferSpacePane {
                    version,
                    request_id,
                    pane_id,
                    to_session_id,
                    from_space,
                    to_space,
                },
                answers,
                facts,
                identity,
            ),
            plane.transfer_pane(
                pane_id,
                to_session_id,
                from_space@,
                to_space@,
                answers.placed,
                lived_view(answers.lived),
            ),
        ),
{
}

/// A size is applied in the window that is named, as many columns and rows as were reported,
/// with the width and the height of a cell where they are known.
pub proof fn a_resize_reports_what_was_measured(
    plane: PlaneView,
    answers: Answers,
    facts: Facts,
    identity: Result<ViewerId, Seq<char>>,
    version: u16,
    request_id: u64,
    window_id: u64,
    cols: u32,
    rows: u32,
    cell_width_px: Option<u32>,
    cell_height_px: Option<u32>,
    client_id: Option<u64>,
    fit: bool,
    host: bool,
)
    requires
        cell_width_px matches Some(w) ==> w > 0,
        cell_height_px matches Some(h) ==> h > 0,
    ensures
        same(plane.dispatch(
            ControlRequest::Resize {
                version,
                request_id,
                window_id,
                cols,
                rows,
                cell_width_px,
                cell_height_px,
                client_id,
                fit,
                host,
            },
            answers,
            facts,
            identity,
        ), plane.resize(
            window_id,
            Viewport { cols, rows, cell_width_px, cell_height_px },
            client_id,
            fit,
            host,
            answers.record_host,
            answers.size,
            answers.placed,
            lived_view(answers.lived),
        )),
{
}

/// Mail attention is set as it was reported, at the pane that is named.
pub proof fn mail_attention_is_set_as_reported(
    plane: PlaneView,
    answers: Answers,
    facts: Facts,
    identity: Result<ViewerId, Seq<char>>,
    version: u16,
    request_id: u64,
    client_id: u64,
    pane_id: u64,
    cell: String,
    gen: u64,
    queue_rev: u64,
    depth: u32,
    wake: Option<MailWake>,
    bound_pid: Option<u32>,
)
    ensures
        same(
            plane.dispatch(
                ControlRequest::MailAttentionSet {
                    version,
                    request_id,
                    client_id,
                    pane_id,
                    cell,
                    gen,
                    queue_rev,
                    depth,
                    wake,
                    bound_pid,
                },
                answers,
                facts,
                identity,
            ),
            replied(
                plane.set_mail_attention(
                    client_id,
                    pane_id,
                    MailAttentionView {
                        pane_id,
                        cell: cell@,
                        gen,
                        queue_rev,
                        depth,
                        wake,
                        bound_pid,
                    },
                    facts.now,
                ),
            ),
        ),
{
}

/// Text is written to the child that runs in the pane now, as the host found it.
pub proof fn text_is_written_to_the_child(
    plane: PlaneView,
    answers: Answers,
    facts: Facts,
    identity: Result<ViewerId, Seq<char>>,
    version: u16,
    request_id: u64,
    client_id: u64,
    pane_id: u64,
    expected_child_pid: u32,
    data: String,
    submit: PaneWriteSubmit,
)
    ensures
        same(
            plane.dispatch(
                ControlRequest::PaneWrite {
                    version,
                    request_id,
                    client_id,
                    pane_id,
                    expected_child_pid,
                    data,
                    submit,
                },
                answers,
                facts,
                identity,
            ),
            plane.pane_write(
                client_id,
                pane_id,
                expected_child_pid,
                data@,
                submit,
                if plane.live && facts.pids@.contains_key(pane_id) {
                    Some(facts.pids@[pane_id])
                } else {
                    None
                },
                answers.agent,
                facts.cursor_submit@,
                answers.chunks,
                facts.now,
            ),
        ),
{
}

/// A new client is registered under the identity that was drawn for it; where none could
/// be drawn there is no client.
pub proof fn a_client_is_registered_under_its_identity(
    plane: PlaneView,
    answers: Answers,
    facts: Facts,
    viewer: ViewerId,
    text: Seq<char>,
    version: u16,
    request_id: u64,
)
    ensures
        same(
            plane.dispatch(
                ControlRequest::RegisterClient { version, request_id },
                answers,
                facts,
                Ok(viewer),
            ),
            replied(plane.register(viewer)),
        ),
        ({
            let (after, step) = plane.dispatch(
                ControlRequest::RegisterClient { version, request_id },
                answers,
                facts,
                Err(text),
            );
            same((after, step), (plane, step)) && refuses(step)
        }),
{
}

/// Who asks for the server or its state is told, and nothing changes.
pub proof fn a_question_changes_nothing(
    plane: PlaneView,
    answers: Answers,
    facts: Facts,
    identity: Result<ViewerId, Seq<char>>,
    version: u16,
    request_id: u64,
)
    ensures
        same(
            plane.dispatch(
                ControlRequest::ServerInfo { version, request_id },
                answers,
                facts,
                identity,
            ),
            (
                plane,
                StepView::Reply(
                    Ok(
                        DataView::ServerInfo {
                            package_version: facts.package_version@,
                            pid: facts.pid,
                        },
                    ),
                ),
            ),
        ),
        same(
            plane.dispatch(
                ControlRequest::Ping { version, request_id },
                answers,
                facts,
                identity,
            ),
            (plane, StepView::Reply(Ok(DataView::Pong))),
        ),
        same(
            plane.dispatch(
                ControlRequest::Snapshot { version, request_id },
                answers,
                facts,
                identity,
            ),
            (
                plane,
                StepView::Reply(
                    Ok(DataView::Snapshot { snapshot: plane.snapshot(facts.pids@, facts.now) }),
                ),
            ),
        ),
{
}

/// A reader of the history gets what follows the event that it names, as many as it asks
/// for, or the reason why it cannot.
pub proof fn the_history_is_read_as_is_asked_for(
    plane: PlaneView,
    answers: Answers,
    facts: Facts,
    identity: Result<ViewerId, Seq<char>>,
    version: u16,
    request_id: u64,
    after_sequence: u64,
    limit: Option<usize>,
)
    ensures
        same(
            plane.dispatch(
                ControlRequest::Events { version, request_id, after_sequence, limit },
                answers,
                facts,
                identity,
            ),
            (
                plane,
                StepView::Reply(
                    match plane.ring.replay_fault(after_sequence, limit) {
                        Some(fault) => Err(fault),
                        None => Ok(DataView::Events {
                            batch: plane.ring.batch(after_sequence, limit),
                        }),
                    },
                ),
            ),
        ),
{
}

/// A known client ends the server; nobody else does.
pub proof fn a_known_client_ends_the_server(
    plane: PlaneView,
    answers: Answers,
    facts: Facts,
    identity: Result<ViewerId, Seq<char>>,
    version: u16,
    request_id: u64,
    client_id: u64,
)
    ensures
        ({
            let (after, step) = plane.dispatch(
                ControlRequest::ShutdownServer { version, request_id, client_id },
                answers,
                facts,
                identity,
            );
            &&& same((after, step), (plane, step))
            &&& plane.clients.contains_key(client_id) ==> step == StepView::Reply(
                Ok(DataView::ShutdownAccepted),
            )
            &&& !plane.clients.contains_key(client_id) ==> refuses(step)
        }),
{
}

} // verus!
