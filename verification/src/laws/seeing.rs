//! That what is told, asked and left to the host is seen under the names under which it
//! was written down.
use vstd::prelude::*;

use crate::event::{option_text, Event};
use crate::model::seq_views;
use crate::response::ControlResponseData;
use crate::state::{Ask, Effect};

verus! {

/// Every part of an event is seen under its own name.
pub proof fn an_event_is_seen_as_it_is(event: Event)
    ensures
        event is PaneSplit ==> {
            &&& event@ is PaneSplit
            &&& event@->PaneSplit_window_id == event->PaneSplit_window_id
            &&& event@->PaneSplit_target_pane_id == event->PaneSplit_target_pane_id
            &&& event@->PaneSplit_new_pane_id == event->PaneSplit_new_pane_id
            &&& event@->PaneSplit_axis == event->PaneSplit_axis
            &&& event@->PaneSplit_ratio_bits == event->PaneSplit_ratio_bits
            &&& event@->PaneSplit_spawn == event->PaneSplit_spawn@
            &&& event@->PaneSplit_geometry == event->PaneSplit_geometry@
        },
        event is PaneClosed ==> {
            &&& event@ is PaneClosed
            &&& event@->PaneClosed_window_id == event->PaneClosed_window_id
            &&& event@->PaneClosed_pane_id == event->PaneClosed_pane_id
            &&& event@->PaneClosed_suggested_focus_id == event->PaneClosed_suggested_focus_id
            &&& event@->PaneClosed_geometry == event->PaneClosed_geometry@
        },
        event is GeometryChanged ==> {
            &&& event@ is GeometryChanged
            &&& event@->GeometryChanged_window_id == event->GeometryChanged_window_id
            &&& event@->GeometryChanged_bounds == event->GeometryChanged_bounds
            &&& event@->GeometryChanged_geometry == event->GeometryChanged_geometry@
        },
        event is SizeOwnerChanged ==> {
            &&& event@ is SizeOwnerChanged
            &&& event@->SizeOwnerChanged_window_id == event->SizeOwnerChanged_window_id
            &&& event@->SizeOwnerChanged_owner == event->SizeOwnerChanged_owner
        },
        event is FocusSuggested ==> {
            &&& event@ is FocusSuggested
            &&& event@->FocusSuggested_window_id == event->FocusSuggested_window_id
            &&& event@->FocusSuggested_pane_id == event->FocusSuggested_pane_id
            &&& event@->FocusSuggested_reason == option_text(event->FocusSuggested_reason)
        },
        event is FocusReported ==> {
            &&& event@ is FocusReported
            &&& event@->FocusReported_client_id == event->FocusReported_client_id
            &&& event@->FocusReported_window_id == event->FocusReported_window_id
            &&& event@->FocusReported_pane_id == event->FocusReported_pane_id
        },
        event is MailAttentionChanged ==> {
            &&& event@ is MailAttentionChanged
            &&& event@->MailAttentionChanged_pane_id == event->MailAttentionChanged_pane_id
            &&& event@->MailAttentionChanged_cell == option_text(event->MailAttentionChanged_cell)
            &&& event@->MailAttentionChanged_gen == event->MailAttentionChanged_gen
            &&& event@->MailAttentionChanged_queue_rev == event->MailAttentionChanged_queue_rev
            &&& event@->MailAttentionChanged_depth == event->MailAttentionChanged_depth
            &&& event@->MailAttentionChanged_wake == event->MailAttentionChanged_wake
        },
        event is PaneAttention ==> {
            &&& event@ is PaneAttention
            &&& event@->PaneAttention_pane_id == event->PaneAttention_pane_id
            &&& event@->PaneAttention_message == event->PaneAttention_message@
        },
        event is PaneAttentionCleared ==> {
            &&& event@ is PaneAttentionCleared
            &&& event@->PaneAttentionCleared_pane_id == event->PaneAttentionCleared_pane_id
        },
        event is LeaseChanged ==> {
            &&& event@ is LeaseChanged
            &&& event@->LeaseChanged_pane_id == event->LeaseChanged_pane_id
            &&& event@->LeaseChanged_controller_id == event->LeaseChanged_controller_id
            &&& event@->LeaseChanged_previous_controller_id == event->LeaseChanged_previous_controller_id
        },
        event is SpaceOwnershipChanged ==> {
            &&& event@ is SpaceOwnershipChanged
            &&& event@->SpaceOwnershipChanged_session_ids == event->SpaceOwnershipChanged_session_ids@
            &&& event@->SpaceOwnershipChanged_from == option_text(event->SpaceOwnershipChanged_from)
            &&& event@->SpaceOwnershipChanged_to == option_text(event->SpaceOwnershipChanged_to)
        },
        event is SessionCreated ==> {
            &&& event@ is SessionCreated
            &&& event@->SessionCreated_session_id == event->SessionCreated_session_id
            &&& event@->SessionCreated_name == event->SessionCreated_name@
            &&& event@->SessionCreated_window_id == event->SessionCreated_window_id
            &&& event@->SessionCreated_pane_id == event->SessionCreated_pane_id
            &&& event@->SessionCreated_bounds == event->SessionCreated_bounds
            &&& event@->SessionCreated_spawn == event->SessionCreated_spawn@
        },
        event is SessionNamed ==> {
            &&& event@ is SessionNamed
            &&& event@->SessionNamed_session_id == event->SessionNamed_session_id
            &&& event@->SessionNamed_name == event->SessionNamed_name@
        },
        event is SessionSwitched ==> {
            &&& event@ is SessionSwitched
            &&& event@->SessionSwitched_client_id == event->SessionSwitched_client_id
            &&& event@->SessionSwitched_session_id == event->SessionSwitched_session_id
            &&& event@->SessionSwitched_window_id == event->SessionSwitched_window_id
            &&& event@->SessionSwitched_pane_id == event->SessionSwitched_pane_id
        },
        event is SessionDestroyed ==> {
            &&& event@ is SessionDestroyed
            &&& event@->SessionDestroyed_session_id == event->SessionDestroyed_session_id
            &&& event@->SessionDestroyed_name == event->SessionDestroyed_name@
        },
        event is OutputActivity ==> {
            &&& event@ is OutputActivity
            &&& event@->OutputActivity_pane_id == event->OutputActivity_pane_id
            &&& event@->OutputActivity_revision == event->OutputActivity_revision
            &&& event@->OutputActivity_child_alive == event->OutputActivity_child_alive
        },
        event is WindowCreated ==> {
            &&& event@ is WindowCreated
            &&& event@->WindowCreated_session_id == event->WindowCreated_session_id
            &&& event@->WindowCreated_window_id == event->WindowCreated_window_id
            &&& event@->WindowCreated_pane_id == event->WindowCreated_pane_id
            &&& event@->WindowCreated_title == event->WindowCreated_title@
            &&& event@->WindowCreated_bounds == event->WindowCreated_bounds
            &&& event@->WindowCreated_spawn == event->WindowCreated_spawn@
        },
        event is WindowDestroyed ==> {
            &&& event@ is WindowDestroyed
            &&& event@->WindowDestroyed_session_id == event->WindowDestroyed_session_id
            &&& event@->WindowDestroyed_window_id == event->WindowDestroyed_window_id
            &&& event@->WindowDestroyed_session_destroyed == event->WindowDestroyed_session_destroyed
        },
        event is WindowSwitched ==> {
            &&& event@ is WindowSwitched
            &&& event@->WindowSwitched_client_id == event->WindowSwitched_client_id
            &&& event@->WindowSwitched_session_id == event->WindowSwitched_session_id
            &&& event@->WindowSwitched_window_id == event->WindowSwitched_window_id
            &&& event@->WindowSwitched_pane_id == event->WindowSwitched_pane_id
        },
        event is WindowRenamed ==> {
            &&& event@ is WindowRenamed
            &&& event@->WindowRenamed_window_id == event->WindowRenamed_window_id
            &&& event@->WindowRenamed_title == event->WindowRenamed_title@
        },
        event is PaneStatusChanged ==> {
            &&& event@ is PaneStatusChanged
            &&& event@->PaneStatusChanged_pane_id == event->PaneStatusChanged_pane_id
            &&& event@->PaneStatusChanged_status == option_text(event->PaneStatusChanged_status)
        },
        event is PaneRenamed ==> {
            &&& event@ is PaneRenamed
            &&& event@->PaneRenamed_pane_id == event->PaneRenamed_pane_id
            &&& event@->PaneRenamed_title == event->PaneRenamed_title@
        },
        event is SyncInputChanged ==> {
            &&& event@ is SyncInputChanged
            &&& event@->SyncInputChanged_window_id == event->SyncInputChanged_window_id
            &&& event@->SyncInputChanged_enabled == event->SyncInputChanged_enabled
        },
        event is PaneMoved ==> {
            &&& event@ is PaneMoved
            &&& event@->PaneMoved_from_window_id == event->PaneMoved_from_window_id
            &&& event@->PaneMoved_to_window_id == event->PaneMoved_to_window_id
            &&& event@->PaneMoved_pane_id == event->PaneMoved_pane_id
            &&& event@->PaneMoved_source_suggested_focus_id == event->PaneMoved_source_suggested_focus_id
            &&& event@->PaneMoved_geometry == event->PaneMoved_geometry@
        },
{
}

/// Every part of a question to the host is seen under its own name.
pub proof fn a_question_is_seen_as_it_is(ask: Ask)
    ensures
        ask is Split ==> {
            &&& ask@ is Split
            &&& ask@->Split_layout == ask->Split_layout
            &&& ask@->Split_target == ask->Split_target
            &&& ask@->Split_new_pane == ask->Split_new_pane
            &&& ask@->Split_axis == ask->Split_axis
            &&& ask@->Split_ratio_bits == ask->Split_ratio_bits
            &&& ask@->Split_bounds == ask->Split_bounds
        },
        ask is Close ==> {
            &&& ask@ is Close
            &&& ask@->Close_layout == ask->Close_layout
            &&& ask@->Close_pane == ask->Close_pane
            &&& ask@->Close_prior_focus == ask->Close_prior_focus
            &&& ask@->Close_bounds == ask->Close_bounds
        },
        ask is Move ==> {
            &&& ask@ is Move
            &&& ask@->Move_source == ask->Move_source
            &&& ask@->Move_source_bounds == ask->Move_source_bounds
            &&& ask@->Move_layout == ask->Move_layout
            &&& ask@->Move_bounds == ask->Move_bounds
            &&& ask@->Move_pane == ask->Move_pane
            &&& ask@->Move_target == ask->Move_target
            &&& ask@->Move_axis == ask->Move_axis
            &&& ask@->Move_ratio_bits == ask->Move_ratio_bits
        },
        ask is Open ==> {
            &&& ask@ is Open
            &&& ask@->Open_source == ask->Open_source
            &&& ask@->Open_source_bounds == ask->Open_source_bounds
            &&& ask@->Open_pane == ask->Open_pane
            &&& ask@->Open_bounds == ask->Open_bounds
        },
        ask is Arrange ==> {
            &&& ask@ is Arrange
            &&& ask@->Arrange_kind == ask->Arrange_kind
            &&& ask@->Arrange_leaves == ask->Arrange_leaves@
            &&& ask@->Arrange_main == ask->Arrange_main
            &&& ask@->Arrange_bounds == ask->Arrange_bounds
        },
        ask is Fit ==> {
            &&& ask@ is Fit
            &&& ask@->Fit_layout == ask->Fit_layout
            &&& ask@->Fit_bounds == ask->Fit_bounds
        },
        ask is Spawn ==> {
            &&& ask@ is Spawn
            &&& ask@->Spawn_pane == ask->Spawn_pane
            &&& ask@->Spawn_spec == ask->Spawn_spec@
            &&& ask@->Spawn_inherit == ask->Spawn_inherit
            &&& ask@->Spawn_agent == option_text(ask->Spawn_agent)
            &&& ask@->Spawn_geometry == ask->Spawn_geometry@
        },
        ask is Apply ==> {
            &&& ask@ is Apply
            &&& ask@->Apply_geometry == ask->Apply_geometry@
            &&& ask@->Apply_cell_width_px == ask->Apply_cell_width_px
            &&& ask@->Apply_cell_height_px == ask->Apply_cell_height_px
            &&& ask@->Apply_owner == ask->Apply_owner
            &&& ask@->Apply_sizes == ask->Apply_sizes
        },
        ask is Write ==> {
            &&& ask@ is Write
            &&& ask@->Write_pane == ask->Write_pane
            &&& ask@->Write_bytes == ask->Write_bytes@
            &&& ask@->Write_siblings == ask->Write_siblings@
        },
        ask is ForegroundAgent ==> {
            &&& ask@ is ForegroundAgent
            &&& ask@->ForegroundAgent_pane == ask->ForegroundAgent_pane
        },
        ask is WriteChunks ==> {
            &&& ask@ is WriteChunks
            &&& ask@->WriteChunks_pane == ask->WriteChunks_pane
            &&& ask@->WriteChunks_chunks == seq_views(ask->WriteChunks_chunks@)
        },
        ask is Content ==> {
            &&& ask@ is Content
            &&& ask@->Content_pane == ask->Content_pane
        },
        ask is Styled ==> {
            &&& ask@ is Styled
            &&& ask@->Styled_pane == ask->Styled_pane
            &&& ask@->Styled_view_offset == ask->Styled_view_offset
            &&& ask@->Styled_viewer == ask->Styled_viewer
            &&& ask@->Styled_client == ask->Styled_client
        },
        ask is RichFocus ==> {
            &&& ask@ is RichFocus
            &&& ask@->RichFocus_pane == ask->RichFocus_pane
            &&& ask@->RichFocus_viewer == ask->RichFocus_viewer
            &&& ask@->RichFocus_revoke == ask->RichFocus_revoke
        },
        ask is RichKey ==> {
            &&& ask@ is RichKey
            &&& ask@->RichKey_pane == ask->RichKey_pane
            &&& ask@->RichKey_viewer == ask->RichKey_viewer
            &&& ask@->RichKey_key == ask->RichKey_key@
            &&& ask@->RichKey_modifiers == ask->RichKey_modifiers
        },
        ask is RichPointer ==> {
            &&& ask@ is RichPointer
            &&& ask@->RichPointer_pane == ask->RichPointer_pane
            &&& ask@->RichPointer_viewer == ask->RichPointer_viewer
            &&& ask@->RichPointer_phase == ask->RichPointer_phase
            &&& ask@->RichPointer_row == ask->RichPointer_row
            &&& ask@->RichPointer_col == ask->RichPointer_col
        },
        ask is RichScroll ==> {
            &&& ask@ is RichScroll
            &&& ask@->RichScroll_pane == ask->RichScroll_pane
            &&& ask@->RichScroll_viewer == ask->RichScroll_viewer
            &&& ask@->RichScroll_row == ask->RichScroll_row
            &&& ask@->RichScroll_col == ask->RichScroll_col
            &&& ask@->RichScroll_delta == ask->RichScroll_delta
        },
        ask is CopySemantic ==> {
            &&& ask@ is CopySemantic
            &&& ask@->CopySemantic_pane == ask->CopySemantic_pane
            &&& ask@->CopySemantic_client == ask->CopySemantic_client
            &&& ask@->CopySemantic_seq == ask->CopySemantic_seq
        },
        ask is RecordHost ==> {
            &&& ask@ is RecordHost
            &&& ask@->RecordHost_cols == ask->RecordHost_cols
            &&& ask@->RecordHost_rows == ask->RecordHost_rows
            &&& ask@->RecordHost_current == ask->RecordHost_current
            &&& ask@->RecordHost_latest_is_remote == ask->RecordHost_latest_is_remote
        },
        ask is DecideSize ==> {
            &&& ask@ is DecideSize
            &&& ask@->DecideSize_policy == ask->DecideSize_policy
            &&& ask@->DecideSize_role == ask->DecideSize_role
            &&& ask@->DecideSize_reported == ask->DecideSize_reported
            &&& ask@->DecideSize_fit == ask->DecideSize_fit
            &&& ask@->DecideSize_host == ask->DecideSize_host
            &&& ask@->DecideSize_current == ask->DecideSize_current
        },
        ask is DecideRefit ==> {
            &&& ask@ is DecideRefit
            &&& ask@->DecideRefit_host == ask->DecideRefit_host
            &&& ask@->DecideRefit_remaining == ask->DecideRefit_remaining
        },
        ask is SpaceIdValid ==> {
            &&& ask@ is SpaceIdValid
            &&& ask@->SpaceIdValid_space == ask->SpaceIdValid_space@
        },
        ask is Resolve ==> {
            &&& ask@ is Resolve
            &&& ask@->Resolve_name == ask->Resolve_name@
        },
        ask is Seat ==> {
            &&& ask@ is Seat
            &&& ask@->Seat_name == ask->Seat_name@
        },
        ask is Recipient ==> {
            &&& ask@ is Recipient
            &&& ask@->Recipient_name == ask->Recipient_name@
        },
        ask is StoreSend ==> {
            &&& ask@ is StoreSend
            &&& ask@->StoreSend_from == ask->StoreSend_from@
            &&& ask@->StoreSend_to == ask->StoreSend_to@
            &&& ask@->StoreSend_summary == ask->StoreSend_summary@
            &&& ask@->StoreSend_body == ask->StoreSend_body@
        },
        ask is StoreClaim ==> {
            &&& ask@ is StoreClaim
            &&& ask@->StoreClaim_agent == ask->StoreClaim_agent@
        },
        ask is StoreCommit ==> {
            &&& ask@ is StoreCommit
            &&& ask@->StoreCommit_agent == ask->StoreCommit_agent@
            &&& ask@->StoreCommit_ids == seq_views(ask->StoreCommit_ids@)
        },
        ask is StoreRelease ==> {
            &&& ask@ is StoreRelease
            &&& ask@->StoreRelease_agent == ask->StoreRelease_agent@
            &&& ask@->StoreRelease_ids == seq_views(ask->StoreRelease_ids@)
        },
        ask is StoreDepth ==> {
            &&& ask@ is StoreDepth
            &&& ask@->StoreDepth_agent == ask->StoreDepth_agent@
        },
        ask is StoreForwards ==> {
            &&& ask@ is StoreForwards
            &&& ask@->StoreForwards_agents == seq_views(ask->StoreForwards_agents@)
        },
        ask is StoreRename ==> {
            &&& ask@ is StoreRename
            &&& ask@->StoreRename_old_agent == ask->StoreRename_old_agent@
            &&& ask@->StoreRename_agent == ask->StoreRename_agent@
        },
        ask is StoreBroadcast ==> {
            &&& ask@ is StoreBroadcast
            &&& ask@->StoreBroadcast_from == ask->StoreBroadcast_from@
            &&& ask@->StoreBroadcast_recipients == seq_views(ask->StoreBroadcast_recipients@)
            &&& ask@->StoreBroadcast_summary == ask->StoreBroadcast_summary@
            &&& ask@->StoreBroadcast_body == ask->StoreBroadcast_body@
        },
{
}

/// Every part of the work for the host is seen under its own name.
pub proof fn work_is_seen_as_it_is(effect: Effect)
    ensures
        effect is NoteController ==> {
            &&& effect@ is NoteController
            &&& effect@->NoteController_pane == effect->NoteController_pane
            &&& effect@->NoteController_controller == effect->NoteController_controller
        },
        effect is RevokeViewer ==> {
            &&& effect@ is RevokeViewer
            &&& effect@->RevokeViewer_pane == effect->RevokeViewer_pane
            &&& effect@->RevokeViewer_viewer == effect->RevokeViewer_viewer
        },
        effect is RemovePane ==> {
            &&& effect@ is RemovePane
            &&& effect@->RemovePane_pane == effect->RemovePane_pane
        },
        effect is LogMailDepth ==> {
            &&& effect@ is LogMailDepth
            &&& effect@->LogMailDepth_pane == effect->LogMailDepth_pane
            &&& effect@->LogMailDepth_depth == effect->LogMailDepth_depth
        },
        effect is LogStatus ==> {
            &&& effect@ is LogStatus
            &&& effect@->LogStatus_pane == effect->LogStatus_pane
            &&& effect@->LogStatus_status == option_text(effect->LogStatus_status)
        },
        effect is RecordSizeOwner ==> {
            &&& effect@ is RecordSizeOwner
            &&& effect@->RecordSizeOwner_pane == effect->RecordSizeOwner_pane
            &&& effect@->RecordSizeOwner_owner == effect->RecordSizeOwner_owner
        },
        effect is QueueCopy ==> {
            &&& effect@ is QueueCopy
            &&& effect@->QueueCopy_pane == effect->QueueCopy_pane
            &&& effect@->QueueCopy_client == effect->QueueCopy_client
            &&& effect@->QueueCopy_count == effect->QueueCopy_count
        },
        effect is BindAgent ==> {
            &&& effect@ is BindAgent
            &&& effect@->BindAgent_session == effect->BindAgent_session@
            &&& effect@->BindAgent_agent == effect->BindAgent_agent@
        },
        effect is UnbindAgent ==> {
            &&& effect@ is UnbindAgent
            &&& effect@->UnbindAgent_session == effect->UnbindAgent_session@
        },
{
}

/// Every plain part of a reply is seen under its own name.
pub proof fn a_reply_is_seen_as_it_is(data: ControlResponseData)
    ensures
        data is ServerInfo ==> {
            &&& data@ is ServerInfo
            &&& data@->ServerInfo_package_version == data->ServerInfo_package_version@
            &&& data@->ServerInfo_pid == data->ServerInfo_pid
        },
        data is AttentionRequests ==> {
            &&& data@ is AttentionRequests
        },
        data is SessionNames ==> {
            &&& data@ is SessionNames
            &&& data@->SessionNames_names == seq_views(data->SessionNames_names@)
        },
        data is Snapshot ==> {
            &&& data@ is Snapshot
        },
        data is Events ==> {
            &&& data@ is Events
        },
        data is PaneSubscribe ==> {
            &&& data@ is PaneSubscribe
            &&& data@->PaneSubscribe_pane_id == data->PaneSubscribe_pane_id
            &&& data@->PaneSubscribe_gap == data->PaneSubscribe_gap
            &&& data@->PaneSubscribe_snapshot == data->PaneSubscribe_snapshot
            &&& data@->PaneSubscribe_events == data->PaneSubscribe_events@
            &&& data@->PaneSubscribe_through_seq == data->PaneSubscribe_through_seq
            &&& data@->PaneSubscribe_done == data->PaneSubscribe_done
        },
        data is Mutation ==> {
            &&& data@ is Mutation
            &&& data@->Mutation_ack == data->Mutation_ack
        },
        data is ClientRegistered ==> {
            &&& data@ is ClientRegistered
            &&& data@->ClientRegistered_client_id == data->ClientRegistered_client_id
        },
        data is Lease ==> {
            &&& data@ is Lease
            &&& data@->Lease_pane_id == data->Lease_pane_id
            &&& data@->Lease_controller_id == data->Lease_controller_id
            &&& data@->Lease_previous_controller_id == data->Lease_previous_controller_id
        },
        data is LeasesReleased ==> {
            &&& data@ is LeasesReleased
            &&& data@->LeasesReleased_client_id == data->LeasesReleased_client_id
            &&& data@->LeasesReleased_pane_ids == data->LeasesReleased_pane_ids@
        },
        data is WriteQueued ==> {
            &&& data@ is WriteQueued
            &&& data@->WriteQueued_pane_id == data->WriteQueued_pane_id
            &&& data@->WriteQueued_nbytes == data->WriteQueued_nbytes
        },
        data is PaneWriteResult ==> {
            &&& data@ is PaneWriteResult
            &&& data@->PaneWriteResult_pane_id == data->PaneWriteResult_pane_id
            &&& data@->PaneWriteResult_child_pid == data->PaneWriteResult_child_pid
            &&& data@->PaneWriteResult_nbytes == data->PaneWriteResult_nbytes
            &&& data@->PaneWriteResult_total_bytes == data->PaneWriteResult_total_bytes
            &&& data@->PaneWriteResult_complete == data->PaneWriteResult_complete
            &&& data@->PaneWriteResult_submit == data->PaneWriteResult_submit
        },
        data is PaneContent ==> {
            &&& data@ is PaneContent
            &&& data@->PaneContent_content == data->PaneContent_content
        },
        data is PaneStyled ==> {
            &&& data@ is PaneStyled
            &&& data@->PaneStyled_content == data->PaneStyled_content
        },
        data is Session ==> {
            &&& data@ is Session
            &&& data@->Session_session_id == data->Session_session_id
            &&& data@->Session_name == data->Session_name@
            &&& data@->Session_window_id == data->Session_window_id
            &&& data@->Session_pane_id == data->Session_pane_id
        },
        data is Window ==> {
            &&& data@ is Window
            &&& data@->Window_session_id == data->Window_session_id
            &&& data@->Window_window_id == data->Window_window_id
            &&& data@->Window_pane_id == data->Window_pane_id
            &&& data@->Window_title == data->Window_title@
        },
        data is MailAttention ==> {
            &&& data@ is MailAttention
            &&& data@->MailAttention_pane_id == data->MailAttention_pane_id
            &&& data@->MailAttention_ledger == data->MailAttention_ledger
        },
        data is MailInject ==> {
            &&& data@ is MailInject
            &&& data@->MailInject_pane_id == data->MailInject_pane_id
            &&& data@->MailInject_queue_rev == data->MailInject_queue_rev
            &&& data@->MailInject_outcome == data->MailInject_outcome
            &&& data@->MailInject_nbytes == data->MailInject_nbytes
            &&& data@->MailInject_ledger == data->MailInject_ledger
        },
        data is MailSeated ==> {
            &&& data@ is MailSeated
            &&& data@->MailSeated_agent == data->MailSeated_agent@
        },
        data is MailSent ==> {
            &&& data@ is MailSent
            &&& data@->MailSent_id == data->MailSent_id@
            &&& data@->MailSent_depth == data->MailSent_depth
        },
        data is MailLetters ==> {
            &&& data@ is MailLetters
            &&& data@->MailLetters_letters == data->MailLetters_letters@
        },
        data is MailCommitted ==> {
            &&& data@ is MailCommitted
            &&& data@->MailCommitted_committed == data->MailCommitted_committed
        },
        data is MailReleased ==> {
            &&& data@ is MailReleased
            &&& data@->MailReleased_released == data->MailReleased_released
        },
        data is MailDepth ==> {
            &&& data@ is MailDepth
            &&& data@->MailDepth_open == data->MailDepth_open
            &&& data@->MailDepth_held == data->MailDepth_held
        },
        data is MailPeers ==> {
            &&& data@ is MailPeers
        },
        data is MailAliased ==> {
            &&& data@ is MailAliased
            &&& data@->MailAliased_name == data->MailAliased_name@
            &&& data@->MailAliased_agent == data->MailAliased_agent@
        },
        data is MailBroadcasted ==> {
            &&& data@ is MailBroadcasted
            &&& data@->MailBroadcasted_delivered == data->MailBroadcasted_delivered
            &&& data@->MailBroadcasted_recipients == seq_views(data->MailBroadcasted_recipients@)
        },
        data is MailRefused ==> {
            &&& data@ is MailRefused
            &&& data@->MailRefused_reason == data->MailRefused_reason@
        },
        data is RichFocus ==> {
            &&& data@ is RichFocus
            &&& data@->RichFocus_pane_id == data->RichFocus_pane_id
            &&& data@->RichFocus_granted == data->RichFocus_granted
            &&& data@->RichFocus_region_id == data->RichFocus_region_id
            &&& data@->RichFocus_structured == data->RichFocus_structured
        },
        data is RichInput ==> {
            &&& data@ is RichInput
            &&& data@->RichInput_pane_id == data->RichInput_pane_id
            &&& data@->RichInput_delivered == data->RichInput_delivered
        },
        data is SemanticCopy ==> {
            &&& data@ is SemanticCopy
            &&& data@->SemanticCopy_pane_id == data->SemanticCopy_pane_id
            &&& data@->SemanticCopy_text == option_text(data->SemanticCopy_text)
            &&& data@->SemanticCopy_seq == data->SemanticCopy_seq
        },
{
}

} // verus!
