//! Versioned requests and the identity that each one claims.
use vstd::prelude::*;

use crate::wire::{
    ArrangementWire, AttentionAction, AxisWire, MailWake, PaneWriteSubmit, RichInputKind, SpawnSpec,
};

verus! {

/// Versioned request. Request ids are monotonic per connection.
///
/// A split ratio travels as the bits of its floating-point value: the layout
/// engine interprets it, the control plane only carries it.
#[derive(Debug, Clone, PartialEq)]
pub enum ControlRequest {
    ServerInfo { version: u16, request_id: u64 },
    Ping { version: u16, request_id: u64 },
    Snapshot { version: u16, request_id: u64 },
    Events { version: u16, request_id: u64, after_sequence: u64, limit: Option<usize> },
    /// Stream pane-log frames on this connection. `from_seq` is "I have through this
    /// seq"; a zero timeout returns the catch-up and ends.
    SubscribePane {
        version: u16,
        request_id: u64,
        client_id: u64,
        pane_id: u64,
        from_seq: u64,
        timeout_ms: u32,
    },
    /// With a client, the caller must hold the target pane controller lease.
    Split {
        version: u16,
        request_id: u64,
        window_id: u64,
        target_pane_id: u64,
        axis: AxisWire,
        ratio_bits: u64,
        spawn: SpawnSpec,
        client_id: Option<u64>,
    },
    /// With a client, the caller must hold the closed pane controller lease.
    Close {
        version: u16,
        request_id: u64,
        window_id: u64,
        pane_id: u64,
        prior_focus_id: u64,
        client_id: Option<u64>,
    },
    /// Report a viewer size. `fit` applies it in any case; `host` marks the desktop window.
    Resize {
        version: u16,
        request_id: u64,
        window_id: u64,
        cols: u32,
        rows: u32,
        cell_width_px: Option<u32>,
        cell_height_px: Option<u32>,
        client_id: Option<u64>,
        fit: bool,
        host: bool,
    },
    /// Advisory; never steals focus.
    SuggestFocus {
        version: u16,
        request_id: u64,
        window_id: u64,
        pane_id: u64,
        reason: Option<String>,
    },
    /// Operator reports the pane this client is looking at.
    ReportFocus {
        version: u16,
        request_id: u64,
        client_id: u64,
        window_id: u64,
        pane_id: u64,
    },
    /// Raise an agent-attention message without writing to the pane PTY.
    RaiseAttention {
        version: u16,
        request_id: u64,
        client_id: u64,
        pane_id: u64,
        message: String,
    },
    /// Inspect explicit attention requests.
    AttentionRequests { version: u16, request_id: u64, client_id: u64 },
    /// Resolve or snooze only the request that the operator inspected.
    UpdateAttention {
        version: u16,
        request_id: u64,
        client_id: u64,
        pane_id: u64,
        revision: u64,
        expected_space: String,
        expected_session: u64,
        action: AttentionAction,
    },
    /// Publish sticky mail attention. Idempotent on pane and `queue_rev`; zero depth clears.
    MailAttentionSet {
        version: u16,
        request_id: u64,
        client_id: u64,
        pane_id: u64,
        cell: String,
        gen: u64,
        queue_rev: u64,
        depth: u32,
        wake: Option<MailWake>,
        bound_pid: Option<u32>,
    },
    /// Clear mail attention; a stale `queue_rev` must not erase a newer one.
    MailAttentionClear {
        version: u16,
        request_id: u64,
        client_id: u64,
        pane_id: u64,
        queue_rev: u64,
    },
    /// Gated doorbell inject. Defer outcomes are replies, not errors.
    InjectMail {
        version: u16,
        request_id: u64,
        client_id: u64,
        pane_id: u64,
        queue_rev: u64,
        remaining_attempts: u32,
    },
    /// Bind an agent identity to the client of this connection.
    MailHello { version: u16, request_id: u64, client_id: u64, agent: String },
    /// Deliver a letter to an agent id or alias.
    MailSend {
        version: u16,
        request_id: u64,
        client_id: u64,
        to: String,
        summary: String,
        body: String,
    },
    /// Fetch the uncommitted letters of this agent.
    MailClaim { version: u16, request_id: u64, client_id: u64 },
    /// Acknowledge held letters.
    MailCommit { version: u16, request_id: u64, client_id: u64, ids: Vec<String> },
    /// Return held letters to open.
    MailRelease { version: u16, request_id: u64, client_id: u64, ids: Vec<String> },
    /// Peek at mailbox depth without claiming.
    MailInbox { version: u16, request_id: u64, client_id: u64 },
    /// Wait for open mail or the capped timeout. Served off the plane.
    MailWait { version: u16, request_id: u64, client_id: u64, timeout_ms: u32 },
    /// List live agent-bound sessions.
    MailWho { version: u16, request_id: u64, client_id: u64 },
    /// Bind a shorthand to the agent of this connection.
    MailAlias { version: u16, request_id: u64, client_id: u64, name: String },
    /// One letter to every live agent-bound session except the caller.
    MailBroadcast {
        version: u16,
        request_id: u64,
        client_id: u64,
        summary: String,
        body: String,
    },
    /// Toggle or revoke structured focus; needs the pane controller lease.
    RichFocusToggle {
        version: u16,
        request_id: u64,
        client_id: u64,
        pane_id: u64,
        revoke: bool,
    },
    /// Connection-bound structured input intent.
    RichInput {
        version: u16,
        request_id: u64,
        client_id: u64,
        pane_id: u64,
        input: RichInputKind,
    },
    /// Copy the current semantic projection of a pane.
    CopySemantic {
        version: u16,
        request_id: u64,
        client_id: u64,
        pane_id: u64,
        seq: Option<u64>,
    },
    /// Mint a client identity for lease and write authorization.
    RegisterClient { version: u16, request_id: u64 },
    /// Acquire a free controller lease.
    AcquireLease { version: u16, request_id: u64, client_id: u64, pane_id: u64 },
    /// Release the caller's controller lease.
    ReleaseLease { version: u16, request_id: u64, client_id: u64, pane_id: u64 },
    /// Explicit takeover of a pane controller lease.
    TakeoverLease { version: u16, request_id: u64, client_id: u64, pane_id: u64 },
    /// Clear every lease held by the client.
    DisconnectClient { version: u16, request_id: u64, client_id: u64 },
    /// Raw terminal input; may fan out to sibling panes.
    WritePane {
        version: u16,
        request_id: u64,
        client_id: u64,
        pane_id: u64,
        data: String,
    },
    /// Intentional text for exactly one pane. Never takes over a controller.
    PaneWrite {
        version: u16,
        request_id: u64,
        client_id: u64,
        pane_id: u64,
        expected_child_pid: u32,
        data: String,
        submit: PaneWriteSubmit,
    },
    /// Read the visible grid of a pane.
    ReadPane { version: u16, request_id: u64, client_id: u64, pane_id: u64 },
    /// Read the visible grid plus style runs.
    ReadPaneStyled {
        version: u16,
        request_id: u64,
        client_id: u64,
        pane_id: u64,
        view_offset: Option<u32>,
    },
    /// Create a named session; a headless one has no window, pane or PTY.
    CreateSession {
        version: u16,
        request_id: u64,
        name: String,
        spawn: SpawnSpec,
        cols: Option<u32>,
        rows: Option<u32>,
        agent_id: Option<String>,
        headless: bool,
    },
    /// Bind a host writer to one Space for the life of this connection.
    SetClientSpace { version: u16, request_id: u64, client_id: u64, space_id: String },
    /// Compare and transfer exclusive Space ownership as one mutation.
    TransferSpaceSessions {
        version: u16,
        request_id: u64,
        session_ids: Vec<u64>,
        from: Option<String>,
        to: Option<String>,
    },
    /// Move one live pane across Spaces without recreating its PTY.
    TransferSpacePane {
        version: u16,
        request_id: u64,
        pane_id: u64,
        to_session_id: u64,
        from_space: String,
        to_space: String,
    },
    /// List live names and retained mailbox addresses.
    SessionNames { version: u16, request_id: u64 },
    /// Set the session name and its mailbox address together.
    NameSession { version: u16, request_id: u64, session_id: u64, name: String },
    /// Client-local session selection.
    SwitchSession { version: u16, request_id: u64, client_id: u64, session_id: u64 },
    /// Destroy a session with its windows and panes.
    DestroySession { version: u16, request_id: u64, session_id: u64 },
    /// Terminate the long-lived server.
    ShutdownServer { version: u16, request_id: u64, client_id: u64 },
    /// Stop an empty daemon and reject later requests.
    ShutdownIdle { version: u16, request_id: u64, client_id: u64 },
    /// Create a window with one leaf pane in an existing session.
    CreateWindow {
        version: u16,
        request_id: u64,
        session_id: u64,
        title: String,
        spawn: SpawnSpec,
        cols: Option<u32>,
        rows: Option<u32>,
    },
    /// Destroy a window; an emptied session goes with it.
    DestroyWindow { version: u16, request_id: u64, window_id: u64 },
    /// Move a pane between windows. One event; never a close and a split.
    MovePane {
        version: u16,
        request_id: u64,
        from_window_id: u64,
        to_window_id: u64,
        pane_id: u64,
        target_pane_id: u64,
        axis: AxisWire,
        ratio_bits: u64,
        client_id: Option<u64>,
    },
    /// Rebuild the split tree of a window from a named arrangement.
    ApplyArrangement {
        version: u16,
        request_id: u64,
        window_id: u64,
        kind: ArrangementWire,
        focused_pane_id: Option<u64>,
    },
    /// Client-local window selection.
    SwitchWindow { version: u16, request_id: u64, client_id: u64, window_id: u64 },
    /// Set a window title in place.
    RenameWindow { version: u16, request_id: u64, window_id: u64, title: String },
    /// Fan typed input out to every pane in the window.
    SetSyncInput {
        version: u16,
        request_id: u64,
        client_id: u64,
        window_id: u64,
        enabled: bool,
    },
    /// Guest-driven pane status text; none or empty clears.
    SetPaneStatus { version: u16, request_id: u64, pane_id: u64, text: Option<String> },
    /// Set a pane title; an empty title clears it.
    RenamePane { version: u16, request_id: u64, pane_id: u64, title: String },
}

impl ControlRequest {
    /// Protocol version and request id of a request.
    pub open spec fn spec_header(self) -> (u16, u64) {
        match self {
            ControlRequest::ServerInfo { version, request_id } => (version, request_id),
            ControlRequest::Ping { version, request_id } => (version, request_id),
            ControlRequest::Snapshot { version, request_id } => (version, request_id),
            ControlRequest::Events { version, request_id, .. } => (version, request_id),
            ControlRequest::SubscribePane { version, request_id, .. } => (version, request_id),
            ControlRequest::Split { version, request_id, .. } => (version, request_id),
            ControlRequest::Close { version, request_id, .. } => (version, request_id),
            ControlRequest::Resize { version, request_id, .. } => (version, request_id),
            ControlRequest::SuggestFocus { version, request_id, .. } => (version, request_id),
            ControlRequest::ReportFocus { version, request_id, .. } => (version, request_id),
            ControlRequest::RaiseAttention { version, request_id, .. } => (version, request_id),
            ControlRequest::AttentionRequests { version, request_id, .. } => (version, request_id),
            ControlRequest::UpdateAttention { version, request_id, .. } => (version, request_id),
            ControlRequest::MailAttentionSet { version, request_id, .. } => (version, request_id),
            ControlRequest::MailAttentionClear { version, request_id, .. } => (version, request_id),
            ControlRequest::InjectMail { version, request_id, .. } => (version, request_id),
            ControlRequest::MailHello { version, request_id, .. } => (version, request_id),
            ControlRequest::MailSend { version, request_id, .. } => (version, request_id),
            ControlRequest::MailClaim { version, request_id, .. } => (version, request_id),
            ControlRequest::MailCommit { version, request_id, .. } => (version, request_id),
            ControlRequest::MailRelease { version, request_id, .. } => (version, request_id),
            ControlRequest::MailInbox { version, request_id, .. } => (version, request_id),
            ControlRequest::MailWait { version, request_id, .. } => (version, request_id),
            ControlRequest::MailWho { version, request_id, .. } => (version, request_id),
            ControlRequest::MailAlias { version, request_id, .. } => (version, request_id),
            ControlRequest::MailBroadcast { version, request_id, .. } => (version, request_id),
            ControlRequest::RichFocusToggle { version, request_id, .. } => (version, request_id),
            ControlRequest::RichInput { version, request_id, .. } => (version, request_id),
            ControlRequest::CopySemantic { version, request_id, .. } => (version, request_id),
            ControlRequest::RegisterClient { version, request_id } => (version, request_id),
            ControlRequest::AcquireLease { version, request_id, .. } => (version, request_id),
            ControlRequest::ReleaseLease { version, request_id, .. } => (version, request_id),
            ControlRequest::TakeoverLease { version, request_id, .. } => (version, request_id),
            ControlRequest::DisconnectClient { version, request_id, .. } => (version, request_id),
            ControlRequest::WritePane { version, request_id, .. } => (version, request_id),
            ControlRequest::PaneWrite { version, request_id, .. } => (version, request_id),
            ControlRequest::ReadPane { version, request_id, .. } => (version, request_id),
            ControlRequest::ReadPaneStyled { version, request_id, .. } => (version, request_id),
            ControlRequest::CreateSession { version, request_id, .. } => (version, request_id),
            ControlRequest::SetClientSpace { version, request_id, .. } => (version, request_id),
            ControlRequest::TransferSpaceSessions { version, request_id, .. } => (version, request_id),
            ControlRequest::TransferSpacePane { version, request_id, .. } => (version, request_id),
            ControlRequest::SessionNames { version, request_id } => (version, request_id),
            ControlRequest::NameSession { version, request_id, .. } => (version, request_id),
            ControlRequest::SwitchSession { version, request_id, .. } => (version, request_id),
            ControlRequest::DestroySession { version, request_id, .. } => (version, request_id),
            ControlRequest::ShutdownServer { version, request_id, .. } => (version, request_id),
            ControlRequest::ShutdownIdle { version, request_id, .. } => (version, request_id),
            ControlRequest::CreateWindow { version, request_id, .. } => (version, request_id),
            ControlRequest::DestroyWindow { version, request_id, .. } => (version, request_id),
            ControlRequest::MovePane { version, request_id, .. } => (version, request_id),
            ControlRequest::ApplyArrangement { version, request_id, .. } => (version, request_id),
            ControlRequest::SwitchWindow { version, request_id, .. } => (version, request_id),
            ControlRequest::RenameWindow { version, request_id, .. } => (version, request_id),
            ControlRequest::SetSyncInput { version, request_id, .. } => (version, request_id),
            ControlRequest::SetPaneStatus { version, request_id, .. } => (version, request_id),
            ControlRequest::RenamePane { version, request_id, .. } => (version, request_id),
        }
    }

    /// The client that a request acts for, if it names one.
    pub open spec fn spec_claimed(self) -> Option<u64> {
        match self {
            ControlRequest::SubscribePane { client_id, .. } => Some(client_id),
            ControlRequest::Split { client_id, .. } => client_id,
            ControlRequest::Close { client_id, .. } => client_id,
            ControlRequest::Resize { client_id, .. } => client_id,
            ControlRequest::ReportFocus { client_id, .. } => Some(client_id),
            ControlRequest::RaiseAttention { client_id, .. } => Some(client_id),
            ControlRequest::AttentionRequests { client_id, .. } => Some(client_id),
            ControlRequest::UpdateAttention { client_id, .. } => Some(client_id),
            ControlRequest::MailAttentionSet { client_id, .. } => Some(client_id),
            ControlRequest::MailAttentionClear { client_id, .. } => Some(client_id),
            ControlRequest::InjectMail { client_id, .. } => Some(client_id),
            ControlRequest::MailHello { client_id, .. } => Some(client_id),
            ControlRequest::MailSend { client_id, .. } => Some(client_id),
            ControlRequest::MailClaim { client_id, .. } => Some(client_id),
            ControlRequest::MailCommit { client_id, .. } => Some(client_id),
            ControlRequest::MailRelease { client_id, .. } => Some(client_id),
            ControlRequest::MailInbox { client_id, .. } => Some(client_id),
            ControlRequest::MailWait { client_id, .. } => Some(client_id),
            ControlRequest::MailWho { client_id, .. } => Some(client_id),
            ControlRequest::MailAlias { client_id, .. } => Some(client_id),
            ControlRequest::MailBroadcast { client_id, .. } => Some(client_id),
            ControlRequest::RichFocusToggle { client_id, .. } => Some(client_id),
            ControlRequest::RichInput { client_id, .. } => Some(client_id),
            ControlRequest::CopySemantic { client_id, .. } => Some(client_id),
            ControlRequest::AcquireLease { client_id, .. } => Some(client_id),
            ControlRequest::ReleaseLease { client_id, .. } => Some(client_id),
            ControlRequest::TakeoverLease { client_id, .. } => Some(client_id),
            ControlRequest::DisconnectClient { client_id, .. } => Some(client_id),
            ControlRequest::WritePane { client_id, .. } => Some(client_id),
            ControlRequest::PaneWrite { client_id, .. } => Some(client_id),
            ControlRequest::ReadPane { client_id, .. } => Some(client_id),
            ControlRequest::ReadPaneStyled { client_id, .. } => Some(client_id),
            ControlRequest::SetClientSpace { client_id, .. } => Some(client_id),
            ControlRequest::SwitchSession { client_id, .. } => Some(client_id),
            ControlRequest::ShutdownServer { client_id, .. } => Some(client_id),
            ControlRequest::ShutdownIdle { client_id, .. } => Some(client_id),
            ControlRequest::MovePane { client_id, .. } => client_id,
            ControlRequest::SwitchWindow { client_id, .. } => Some(client_id),
            ControlRequest::SetSyncInput { client_id, .. } => Some(client_id),
            _ => None,
        }
    }

    pub fn header(&self) -> (r: (u16, u64))
        ensures
            r == self.spec_header(),
    {
        match self {
            ControlRequest::ServerInfo { version, request_id } => (*version, *request_id),
            ControlRequest::Ping { version, request_id } => (*version, *request_id),
            ControlRequest::Snapshot { version, request_id } => (*version, *request_id),
            ControlRequest::Events { version, request_id, .. } => (*version, *request_id),
            ControlRequest::SubscribePane { version, request_id, .. } => (*version, *request_id),
            ControlRequest::Split { version, request_id, .. } => (*version, *request_id),
            ControlRequest::Close { version, request_id, .. } => (*version, *request_id),
            ControlRequest::Resize { version, request_id, .. } => (*version, *request_id),
            ControlRequest::SuggestFocus { version, request_id, .. } => (*version, *request_id),
            ControlRequest::ReportFocus { version, request_id, .. } => (*version, *request_id),
            ControlRequest::RaiseAttention { version, request_id, .. } => (*version, *request_id),
            ControlRequest::AttentionRequests { version, request_id, .. } => (*version, *request_id),
            ControlRequest::UpdateAttention { version, request_id, .. } => (*version, *request_id),
            ControlRequest::MailAttentionSet { version, request_id, .. } => (*version, *request_id),
            ControlRequest::MailAttentionClear { version, request_id, .. } => (*version, *request_id),
            ControlRequest::InjectMail { version, request_id, .. } => (*version, *request_id),
            ControlRequest::MailHello { version, request_id, .. } => (*version, *request_id),
            ControlRequest::MailSend { version, request_id, .. } => (*version, *request_id),
            ControlRequest::MailClaim { version, request_id, .. } => (*version, *request_id),
            ControlRequest::MailCommit { version, request_id, .. } => (*version, *request_id),
            ControlRequest::MailRelease { version, request_id, .. } => (*version, *request_id),
            ControlRequest::MailInbox { version, request_id, .. } => (*version, *request_id),
            ControlRequest::MailWait { version, request_id, .. } => (*version, *request_id),
            ControlRequest::MailWho { version, request_id, .. } => (*version, *request_id),
            ControlRequest::MailAlias { version, request_id, .. } => (*version, *request_id),
            ControlRequest::MailBroadcast { version, request_id, .. } => (*version, *request_id),
            ControlRequest::RichFocusToggle { version, request_id, .. } => (*version, *request_id),
            ControlRequest::RichInput { version, request_id, .. } => (*version, *request_id),
            ControlRequest::CopySemantic { version, request_id, .. } => (*version, *request_id),
            ControlRequest::RegisterClient { version, request_id } => (*version, *request_id),
            ControlRequest::AcquireLease { version, request_id, .. } => (*version, *request_id),
            ControlRequest::ReleaseLease { version, request_id, .. } => (*version, *request_id),
            ControlRequest::TakeoverLease { version, request_id, .. } => (*version, *request_id),
            ControlRequest::DisconnectClient { version, request_id, .. } => (*version, *request_id),
            ControlRequest::WritePane { version, request_id, .. } => (*version, *request_id),
            ControlRequest::PaneWrite { version, request_id, .. } => (*version, *request_id),
            ControlRequest::ReadPane { version, request_id, .. } => (*version, *request_id),
            ControlRequest::ReadPaneStyled { version, request_id, .. } => (*version, *request_id),
            ControlRequest::CreateSession { version, request_id, .. } => (*version, *request_id),
            ControlRequest::SetClientSpace { version, request_id, .. } => (*version, *request_id),
            ControlRequest::TransferSpaceSessions { version, request_id, .. } => (*version, *request_id),
            ControlRequest::TransferSpacePane { version, request_id, .. } => (*version, *request_id),
            ControlRequest::SessionNames { version, request_id } => (*version, *request_id),
            ControlRequest::NameSession { version, request_id, .. } => (*version, *request_id),
            ControlRequest::SwitchSession { version, request_id, .. } => (*version, *request_id),
            ControlRequest::DestroySession { version, request_id, .. } => (*version, *request_id),
            ControlRequest::ShutdownServer { version, request_id, .. } => (*version, *request_id),
            ControlRequest::ShutdownIdle { version, request_id, .. } => (*version, *request_id),
            ControlRequest::CreateWindow { version, request_id, .. } => (*version, *request_id),
            ControlRequest::DestroyWindow { version, request_id, .. } => (*version, *request_id),
            ControlRequest::MovePane { version, request_id, .. } => (*version, *request_id),
            ControlRequest::ApplyArrangement { version, request_id, .. } => (*version, *request_id),
            ControlRequest::SwitchWindow { version, request_id, .. } => (*version, *request_id),
            ControlRequest::RenameWindow { version, request_id, .. } => (*version, *request_id),
            ControlRequest::SetSyncInput { version, request_id, .. } => (*version, *request_id),
            ControlRequest::SetPaneStatus { version, request_id, .. } => (*version, *request_id),
            ControlRequest::RenamePane { version, request_id, .. } => (*version, *request_id),
        }
    }

    pub fn claimed_client_id(&self) -> (r: Option<u64>)
        ensures
            r == self.spec_claimed(),
    {
        match self {
            ControlRequest::SubscribePane { client_id, .. } => Some(*client_id),
            ControlRequest::Split { client_id, .. } => *client_id,
            ControlRequest::Close { client_id, .. } => *client_id,
            ControlRequest::Resize { client_id, .. } => *client_id,
            ControlRequest::ReportFocus { client_id, .. } => Some(*client_id),
            ControlRequest::RaiseAttention { client_id, .. } => Some(*client_id),
            ControlRequest::AttentionRequests { client_id, .. } => Some(*client_id),
            ControlRequest::UpdateAttention { client_id, .. } => Some(*client_id),
            ControlRequest::MailAttentionSet { client_id, .. } => Some(*client_id),
            ControlRequest::MailAttentionClear { client_id, .. } => Some(*client_id),
            ControlRequest::InjectMail { client_id, .. } => Some(*client_id),
            ControlRequest::MailHello { client_id, .. } => Some(*client_id),
            ControlRequest::MailSend { client_id, .. } => Some(*client_id),
            ControlRequest::MailClaim { client_id, .. } => Some(*client_id),
            ControlRequest::MailCommit { client_id, .. } => Some(*client_id),
            ControlRequest::MailRelease { client_id, .. } => Some(*client_id),
            ControlRequest::MailInbox { client_id, .. } => Some(*client_id),
            ControlRequest::MailWait { client_id, .. } => Some(*client_id),
            ControlRequest::MailWho { client_id, .. } => Some(*client_id),
            ControlRequest::MailAlias { client_id, .. } => Some(*client_id),
            ControlRequest::MailBroadcast { client_id, .. } => Some(*client_id),
            ControlRequest::RichFocusToggle { client_id, .. } => Some(*client_id),
            ControlRequest::RichInput { client_id, .. } => Some(*client_id),
            ControlRequest::CopySemantic { client_id, .. } => Some(*client_id),
            ControlRequest::AcquireLease { client_id, .. } => Some(*client_id),
            ControlRequest::ReleaseLease { client_id, .. } => Some(*client_id),
            ControlRequest::TakeoverLease { client_id, .. } => Some(*client_id),
            ControlRequest::DisconnectClient { client_id, .. } => Some(*client_id),
            ControlRequest::WritePane { client_id, .. } => Some(*client_id),
            ControlRequest::PaneWrite { client_id, .. } => Some(*client_id),
            ControlRequest::ReadPane { client_id, .. } => Some(*client_id),
            ControlRequest::ReadPaneStyled { client_id, .. } => Some(*client_id),
            ControlRequest::SetClientSpace { client_id, .. } => Some(*client_id),
            ControlRequest::SwitchSession { client_id, .. } => Some(*client_id),
            ControlRequest::ShutdownServer { client_id, .. } => Some(*client_id),
            ControlRequest::ShutdownIdle { client_id, .. } => Some(*client_id),
            ControlRequest::MovePane { client_id, .. } => *client_id,
            ControlRequest::SwitchWindow { client_id, .. } => Some(*client_id),
            ControlRequest::SetSyncInput { client_id, .. } => Some(*client_id),
            ControlRequest::ServerInfo { .. } => None,
            ControlRequest::Ping { .. } => None,
            ControlRequest::Snapshot { .. } => None,
            ControlRequest::Events { .. } => None,
            ControlRequest::SuggestFocus { .. } => None,
            ControlRequest::RegisterClient { .. } => None,
            ControlRequest::CreateSession { .. } => None,
            ControlRequest::TransferSpaceSessions { .. } => None,
            ControlRequest::TransferSpacePane { .. } => None,
            ControlRequest::SessionNames { .. } => None,
            ControlRequest::NameSession { .. } => None,
            ControlRequest::DestroySession { .. } => None,
            ControlRequest::CreateWindow { .. } => None,
            ControlRequest::DestroyWindow { .. } => None,
            ControlRequest::ApplyArrangement { .. } => None,
            ControlRequest::RenameWindow { .. } => None,
            ControlRequest::SetPaneStatus { .. } => None,
            ControlRequest::RenamePane { .. } => None,
        }
    }
}

} // verus!
