//! What the control plane answers: response bodies, snapshots and pane content.
use vstd::prelude::*;

use crate::error::{ControlError, ErrorView};
use crate::event::{option_text, BatchView, EventBatch};
use crate::model::{option_view, seq_views};
use crate::style::{ColorWire, CursorShapeWire, StyleRun};
use crate::topology::PaneLayout;
use crate::wire::{
    AttentionRequest, AttentionRequestView, AxisWire, Letter,
    MailAttentionState, MailAttentionView, MailInjectDiagnostic, MailInjectOutcome, MailPeer,
    MailPeerView, PaneGeometry, PaneInputLedger, PaneLogFrame, PaneWriteReceipt, PaneWriteSubmit,
    SizeOwner, SpawnSpec, SpawnView, WindowBounds, PROTOCOL_VERSION,
};

verus! {

/// Bounded visible-grid projection used by local attach clients.
#[derive(Debug, PartialEq)]
pub struct PaneContent {
    pub pane_id: u64,
    pub revision: u64,
    pub cols: u32,
    pub rows: u32,
    pub cursor_row: u32,
    pub cursor_col: u32,
    pub cursor_visible: bool,
    pub alt_active: bool,
    pub child_alive: bool,
    /// Diagnostic process identity for local detach durability checks.
    pub child_pid: Option<u32>,
    pub lines: Vec<String>,
    /// Child cursor shape, where it is known.
    pub cursor_shape: Option<CursorShapeWire>,
}

/// Rich overlay kind on the attach snapshot.
#[derive(Debug, Clone, Copy, PartialEq, Eq, Structural)]
pub enum OverlayKind {
    CellRect,
    Viewport,
}

/// One styled run inside a rich overlay. Palette indexes match the wire.
#[derive(Debug, PartialEq)]
pub struct OverlayRun {
    pub text: String,
    pub fg: Option<u8>,
    pub bg: Option<u8>,
    pub bold: bool,
    pub italic: bool,
    pub underline: bool,
    pub inverse: bool,
}

/// One granted rich overlay projected for attach paint.
#[derive(Debug, PartialEq)]
pub struct PaneOverlay {
    pub id: u32,
    pub kind: OverlayKind,
    pub row: i32,
    pub col: u16,
    pub rows: u16,
    pub cols: u16,
    pub text: String,
    pub runs: Vec<OverlayRun>,
}

/// Inverse run in dock cell coordinates.
#[derive(Debug, Clone, Copy, PartialEq, Eq, Structural)]
pub struct WorkspaceInverseRun {
    pub row: u32,
    pub col: u32,
    pub cols: u32,
}

/// Semantic status run in dock coordinates.
#[derive(Debug, Clone, Copy, PartialEq, Eq, Structural)]
pub struct WorkspaceStyleRun {
    pub row: u32,
    pub col: u32,
    pub cols: u32,
    pub fg: ColorWire,
}

/// `PaneContent` plus run-length style runs, one inner list per visible row.
#[derive(Debug, PartialEq)]
pub struct PaneStyled {
    pub content: PaneContent,
    pub runs: Vec<Vec<StyleRun>>,
    /// Reserved workspace lines above the guest terminal.
    pub workspace: Vec<String>,
    /// Effective rows back from the live tail after clamp.
    pub view_offset: Option<u32>,
    pub max_view_scroll: Option<u32>,
    pub child_mouse_tracking: Option<bool>,
    pub child_mouse_sgr: Option<bool>,
    pub overlays: Vec<PaneOverlay>,
    pub experimental_rich: bool,
    /// Host-granted rich-focus region, if any.
    pub rich_focus_id: Option<u32>,
    pub structured_focus: bool,
    /// Peek of the next unacknowledged copy for this client.
    pub semantic_clipboard: Option<String>,
    pub semantic_clipboard_seq: Option<u64>,
    pub workspace_inverse: Vec<WorkspaceInverseRun>,
    pub workspace_styles: Vec<WorkspaceStyleRun>,
}

/// Sequence reached by a change.
#[derive(Debug, Clone, Copy, PartialEq, Eq, Structural)]
pub struct MutationAck {
    pub sequence: u64,
}

/// Split tree on the wire.
#[derive(Debug, PartialEq)]
pub enum LayoutSnapshot {
    Leaf { pane_id: u64 },
    Split {
        axis: AxisWire,
        ratio_bits: u64,
        first: Box<LayoutSnapshot>,
        second: Box<LayoutSnapshot>,
    },
}

/// The wire form of a split tree: the same tree.
pub open spec fn layout_snapshot_of(layout: PaneLayout) -> LayoutSnapshot
    decreases layout,
{
    match layout {
        PaneLayout::Leaf { pane_id } => LayoutSnapshot::Leaf { pane_id },
        PaneLayout::Split { axis, ratio_bits, first, second } => LayoutSnapshot::Split {
            axis,
            ratio_bits,
            first: Box::new(layout_snapshot_of(*first)),
            second: Box::new(layout_snapshot_of(*second)),
        },
    }
}

pub fn layout_snapshot(layout: &PaneLayout) -> (r: LayoutSnapshot)
    ensures
        r == layout_snapshot_of(*layout),
    decreases layout,
{
    match layout {
        PaneLayout::Leaf { pane_id } => LayoutSnapshot::Leaf { pane_id: *pane_id },
        PaneLayout::Split { axis, ratio_bits, first, second } => LayoutSnapshot::Split {
            axis: *axis,
            ratio_bits: *ratio_bits,
            first: Box::new(layout_snapshot(first)),
            second: Box::new(layout_snapshot(second)),
        },
    }
}

/// State of one pane.
#[derive(Debug, PartialEq)]
pub struct PaneSnapshot {
    /// Latest intentional input queue receipt, never proof of execution.
    pub pane_write: Option<PaneWriteReceipt>,
    pub id: u64,
    pub title: String,
    /// True after a rename with a non-empty title.
    pub title_pinned: bool,
    pub controller_id: Option<u64>,
    pub geometry: PaneGeometry,
    pub spawn: Option<SpawnSpec>,
    /// Live child, when the pane is running.
    pub child_pid: Option<u32>,
    pub mail: Option<MailAttentionState>,
    pub status: Option<String>,
    pub attention: Option<String>,
    pub mail_inject: Option<MailInjectDiagnostic>,
    pub ledger: PaneInputLedger,
    /// Client that last set this window's size.
    pub size_owner: Option<SizeOwner>,
}

#[verifier::ext_equal]
pub struct PaneSnapshotView {
    pub pane_write: Option<PaneWriteReceipt>,
    pub id: u64,
    pub title: Seq<char>,
    pub title_pinned: bool,
    pub controller_id: Option<u64>,
    pub geometry: PaneGeometry,
    pub spawn: Option<SpawnView>,
    pub child_pid: Option<u32>,
    pub mail: Option<MailAttentionView>,
    pub status: Option<Seq<char>>,
    pub attention: Option<Seq<char>>,
    pub mail_inject: Option<MailInjectDiagnostic>,
    pub ledger: PaneInputLedger,
    pub size_owner: Option<SizeOwner>,
}

impl View for PaneSnapshot {
    type V = PaneSnapshotView;

    open spec fn view(&self) -> PaneSnapshotView {
        PaneSnapshotView {
            pane_write: self.pane_write,
            id: self.id,
            title: self.title@,
            title_pinned: self.title_pinned,
            controller_id: self.controller_id,
            geometry: self.geometry,
            spawn: option_view(self.spawn),
            child_pid: self.child_pid,
            mail: option_view(self.mail),
            status: option_text(self.status),
            attention: option_text(self.attention),
            mail_inject: self.mail_inject,
            ledger: self.ledger,
            size_owner: self.size_owner,
        }
    }
}

/// State of one window.
#[derive(Debug, PartialEq)]
pub struct WindowSnapshot {
    pub id: u64,
    pub title: String,
    pub bounds: WindowBounds,
    pub layout: LayoutSnapshot,
    pub panes: Vec<PaneSnapshot>,
    pub sync_input: bool,
}

#[verifier::ext_equal]
pub struct WindowSnapshotView {
    pub id: u64,
    pub title: Seq<char>,
    pub bounds: WindowBounds,
    pub layout: LayoutSnapshot,
    pub panes: Seq<PaneSnapshotView>,
    pub sync_input: bool,
}

impl View for WindowSnapshot {
    type V = WindowSnapshotView;

    open spec fn view(&self) -> WindowSnapshotView {
        WindowSnapshotView {
            id: self.id,
            title: self.title@,
            bounds: self.bounds,
            layout: self.layout,
            panes: seq_views(self.panes@),
            sync_input: self.sync_input,
        }
    }
}

/// State of one session.
#[derive(Debug, PartialEq)]
pub struct SessionSnapshot {
    pub id: u64,
    pub name: String,
    pub agent_id: Option<String>,
    pub space_id: Option<String>,
    pub windows: Vec<WindowSnapshot>,
}

#[verifier::ext_equal]
pub struct SessionSnapshotView {
    pub id: u64,
    pub name: Seq<char>,
    pub agent_id: Option<Seq<char>>,
    pub space_id: Option<Seq<char>>,
    pub windows: Seq<WindowSnapshotView>,
}

impl View for SessionSnapshot {
    type V = SessionSnapshotView;

    open spec fn view(&self) -> SessionSnapshotView {
        SessionSnapshotView {
            id: self.id,
            name: self.name@,
            agent_id: option_text(self.agent_id),
            space_id: option_text(self.space_id),
            windows: seq_views(self.windows@),
        }
    }
}

/// Everything a client needs before it follows events.
#[derive(Debug, PartialEq)]
pub struct Snapshot {
    pub sequence: u64,
    pub sessions: Vec<SessionSnapshot>,
}

#[verifier::ext_equal]
pub struct SnapshotView {
    pub sequence: u64,
    pub sessions: Seq<SessionSnapshotView>,
}

impl View for Snapshot {
    type V = SnapshotView;

    open spec fn view(&self) -> SnapshotView {
        SnapshotView {
            sequence: self.sequence,
            sessions: seq_views(self.sessions@),
        }
    }
}

/// Body of a successful response.
#[derive(Debug, PartialEq)]
pub enum ControlResponseData {
    ServerInfo {
        package_version: String,
        pid: u32,
    },
    AttentionRequests {
        requests: Vec<AttentionRequest>,
    },
    SessionNames {
        names: Vec<String>,
    },
    Pong,
    Snapshot {
        snapshot: Snapshot,
    },
    Events {
        batch: EventBatch,
    },
    /// One stream frame. `done` ends the long-lived response.
    PaneSubscribe {
        pane_id: u64,
        gap: bool,
        snapshot: Option<PaneStyled>,
        events: Vec<PaneLogFrame>,
        through_seq: u64,
        done: bool,
    },
    Mutation {
        ack: MutationAck,
    },
    ClientRegistered {
        client_id: u64,
    },
    Lease {
        pane_id: u64,
        controller_id: Option<u64>,
        previous_controller_id: Option<u64>,
    },
    LeasesReleased {
        client_id: u64,
        pane_ids: Vec<u64>,
    },
    WriteQueued {
        pane_id: u64,
        nbytes: usize,
    },
    /// Queue receipt, not an application acknowledgement. A partial result
    /// must not be retried automatically.
    PaneWriteResult {
        pane_id: u64,
        child_pid: u32,
        nbytes: usize,
        total_bytes: usize,
        complete: bool,
        submit: PaneWriteSubmit,
        error: Option<ControlError>,
    },
    PaneContent {
        content: PaneContent,
    },
    PaneStyled {
        content: PaneStyled,
    },
    Session {
        session_id: u64,
        name: String,
        window_id: u64,
        pane_id: u64,
    },
    ShutdownAccepted,
    Window {
        session_id: u64,
        window_id: u64,
        pane_id: u64,
        title: String,
    },
    MailAttention {
        pane_id: u64,
        attention: Option<MailAttentionState>,
        ledger: PaneInputLedger,
    },
    MailInject {
        pane_id: u64,
        queue_rev: u64,
        outcome: MailInjectOutcome,
        nbytes: usize,
        ledger: PaneInputLedger,
    },
    MailSeated {
        agent: String,
    },
    MailSent {
        id: String,
        depth: u32,
    },
    MailLetters {
        letters: Vec<Letter>,
    },
    MailCommitted {
        committed: u32,
    },
    MailReleased {
        released: u32,
    },
    MailDepth {
        open: u32,
        held: u32,
    },
    MailPeers {
        peers: Vec<MailPeer>,
    },
    MailAliased {
        name: String,
        agent: String,
    },
    MailBroadcasted {
        delivered: u32,
        recipients: Vec<String>,
    },
    /// A mail verb refused in plain words. Not a protocol error.
    MailRefused {
        reason: String,
    },
    RichFocus {
        pane_id: u64,
        granted: bool,
        region_id: Option<u32>,
        structured: bool,
    },
    RichInput {
        pane_id: u64,
        delivered: bool,
    },
    SemanticCopy {
        pane_id: u64,
        text: Option<String>,
        seq: Option<u64>,
    },
}

#[verifier::ext_equal]
pub enum DataView {
    ServerInfo { package_version: Seq<char>, pid: u32 },
    AttentionRequests { requests: Seq<AttentionRequestView> },
    SessionNames { names: Seq<Seq<char>> },
    Pong,
    Snapshot { snapshot: SnapshotView },
    Events { batch: BatchView },
    PaneSubscribe { pane_id: u64, gap: bool, snapshot: Option<PaneStyled>, events: Seq<PaneLogFrame>, through_seq: u64, done: bool },
    Mutation { ack: MutationAck },
    ClientRegistered { client_id: u64 },
    Lease { pane_id: u64, controller_id: Option<u64>, previous_controller_id: Option<u64> },
    LeasesReleased { client_id: u64, pane_ids: Seq<u64> },
    WriteQueued { pane_id: u64, nbytes: usize },
    PaneWriteResult { pane_id: u64, child_pid: u32, nbytes: usize, total_bytes: usize, complete: bool, submit: PaneWriteSubmit, error: Option<ErrorView> },
    PaneContent { content: PaneContent },
    PaneStyled { content: PaneStyled },
    Session { session_id: u64, name: Seq<char>, window_id: u64, pane_id: u64 },
    ShutdownAccepted,
    Window { session_id: u64, window_id: u64, pane_id: u64, title: Seq<char> },
    MailAttention { pane_id: u64, attention: Option<MailAttentionView>, ledger: PaneInputLedger },
    MailInject { pane_id: u64, queue_rev: u64, outcome: MailInjectOutcome, nbytes: usize, ledger: PaneInputLedger },
    MailSeated { agent: Seq<char> },
    MailSent { id: Seq<char>, depth: u32 },
    MailLetters { letters: Seq<Letter> },
    MailCommitted { committed: u32 },
    MailReleased { released: u32 },
    MailDepth { open: u32, held: u32 },
    MailPeers { peers: Seq<MailPeerView> },
    MailAliased { name: Seq<char>, agent: Seq<char> },
    MailBroadcasted { delivered: u32, recipients: Seq<Seq<char>> },
    MailRefused { reason: Seq<char> },
    RichFocus { pane_id: u64, granted: bool, region_id: Option<u32>, structured: bool },
    RichInput { pane_id: u64, delivered: bool },
    SemanticCopy { pane_id: u64, text: Option<Seq<char>>, seq: Option<u64> },
}

impl View for ControlResponseData {
    type V = DataView;

    open spec fn view(&self) -> DataView {
        match *self {
            ControlResponseData::ServerInfo { package_version, pid } => DataView::ServerInfo {
                package_version: package_version@,
                pid,
            },
            ControlResponseData::AttentionRequests { requests } => DataView::AttentionRequests {
                requests: seq_views(requests@),
            },
            ControlResponseData::SessionNames { names } => DataView::SessionNames {
                names: seq_views(names@),
            },
            ControlResponseData::Pong => DataView::Pong,
            ControlResponseData::Snapshot { snapshot } => DataView::Snapshot {
                snapshot: snapshot@,
            },
            ControlResponseData::Events { batch } => DataView::Events {
                batch: batch@,
            },
            ControlResponseData::PaneSubscribe { pane_id, gap, snapshot, events, through_seq, done } => DataView::PaneSubscribe {
                pane_id,
                gap,
                snapshot,
                events: events@,
                through_seq,
                done,
            },
            ControlResponseData::Mutation { ack } => DataView::Mutation {
                ack,
            },
            ControlResponseData::ClientRegistered { client_id } => DataView::ClientRegistered {
                client_id,
            },
            ControlResponseData::Lease { pane_id, controller_id, previous_controller_id } => DataView::Lease {
                pane_id,
                controller_id,
                previous_controller_id,
            },
            ControlResponseData::LeasesReleased { client_id, pane_ids } => DataView::LeasesReleased {
                client_id,
                pane_ids: pane_ids@,
            },
            ControlResponseData::WriteQueued { pane_id, nbytes } => DataView::WriteQueued {
                pane_id,
                nbytes,
            },
            ControlResponseData::PaneWriteResult { pane_id, child_pid, nbytes, total_bytes, complete, submit, error } => DataView::PaneWriteResult {
                pane_id,
                child_pid,
                nbytes,
                total_bytes,
                complete,
                submit,
                error: option_view(error),
            },
            ControlResponseData::PaneContent { content } => DataView::PaneContent {
                content,
            },
            ControlResponseData::PaneStyled { content } => DataView::PaneStyled {
                content,
            },
            ControlResponseData::Session { session_id, name, window_id, pane_id } => DataView::Session {
                session_id,
                name: name@,
                window_id,
                pane_id,
            },
            ControlResponseData::ShutdownAccepted => DataView::ShutdownAccepted,
            ControlResponseData::Window { session_id, window_id, pane_id, title } => DataView::Window {
                session_id,
                window_id,
                pane_id,
                title: title@,
            },
            ControlResponseData::MailAttention { pane_id, attention, ledger } => DataView::MailAttention {
                pane_id,
                attention: option_view(attention),
                ledger,
            },
            ControlResponseData::MailInject { pane_id, queue_rev, outcome, nbytes, ledger } => DataView::MailInject {
                pane_id,
                queue_rev,
                outcome,
                nbytes,
                ledger,
            },
            ControlResponseData::MailSeated { agent } => DataView::MailSeated {
                agent: agent@,
            },
            ControlResponseData::MailSent { id, depth } => DataView::MailSent {
                id: id@,
                depth,
            },
            ControlResponseData::MailLetters { letters } => DataView::MailLetters {
                letters: letters@,
            },
            ControlResponseData::MailCommitted { committed } => DataView::MailCommitted {
                committed,
            },
            ControlResponseData::MailReleased { released } => DataView::MailReleased {
                released,
            },
            ControlResponseData::MailDepth { open, held } => DataView::MailDepth {
                open,
                held,
            },
            ControlResponseData::MailPeers { peers } => DataView::MailPeers {
                peers: seq_views(peers@),
            },
            ControlResponseData::MailAliased { name, agent } => DataView::MailAliased {
                name: name@,
                agent: agent@,
            },
            ControlResponseData::MailBroadcasted { delivered, recipients } => DataView::MailBroadcasted {
                delivered,
                recipients: seq_views(recipients@),
            },
            ControlResponseData::MailRefused { reason } => DataView::MailRefused {
                reason: reason@,
            },
            ControlResponseData::RichFocus { pane_id, granted, region_id, structured } => DataView::RichFocus {
                pane_id,
                granted,
                region_id,
                structured,
            },
            ControlResponseData::RichInput { pane_id, delivered } => DataView::RichInput {
                pane_id,
                delivered,
            },
            ControlResponseData::SemanticCopy { pane_id, text, seq } => DataView::SemanticCopy {
                pane_id,
                text: option_text(text),
                seq,
            },
        }
    }
}

/// Outcome of one request.
#[derive(Debug, PartialEq)]
pub enum ControlResponseBody {
    Success { response: ControlResponseData },
    Failure { error: ControlError },
}

/// One response on the wire.
#[derive(Debug, PartialEq)]
pub struct ControlResponse {
    pub version: u16,
    pub request_id: u64,
    pub body: ControlResponseBody,
}

/// A response with its contents taken by view.
pub struct ResponseView {
    pub version: u16,
    pub request_id: u64,
    pub body: Result<DataView, ErrorView>,
}

impl View for ControlResponse {
    type V = ResponseView;

    open spec fn view(&self) -> ResponseView {
        ResponseView {
            version: self.version,
            request_id: self.request_id,
            body: match self.body {
                ControlResponseBody::Success { response } => Ok(response@),
                ControlResponseBody::Failure { error } => Err(error@),
            },
        }
    }
}

impl ControlResponse {
    pub fn ok(request_id: u64, response: ControlResponseData) -> (r: Self)
        ensures
            r@ == (ResponseView { version: PROTOCOL_VERSION, request_id, body: Ok(response@) }),
    {
        ControlResponse {
            version: PROTOCOL_VERSION,
            request_id,
            body: ControlResponseBody::Success { response },
        }
    }

    pub fn error(request_id: u64, error: ControlError) -> (r: Self)
        ensures
            r@ == (ResponseView { version: PROTOCOL_VERSION, request_id, body: Err(error@) }),
    {
        ControlResponse {
            version: PROTOCOL_VERSION,
            request_id,
            body: ControlResponseBody::Failure { error },
        }
    }

    pub fn from_result(request_id: u64, result: Result<ControlResponseData, ControlError>) -> (r:
        Self)
        ensures
            r@ == (ResponseView {
                version: PROTOCOL_VERSION,
                request_id,
                body: reply_view(result),
            }),
    {
        match result {
            Ok(response) => ControlResponse::ok(request_id, response),
            Err(error) => ControlResponse::error(request_id, error),
        }
    }
}

/// A handler result with its contents taken by view.
pub open spec fn reply_view(r: Result<ControlResponseData, ControlError>) -> Result<
    DataView,
    ErrorView,
> {
    match r {
        Ok(data) => Ok(data@),
        Err(error) => Err(error@),
    }
}

/// Acknowledges a change.
pub fn mutation(sequence: u64) -> (r: ControlResponseData)
    ensures
        r@ == (DataView::Mutation { ack: MutationAck { sequence } }),
{
    ControlResponseData::Mutation { ack: MutationAck { sequence } }
}

} // verus!
