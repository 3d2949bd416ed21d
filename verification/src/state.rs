//! State of the control plane: clients, panes, window frames, and the work that
//! the plane hands to its host.
use vstd::prelude::*;

use crate::event::option_text;
use crate::idmap::IdMap;
use crate::model::{option_view, seq_views};
use crate::topology::PaneLayout;
use crate::wire::{
    ArrangementWire, AttentionRequest, AttentionRequestView, AxisWire, ClientRole,
    MailAttentionState, MailAttentionView, MailInjectDiagnostic,
    PaneGeometry, PaneWriteReceipt, RemoteSizePolicy, RichPointerPhase, SizeOwner, SpawnSpec,
    SpawnView, ViewerId, Viewport, WindowBounds,
};

verus! {

/// A registered client.
#[derive(Debug, PartialEq)]
pub struct Client {
    /// Space that this client may write to; any, if absent.
    pub space: Option<String>,
    /// Host-minted identity, never accepted from the control client.
    pub viewer: ViewerId,
    /// Selected session. Topology is not mutated.
    pub view: Option<u64>,
    /// Selected window. Topology is not mutated.
    pub window_view: Option<u64>,
    /// Last reported focused pane.
    pub focus: Option<u64>,
    /// Asserted agent identity.
    pub agent: Option<String>,
    /// Last reported size per window.
    pub viewports: IdMap<Viewport>,
    /// The client sizes windows as the desktop host.
    pub host: bool,
}

#[verifier::ext_equal]
pub struct ClientView {
    pub space: Option<Seq<char>>,
    pub viewer: ViewerId,
    pub view: Option<u64>,
    pub window_view: Option<u64>,
    pub focus: Option<u64>,
    pub agent: Option<Seq<char>>,
    pub viewports: Map<u64, Viewport>,
    pub host: bool,
}

impl View for Client {
    type V = ClientView;

    open spec fn view(&self) -> ClientView {
        ClientView {
            space: option_text(self.space),
            viewer: self.viewer,
            view: self.view,
            window_view: self.window_view,
            focus: self.focus,
            agent: option_text(self.agent),
            viewports: self.viewports@,
            host: self.host,
        }
    }
}

/// Hide and stuck watermark of the mail doorbell of a pane.
#[derive(Debug, Clone, Copy, PartialEq, Eq, Structural)]
pub struct MailInjectRecord {
    pub queue_rev: u64,
    pub stuck: bool,
    pub hide_until_ms: u64,
    pub hide_revision: u64,
    pub writes: u32,
}

/// Delayed doorbell retry for unread mail.
#[derive(Debug, Clone, Copy, PartialEq, Eq, Structural)]
pub struct MailNudge {
    pub queue_rev: u64,
    pub due_at_ms: u64,
    pub verification: bool,
}

/// What the plane remembers about a pane beside its place.
#[derive(Debug, PartialEq)]
pub struct PaneState {
    pub spawn: Option<SpawnSpec>,
    /// Sticky mail attention.
    pub mail: Option<MailAttentionState>,
    /// Latest generic attention message.
    pub attention: Option<String>,
    /// Explicit attention request.
    pub team: Option<AttentionRequest>,
    /// Guest-set status text.
    pub status: Option<String>,
    /// Last applied queue revision. Survives a clear, so that a delayed older
    /// set cannot resurrect attention.
    pub mail_rev: Option<u64>,
    /// Time of the last write, and whether it ended a line.
    pub written: Option<(u64, bool)>,
    /// Time of the last raw write. Survives lease release.
    pub input_at: Option<u64>,
    pub output_at: Option<u64>,
    /// Recent output: time and bytes, oldest first.
    pub output: Vec<(u64, usize)>,
    pub receipt: Option<PaneWriteReceipt>,
    pub inject: Option<MailInjectRecord>,
    pub inject_last: Option<MailInjectDiagnostic>,
    pub nudge: Option<MailNudge>,
}

#[verifier::ext_equal]
pub struct PaneStateView {
    pub spawn: Option<SpawnView>,
    pub mail: Option<MailAttentionView>,
    pub attention: Option<Seq<char>>,
    pub team: Option<AttentionRequestView>,
    pub status: Option<Seq<char>>,
    pub mail_rev: Option<u64>,
    pub written: Option<(u64, bool)>,
    pub input_at: Option<u64>,
    pub output_at: Option<u64>,
    pub output: Seq<(u64, usize)>,
    pub receipt: Option<PaneWriteReceipt>,
    pub inject: Option<MailInjectRecord>,
    pub inject_last: Option<MailInjectDiagnostic>,
    pub nudge: Option<MailNudge>,
}

impl View for PaneState {
    type V = PaneStateView;

    open spec fn view(&self) -> PaneStateView {
        PaneStateView {
            spawn: option_view(self.spawn),
            mail: option_view(self.mail),
            attention: option_text(self.attention),
            team: option_view(self.team),
            status: option_text(self.status),
            mail_rev: self.mail_rev,
            written: self.written,
            input_at: self.input_at,
            output_at: self.output_at,
            output: self.output@,
            receipt: self.receipt,
            inject: self.inject,
            inject_last: self.inject_last,
            nudge: self.nudge,
        }
    }
}

impl PaneStateView {
    /// A pane of which nothing is remembered.
    pub open spec fn blank() -> PaneStateView {
        PaneStateView {
            spawn: None,
            mail: None,
            attention: None,
            team: None,
            status: None,
            mail_rev: None,
            written: None,
            input_at: None,
            output_at: None,
            output: Seq::empty(),
            receipt: None,
            inject: None,
            inject_last: None,
            nudge: None,
        }
    }
}

impl PaneState {
    pub fn blank() -> (s: Self)
        ensures
            s@ == PaneStateView::blank(),
    {
        let s = PaneState {
            spawn: None,
            mail: None,
            attention: None,
            team: None,
            status: None,
            mail_rev: None,
            written: None,
            input_at: None,
            output_at: None,
            output: Vec::new(),
            receipt: None,
            inject: None,
            inject_last: None,
            nudge: None,
        };
        assert(s@.output =~= Seq::empty());
        s
    }
}

/// Applied size of a window and the place of its panes.
#[derive(Debug, PartialEq)]
pub struct Frame {
    pub bounds: WindowBounds,
    pub geometry: Vec<PaneGeometry>,
}

#[verifier::ext_equal]
pub struct FrameView {
    pub bounds: WindowBounds,
    pub geometry: Seq<PaneGeometry>,
}

impl View for Frame {
    type V = FrameView;

    open spec fn view(&self) -> FrameView {
        FrameView {
            bounds: self.bounds,
            geometry: self.geometry@,
        }
    }
}

/// Work for the host that returns nothing to the plane.
#[derive(Debug, PartialEq)]
pub enum Effect {
    NoteController {
        pane: u64,
        controller: Option<u64>,
    },
    RevokeViewer {
        pane: u64,
        viewer: ViewerId,
    },
    RemovePane {
        pane: u64,
    },
    LogMailDepth {
        pane: u64,
        depth: u32,
    },
    LogStatus {
        pane: u64,
        status: Option<String>,
    },
    RecordSizeOwner {
        pane: u64,
        owner: Option<SizeOwner>,
    },
    QueueCopy {
        pane: u64,
        client: u64,
        count: usize,
    },
    BindAgent {
        session: String,
        agent: String,
    },
    UnbindAgent {
        session: String,
    },
    RingMail,
}

#[verifier::ext_equal]
pub enum EffectView {
    NoteController { pane: u64, controller: Option<u64> },
    RevokeViewer { pane: u64, viewer: ViewerId },
    RemovePane { pane: u64 },
    LogMailDepth { pane: u64, depth: u32 },
    LogStatus { pane: u64, status: Option<Seq<char>> },
    RecordSizeOwner { pane: u64, owner: Option<SizeOwner> },
    QueueCopy { pane: u64, client: u64, count: usize },
    BindAgent { session: Seq<char>, agent: Seq<char> },
    UnbindAgent { session: Seq<char> },
    RingMail,
}

impl View for Effect {
    type V = EffectView;

    open spec fn view(&self) -> EffectView {
        match *self {
            Effect::NoteController { pane, controller } => EffectView::NoteController {
                pane,
                controller,
            },
            Effect::RevokeViewer { pane, viewer } => EffectView::RevokeViewer {
                pane,
                viewer,
            },
            Effect::RemovePane { pane } => EffectView::RemovePane {
                pane,
            },
            Effect::LogMailDepth { pane, depth } => EffectView::LogMailDepth {
                pane,
                depth,
            },
            Effect::LogStatus { pane, status } => EffectView::LogStatus {
                pane,
                status: option_text(status),
            },
            Effect::RecordSizeOwner { pane, owner } => EffectView::RecordSizeOwner {
                pane,
                owner,
            },
            Effect::QueueCopy { pane, client, count } => EffectView::QueueCopy {
                pane,
                client,
                count,
            },
            Effect::BindAgent { session, agent } => EffectView::BindAgent {
                session: session@,
                agent: agent@,
            },
            Effect::UnbindAgent { session } => EffectView::UnbindAgent {
                session: session@,
            },
            Effect::RingMail => EffectView::RingMail,
        }
    }
}

/// Work for the host whose result the plane needs.
#[derive(Debug, PartialEq)]
pub enum Ask {
    /// Split a leaf of a tree and fit the result.
    Split {
        layout: PaneLayout,
        target: u64,
        new_pane: u64,
        axis: AxisWire,
        ratio_bits: u64,
        bounds: WindowBounds,
    },
    /// Take a leaf out of a tree, fit the result and pick a focus.
    Close {
        layout: PaneLayout,
        pane: u64,
        prior_focus: u64,
        bounds: WindowBounds,
    },
    /// Move a leaf from a tree into another one and fit both.
    Move {
        source: PaneLayout,
        source_bounds: WindowBounds,
        layout: PaneLayout,
        bounds: WindowBounds,
        pane: u64,
        target: u64,
        axis: AxisWire,
        ratio_bits: u64,
    },
    /// Take a leaf out of a tree and give it a tree of its own; fit both.
    Open {
        source: PaneLayout,
        source_bounds: WindowBounds,
        pane: u64,
        bounds: WindowBounds,
    },
    /// Arrange leaves in a named way and fit the result.
    Arrange {
        kind: ArrangementWire,
        leaves: Vec<u64>,
        main: Option<u64>,
        bounds: WindowBounds,
    },
    /// Fit a tree into bounds.
    Fit {
        layout: PaneLayout,
        bounds: WindowBounds,
    },
    /// Start the child of a pane, then apply the geometry, if there is any.
    Spawn {
        pane: PaneGeometry,
        spec: SpawnSpec,
        inherit: Option<u64>,
        agent: Option<String>,
        geometry: Vec<PaneGeometry>,
    },
    /// Apply geometry to running children; `sizes` tells that the window was
    /// resized on behalf of `owner`.
    Apply {
        geometry: Vec<PaneGeometry>,
        cell_width_px: Option<u32>,
        cell_height_px: Option<u32>,
        owner: Option<SizeOwner>,
        sizes: bool,
    },
    /// Queue bytes to a pane and, once it took them, to its siblings.
    Write {
        pane: u64,
        bytes: Vec<u8>,
        siblings: Vec<u64>,
    },
    ForegroundAgent {
        pane: u64,
    },
    /// Queue chunks one by one, up to the first refusal.
    WriteChunks {
        pane: u64,
        chunks: Vec<Vec<u8>>,
    },
    Content {
        pane: u64,
    },
    Styled {
        pane: u64,
        view_offset: Option<u32>,
        viewer: ViewerId,
        client: u64,
    },
    RichFocus {
        pane: u64,
        viewer: ViewerId,
        revoke: bool,
    },
    RichKey {
        pane: u64,
        viewer: ViewerId,
        key: String,
        modifiers: u8,
    },
    RichPointer {
        pane: u64,
        viewer: ViewerId,
        phase: RichPointerPhase,
        row: u16,
        col: u16,
    },
    RichScroll {
        pane: u64,
        viewer: ViewerId,
        row: u16,
        col: u16,
        delta: i16,
    },
    CopySemantic {
        pane: u64,
        client: u64,
        seq: Option<u64>,
    },
    /// A fresh random token in hexadecimal digits.
    Token,
    /// Whether a size that the host reports is one that the host chose.
    RecordHost {
        cols: u32,
        rows: u32,
        current: Option<(u32, u32)>,
        latest_is_remote: bool,
    },
    /// Which size a report leads to, if any.
    DecideSize {
        policy: RemoteSizePolicy,
        role: ClientRole,
        reported: Viewport,
        fit: bool,
        host: Option<Viewport>,
        current: Option<(u32, u32)>,
    },
    /// The size of a window after the client that gave it is gone.
    DecideRefit { host: Option<Viewport>, remaining: Option<Viewport> },
    SpaceIdValid {
        space: String,
    },
    /// The agent behind a mail address.
    Resolve {
        name: String,
    },
    /// Check an agent name, then resolve it.
    Seat {
        name: String,
    },
    /// Resolve a mail address, then check the agent name.
    Recipient {
        name: String,
    },
    StoreSend {
        from: String,
        to: String,
        summary: String,
        body: String,
    },
    StoreClaim {
        agent: String,
    },
    StoreCommit {
        agent: String,
        ids: Vec<String>,
    },
    StoreRelease {
        agent: String,
        ids: Vec<String>,
    },
    StoreDepth {
        agent: String,
    },
    StoreForwards {
        agents: Vec<String>,
    },
    StoreReserved,
    StoreRename {
        old_agent: String,
        agent: String,
    },
    StoreBroadcast {
        from: String,
        recipients: Vec<String>,
        summary: String,
        body: String,
    },
}

#[verifier::ext_equal]
pub enum AskView {
    Split { layout: PaneLayout, target: u64, new_pane: u64, axis: AxisWire, ratio_bits: u64, bounds: WindowBounds },
    Close { layout: PaneLayout, pane: u64, prior_focus: u64, bounds: WindowBounds },
    Move { source: PaneLayout, source_bounds: WindowBounds, layout: PaneLayout, bounds: WindowBounds, pane: u64, target: u64, axis: AxisWire, ratio_bits: u64 },
    Open { source: PaneLayout, source_bounds: WindowBounds, pane: u64, bounds: WindowBounds },
    Arrange { kind: ArrangementWire, leaves: Seq<u64>, main: Option<u64>, bounds: WindowBounds },
    Fit { layout: PaneLayout, bounds: WindowBounds },
    Spawn { pane: PaneGeometry, spec: SpawnView, inherit: Option<u64>, agent: Option<Seq<char>>, geometry: Seq<PaneGeometry> },
    Apply { geometry: Seq<PaneGeometry>, cell_width_px: Option<u32>, cell_height_px: Option<u32>, owner: Option<SizeOwner>, sizes: bool },
    Write { pane: u64, bytes: Seq<u8>, siblings: Seq<u64> },
    ForegroundAgent { pane: u64 },
    WriteChunks { pane: u64, chunks: Seq<Seq<u8>> },
    Content { pane: u64 },
    Styled { pane: u64, view_offset: Option<u32>, viewer: ViewerId, client: u64 },
    RichFocus { pane: u64, viewer: ViewerId, revoke: bool },
    RichKey { pane: u64, viewer: ViewerId, key: Seq<char>, modifiers: u8 },
    RichPointer { pane: u64, viewer: ViewerId, phase: RichPointerPhase, row: u16, col: u16 },
    RichScroll { pane: u64, viewer: ViewerId, row: u16, col: u16, delta: i16 },
    CopySemantic { pane: u64, client: u64, seq: Option<u64> },
    Token,
    RecordHost { cols: u32, rows: u32, current: Option<(u32, u32)>, latest_is_remote: bool },
    DecideSize { policy: RemoteSizePolicy, role: ClientRole, reported: Viewport, fit: bool, host: Option<Viewport>, current: Option<(u32, u32)> },
    DecideRefit { host: Option<Viewport>, remaining: Option<Viewport> },
    SpaceIdValid { space: Seq<char> },
    Resolve { name: Seq<char> },
    Seat { name: Seq<char> },
    Recipient { name: Seq<char> },
    StoreSend { from: Seq<char>, to: Seq<char>, summary: Seq<char>, body: Seq<char> },
    StoreClaim { agent: Seq<char> },
    StoreCommit { agent: Seq<char>, ids: Seq<Seq<char>> },
    StoreRelease { agent: Seq<char>, ids: Seq<Seq<char>> },
    StoreDepth { agent: Seq<char> },
    StoreForwards { agents: Seq<Seq<char>> },
    StoreReserved,
    StoreRename { old_agent: Seq<char>, agent: Seq<char> },
    StoreBroadcast { from: Seq<char>, recipients: Seq<Seq<char>>, summary: Seq<char>, body: Seq<char> },
}

impl View for Ask {
    type V = AskView;

    open spec fn view(&self) -> AskView {
        match *self {
            Ask::Split { layout, target, new_pane, axis, ratio_bits, bounds } => AskView::Split {
                layout,
                target,
                new_pane,
                axis,
                ratio_bits,
                bounds,
            },
            Ask::Close { layout, pane, prior_focus, bounds } => AskView::Close {
                layout,
                pane,
                prior_focus,
                bounds,
            },
            Ask::Move { source, source_bounds, layout, bounds, pane, target, axis, ratio_bits } => AskView::Move {
                source,
                source_bounds,
                layout,
                bounds,
                pane,
                target,
                axis,
                ratio_bits,
            },
            Ask::Open { source, source_bounds, pane, bounds } => AskView::Open {
                source,
                source_bounds,
                pane,
                bounds,
            },
            Ask::Arrange { kind, leaves, main, bounds } => AskView::Arrange {
                kind,
                leaves: leaves@,
                main,
                bounds,
            },
            Ask::Fit { layout, bounds } => AskView::Fit {
                layout,
                bounds,
            },
            Ask::Spawn { pane, spec, inherit, agent, geometry } => AskView::Spawn {
                pane,
                spec: spec@,
                inherit,
                agent: option_text(agent),
                geometry: geometry@,
            },
            Ask::Apply { geometry, cell_width_px, cell_height_px, owner, sizes } => AskView::Apply {
                geometry: geometry@,
                cell_width_px,
                cell_height_px,
                owner,
                sizes,
            },
            Ask::Write { pane, bytes, siblings } => AskView::Write {
                pane,
                bytes: bytes@,
                siblings: siblings@,
            },
            Ask::ForegroundAgent { pane } => AskView::ForegroundAgent {
                pane,
            },
            Ask::WriteChunks { pane, chunks } => AskView::WriteChunks {
                pane,
                chunks: seq_views(chunks@),
            },
            Ask::Content { pane } => AskView::Content {
                pane,
            },
            Ask::Styled { pane, view_offset, viewer, client } => AskView::Styled {
                pane,
                view_offset,
                viewer,
                client,
            },
            Ask::RichFocus { pane, viewer, revoke } => AskView::RichFocus {
                pane,
                viewer,
                revoke,
            },
            Ask::RichKey { pane, viewer, key, modifiers } => AskView::RichKey {
                pane,
                viewer,
                key: key@,
                modifiers,
            },
            Ask::RichPointer { pane, viewer, phase, row, col } => AskView::RichPointer {
                pane,
                viewer,
                phase,
                row,
                col,
            },
            Ask::RichScroll { pane, viewer, row, col, delta } => AskView::RichScroll {
                pane,
                viewer,
                row,
                col,
                delta,
            },
            Ask::CopySemantic { pane, client, seq } => AskView::CopySemantic {
                pane,
                client,
                seq,
            },
            Ask::Token => AskView::Token,
            Ask::RecordHost { cols, rows, current, latest_is_remote } => AskView::RecordHost {
                cols,
                rows,
                current,
                latest_is_remote,
            },
            Ask::DecideSize { policy, role, reported, fit, host, current } => AskView::DecideSize {
                policy,
                role,
                reported,
                fit,
                host,
                current,
            },
            Ask::DecideRefit { host, remaining } => AskView::DecideRefit { host, remaining },
            Ask::SpaceIdValid { space } => AskView::SpaceIdValid {
                space: space@,
            },
            Ask::Resolve { name } => AskView::Resolve {
                name: name@,
            },
            Ask::Seat { name } => AskView::Seat {
                name: name@,
            },
            Ask::Recipient { name } => AskView::Recipient {
                name: name@,
            },
            Ask::StoreSend { from, to, summary, body } => AskView::StoreSend {
                from: from@,
                to: to@,
                summary: summary@,
                body: body@,
            },
            Ask::StoreClaim { agent } => AskView::StoreClaim {
                agent: agent@,
            },
            Ask::StoreCommit { agent, ids } => AskView::StoreCommit {
                agent: agent@,
                ids: seq_views(ids@),
            },
            Ask::StoreRelease { agent, ids } => AskView::StoreRelease {
                agent: agent@,
                ids: seq_views(ids@),
            },
            Ask::StoreDepth { agent } => AskView::StoreDepth {
                agent: agent@,
            },
            Ask::StoreForwards { agents } => AskView::StoreForwards {
                agents: seq_views(agents@),
            },
            Ask::StoreReserved => AskView::StoreReserved,
            Ask::StoreRename { old_agent, agent } => AskView::StoreRename {
                old_agent: old_agent@,
                agent: agent@,
            },
            Ask::StoreBroadcast { from, recipients, summary, body } => AskView::StoreBroadcast {
                from: from@,
                recipients: seq_views(recipients@),
                summary: summary@,
                body: body@,
            },
        }
    }
}

/// Pane records as a total map.
pub open spec fn pane_states(m: Map<u64, PaneState>) -> Map<u64, PaneStateView> {
    Map::new(
        |p: u64| true,
        |p: u64|
            if m.contains_key(p) {
                m[p]@
            } else {
                PaneStateView::blank()
            },
    )
}

pub broadcast proof fn lemma_pane_states_insert(m: Map<u64, PaneState>, p: u64, s: PaneState)
    ensures
        #[trigger] pane_states(m.insert(p, s)) == pane_states(m).insert(p, s@),
{
    assert(pane_states(m.insert(p, s)) =~= pane_states(m).insert(p, s@));
}

pub broadcast proof fn lemma_pane_states_remove(m: Map<u64, PaneState>, p: u64)
    ensures
        #[trigger] pane_states(m.remove(p)) == pane_states(m).insert(p, PaneStateView::blank()),
{
    assert(pane_states(m.remove(p)) =~= pane_states(m).insert(p, PaneStateView::blank()));
}

pub broadcast proof fn lemma_pane_states_total(m: Map<u64, PaneState>, p: u64)
    ensures
        #[trigger] pane_states(m).contains_key(p),
{
}

pub broadcast group group_pane_states {
    lemma_pane_states_insert,
    lemma_pane_states_remove,
    lemma_pane_states_total,
}

} // verus!
