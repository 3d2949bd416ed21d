//! Input and reads of panes.
use vstd::prelude::*;
use vstd::string::*;
use vstd::utf8::*;

use crate::error::{
    control_domain_error, domain_error_view, live_write_error, live_write_view, plain_error,
    ControlError, ControlErrorCode, ErrorView, LiveWriteError,
};
use crate::event::{Event, EventView};
use crate::idmap::group_views;
use crate::ledger::{ends_line, output_busy, since, write_ended_with_cr};
use crate::model::{group_seq_views, seq_views};
use crate::pane_write::{
    chunk_bytes, count_chunks, counted, pane_write_chunks, pane_write_error, pane_write_view,
    write_chunks, ChunkQueue, INPUT_IDLE_MS,
};
use crate::place::{reject_zero, zero_fault};
use crate::plane::{checked, first_fault, ControlPlane, PlaneView};
use crate::response::{
    reply_view, ControlResponseData, DataView, PaneContent, PaneStyled,
};
use crate::state::{
    group_pane_states, Ask, AskView, Effect, EffectView, PaneState, PaneStateView,
};
use crate::step::{accept, refusal, refuse, Step, StepView};
use crate::text::{byte_count, byte_len, chars_of, same_text, text_bytes};
use crate::topology::{drop_id, without_id};
use crate::wire::{
    InjectAgent, PaneInputLedger, PaneWriteReceipt, PaneWriteSubmit, RichInputKind, ViewerId,
    MAX_SPAWN_BYTES,
};

verus! {

broadcast use {group_views, group_seq_views, group_pane_states};

/// Longest token of a structured key.
pub const MAX_FOCUS_KEY_BYTES: usize = 32;

/// How often a text asks for a copy.
pub open spec fn copy_count(data: Seq<char>) -> nat
    decreases data.len(),
{
    if data.len() == 0 {
        0
    } else {
        copy_count(data.drop_last()) + if data.last() == 'y' || data.last() == 'Y' {
            1nat
        } else {
            0nat
        }
    }
}

fn count_copies(data: &str) -> (n: usize)
    ensures
        n == copy_count(data@),
{
    let v: Vec<char> = chars_of(data);
    let mut n: usize = 0;
    let mut i: usize = 0;
    assert(data@.take(0).len() == 0);
    while i < v.len()
        invariant
            v@ == data@,
            i <= v@.len(),
            n <= i,
            n == copy_count(data@.take(i as int)),
        decreases v@.len() - i,
    {
        assert(data@.take(i + 1).drop_last() =~= data@.take(i as int));
        if v[i] == 'y' || v[i] == 'Y' {
            n = n + 1;
        }
        i = i + 1;
    }
    assert(data@.take(i as int) =~= data@);
    n
}

pub open spec fn no_runtime_view() -> ErrorView {
    plain_error(
        ControlErrorCode::InputRouteUnavailable,
        "controller authority verified, but this plane has no live PTY runtime"@,
    )
}

fn no_runtime() -> (e: ControlError)
    ensures
        e@ == no_runtime_view(),
{
    ControlError::new(
        ControlErrorCode::InputRouteUnavailable,
        "controller authority verified, but this plane has no live PTY runtime",
    )
}

pub open spec fn no_content_view() -> ErrorView {
    plain_error(
        ControlErrorCode::InputRouteUnavailable,
        "server-owned pane content is unavailable"@,
    )
}

pub fn no_content() -> (e: ControlError)
    ensures
        e@ == no_content_view(),
{
    ControlError::new(
        ControlErrorCode::InputRouteUnavailable,
        "server-owned pane content is unavailable",
    )
}

/// What a chain of chunk writes came to.
#[derive(Debug, Clone, Copy, PartialEq, Eq, Structural)]
pub struct ChunkReport {
    pub accepted: usize,
    pub failed: Option<LiveWriteError>,
}

impl PlaneView {
    /// The other panes of a window whose input is kept in step.
    pub open spec fn sync_siblings(self, pane: u64) -> Seq<u64> {
        let window = self.domain.windows[self.domain.panes[pane].window];
        if self.domain.panes.contains_key(pane) && window.sync_input {
            without_id(window.layout.leaves(), pane)
        } else {
            Seq::empty()
        }
    }

    pub open spec fn write_entry_fault(self, client: u64, pane: u64, data: Seq<char>) -> Option<
        ErrorView,
    > {
        first_fault(
            if byte_count(data) > MAX_SPAWN_BYTES {
                Some(
                    plain_error(
                        ControlErrorCode::InvalidRequest,
                        "write payload exceeds 65536 bytes"@,
                    ),
                )
            } else {
                None
            },
            first_fault(
                self.client_fault(client),
                first_fault(zero_fault("pane"@, pane), self.space_fault(client, pane)),
            ),
        )
    }

    /// The holder may write, or anybody while nobody holds the lease and no line
    /// is open.
    pub open spec fn write_gate_fault(self, client: u64, pane: u64, now: u64) -> Option<ErrorView> {
        match self.domain.write_fault(pane, client) {
            Some(error) => Some(domain_error_view(error)),
            None => if self.domain.panes[pane].controller is None && self.ledger(
                pane,
                now,
            ).dirty_input {
                Some(
                    plain_error(
                        ControlErrorCode::InputDirty,
                        "pane has unsubmitted input; take the lease (pmux send --force) to write"@,
                    ),
                )
            } else if self.panes[pane].attention is Some && self.capacity_fault() is Some {
                self.capacity_fault()
            } else if !self.live {
                Some(no_runtime_view())
            } else {
                None
            },
        }
    }

    pub open spec fn write_done(self, client: u64, pane: u64, data: Seq<char>, now: u64) -> PlaneView {
        let state = self.panes[pane];
        let copied = if copy_count(data) > 0 {
            self.live_note(
                EffectView::QueueCopy { pane, client, count: copy_count(data) as usize },
            )
        } else {
            self
        };
        let written = PaneStateView {
            written: Some((now, ends_line(data))),
            input_at: Some(now),
            ..state
        };
        if state.attention is Some {
            copied.with_pane(
                pane,
                PaneStateView { attention: None, team: None, ..written },
            ).publish(EventView::PaneAttentionCleared { pane_id: pane })
        } else {
            copied.with_pane(pane, written)
        }
    }

    /// Raw input to a pane.
    pub open spec fn write_pane(
        self,
        client: u64,
        pane: u64,
        data: Seq<char>,
        written: Option<Result<(), LiveWriteError>>,
        now: u64,
    ) -> (PlaneView, StepView) {
        match self.write_entry_fault(client, pane, data) {
            Some(fault) => (self, refusal(fault)),
            None => {
                let s = if self.is_host(client) {
                    self.host_active(pane)
                } else {
                    self
                };
                match s.write_gate_fault(client, pane, now) {
                    Some(fault) => (s, refusal(fault)),
                    None => match written {
                        None => (
                            s,
                            StepView::Wait(
                                AskView::Write {
                                    pane,
                                    bytes: encode_utf8(data),
                                    siblings: s.sync_siblings(pane),
                                },
                            ),
                        ),
                        Some(Err(error)) => (s, refusal(live_write_view(error))),
                        Some(Ok(())) => (
                            s.write_done(client, pane, data, now),
                            StepView::Reply(
                                Ok(
                                    DataView::WriteQueued {
                                        pane_id: pane,
                                        nbytes: byte_count(data) as usize,
                                    },
                                ),
                            ),
                        ),
                    },
                }
            },
        }
    }

    pub open spec fn pane_write_fault(
        self,
        client: u64,
        pane: u64,
        expected: u32,
        pid: Option<u32>,
        now: u64,
    ) -> Option<ErrorView> {
        first_fault(
            self.client_fault(client),
            first_fault(
                zero_fault("pane"@, pane),
                first_fault(
                    self.space_fault(client, pane),
                    match self.domain.write_fault(pane, client) {
                        Some(error) => Some(domain_error_view(error)),
                        None => if expected == 0 || pid != Some(expected) {
                            Some(
                                plain_error(
                                    ControlErrorCode::StaleId,
                                    "pane child changed or exited; rediscover the target"@,
                                ),
                            )
                        } else if self.ledger(pane, now).dirty_input {
                            Some(
                                plain_error(
                                    ControlErrorCode::InputDirty,
                                    "pane has unsubmitted input; no text was written"@,
                                ),
                            )
                        } else {
                            None
                        },
                    },
                ),
            ),
        )
    }

    pub open spec fn input_recent(self, pane: u64, now: u64) -> bool {
        self.panes[pane].input_at matches Some(at) && since(at, now) < INPUT_IDLE_MS
    }

    pub open spec fn pane_write_done(
        self,
        pane: u64,
        receipt: PaneWriteReceipt,
        now: u64,
    ) -> PlaneView {
        self.with_pane(
            pane,
            PaneStateView {
                written: Some(
                    (now, receipt.complete && receipt.submit != PaneWriteSubmit::NoSubmit),
                ),
                input_at: Some(now),
                receipt: Some(receipt),
                ..self.panes[pane]
            },
        )
    }

    /// The write of intentional text came to an end.
    pub open spec fn pane_write_settled(
        self,
        pane: u64,
        child_pid: u32,
        chunks: Seq<Seq<u8>>,
        submit: PaneWriteSubmit,
        report: ChunkReport,
        now: u64,
    ) -> (PlaneView, StepView) {
        let accepted = if report.accepted <= chunks.len() {
            report.accepted as int
        } else {
            chunks.len() as int
        };
        let nbytes = counted(chunk_bytes(chunks, accepted));
        let total_bytes = counted(chunk_bytes(chunks, chunks.len() as int));
        let error = match report.failed {
            Some(error) => Some(pane_write_view(error)),
            None => None,
        };
        let complete = report.failed is None && report.accepted >= chunks.len();
        if nbytes == 0 && error is Some {
            (self, refusal(error->0))
        } else {
            (
                self.pane_write_done(
                    pane,
                    PaneWriteReceipt {
                        child_pid,
                        queued_at_ms: now,
                        nbytes,
                        total_bytes,
                        complete,
                        submit,
                    },
                    now,
                ),
                StepView::Reply(
                    Ok(
                        DataView::PaneWriteResult {
                            pane_id: pane,
                            child_pid,
                            nbytes,
                            total_bytes,
                            complete,
                            submit,
                            error,
                        },
                    ),
                ),
            )
        }
    }

    /// The text of a queue that came to its end is told as complete exactly where no
    /// chunk was refused, and then all of its bytes were queued. A refusal before the
    /// first byte changes nothing.
    pub proof fn a_complete_write_queued_everything(
        self,
        pane: u64,
        child_pid: u32,
        queue: ChunkQueue,
        submit: PaneWriteSubmit,
        now: u64,
    )
        requires
            queue.wf(),
            queue.failed is Some || queue.accepted == queue.chunks@.len(),
        ensures
            ({
                let (after, step) = self.pane_write_settled(
                    pane,
                    child_pid,
                    seq_views(queue.chunks@),
                    submit,
                    queue.told(),
                    now,
                );
                match step {
                    StepView::Reply(Ok(data)) => {
                        &&& data matches DataView::PaneWriteResult {
                            nbytes,
                            total_bytes,
                            complete,
                            error,
                            ..
                        }
                        &&& complete <==> queue.failed is None
                        &&& complete ==> nbytes == total_bytes
                        &&& (nbytes, error) == queue.outcome()
                        &&& after.panes[pane].receipt matches Some(receipt)
                        &&& receipt.complete == complete && receipt.nbytes == nbytes
                    },
                    _ => after == self && queue.failed is Some && queue.outcome().0 == 0,
                }
            }),
    {
    }

    /// Intentional text for one pane. It never lands in a partial line, nor
    /// while the pane is being typed into or streams output; a partial result is
    /// told as such.
    pub open spec fn pane_write(
        self,
        client: u64,
        pane: u64,
        expected: u32,
        data: Seq<char>,
        submit: PaneWriteSubmit,
        pid: Option<u32>,
        agent: Option<InjectAgent>,
        cursor_submit: Seq<u8>,
        report: Option<ChunkReport>,
        now: u64,
    ) -> (PlaneView, StepView) {
        match self.pane_write_fault(client, pane, expected, pid, now) {
            Some(fault) => (self, refusal(fault)),
            None => {
                let seen = if self.input_recent(pane, now) {
                    self
                } else {
                    self.output_pruned(pane, now)
                };
                if self.input_recent(pane, now) || output_busy(self.panes[pane].output, now) {
                    (
                        seen,
                        refusal(
                            plain_error(
                                ControlErrorCode::InputBusy,
                                "pane is typing or streaming output; retry when idle"@,
                            ),
                        ),
                    )
                } else {
                    match agent {
                        None => (seen, StepView::Wait(AskView::ForegroundAgent { pane })),
                        Some(agent) => match write_chunks(data, submit, agent, cursor_submit) {
                            Err(fault) => (seen, refusal(fault)),
                            Ok(chunks) => match report {
                                None => (
                                    seen,
                                    StepView::Wait(AskView::WriteChunks { pane, chunks }),
                                ),
                                Some(report) => seen.pane_write_settled(
                                    pane,
                                    expected,
                                    chunks,
                                    submit,
                                    report,
                                    now,
                                ),
                            },
                        },
                    }
                }
            },
        }
    }

    /// Read the screen of a pane.
    pub open spec fn read_pane(self, client: u64, pane: u64) -> StepView {
        match first_fault(self.client_fault(client), self.pane_fault(pane)) {
            Some(fault) => refusal(fault),
            None => if !self.live {
                refusal(no_content_view())
            } else {
                StepView::Wait(AskView::Content { pane })
            },
        }
    }

    pub open spec fn read_pane_styled(self, client: u64, pane: u64, view_offset: Option<u32>) -> StepView {
        match first_fault(self.client_fault(client), self.pane_fault(pane)) {
            Some(fault) => refusal(fault),
            None => if !self.live {
                refusal(no_content_view())
            } else {
                StepView::Wait(
                    AskView::Styled {
                        pane,
                        view_offset,
                        viewer: self.clients[client].viewer,
                        client,
                    },
                )
            },
        }
    }

    /// A client that acts on a pane through its viewer must hold the lease.
    pub open spec fn rich_fault(self, client: u64, pane: u64) -> Option<ErrorView> {
        first_fault(
            self.client_fault(client),
            first_fault(
                zero_fault("pane"@, pane),
                match self.domain.holder_fault(pane, client) {
                    Some(error) => Some(domain_error_view(error)),
                    None => None,
                },
            ),
        )
    }

    pub open spec fn rich_focus_toggle(self, client: u64, pane: u64, revoke: bool) -> StepView {
        match self.rich_fault(client, pane) {
            Some(fault) => refusal(fault),
            None => if !self.live {
                refusal(no_runtime_view())
            } else {
                StepView::Wait(
                    AskView::RichFocus { pane, viewer: self.clients[client].viewer, revoke },
                )
            },
        }
    }

    pub open spec fn copy_semantic(self, client: u64, pane: u64, seq: Option<u64>) -> StepView {
        match self.rich_fault(client, pane) {
            Some(fault) => refusal(fault),
            None => if !self.live {
                refusal(
                    plain_error(
                        ControlErrorCode::InputRouteUnavailable,
                        "this plane has no live PTY runtime"@,
                    ),
                )
            } else {
                StepView::Wait(AskView::CopySemantic { pane, client, seq })
            },
        }
    }

    /// Structured input to a pane; `mask` holds the modifier bits that exist.
    pub open spec fn rich_input(self, client: u64, pane: u64, input: RichInputKind, mask: u8) -> StepView {
        let viewer = self.clients[client].viewer;
        match self.rich_fault(client, pane) {
            Some(fault) => refusal(fault),
            None => if !self.live {
                refusal(no_runtime_view())
            } else {
                match input {
                    RichInputKind::Key { key, modifiers } => if key@.len() == 0 || byte_count(key@)
                        > MAX_FOCUS_KEY_BYTES {
                        refusal(
                            plain_error(
                                ControlErrorCode::InvalidRequest,
                                "structured key token must be 1..=32 bytes"@,
                            ),
                        )
                    } else if modifiers & !mask != 0 {
                        refusal(
                            plain_error(
                                ControlErrorCode::InvalidRequest,
                                "structured key modifiers contain unknown bits"@,
                            ),
                        )
                    } else {
                        StepView::Wait(AskView::RichKey { pane, viewer, key: key@, modifiers })
                    },
                    RichInputKind::Pointer { phase, row, col } => StepView::Wait(
                        AskView::RichPointer { pane, viewer, phase, row, col },
                    ),
                    RichInputKind::Scroll { row, col, delta } => if delta == 0 {
                        refusal(
                            plain_error(
                                ControlErrorCode::InvalidRequest,
                                "structured scroll delta must be non-zero"@,
                            ),
                        )
                    } else {
                        StepView::Wait(AskView::RichScroll { pane, viewer, row, col, delta })
                    },
                }
            },
        }
    }

    /// Structured input was routed, or not.
    pub open spec fn rich_routed(
        self,
        client: u64,
        pane: u64,
        input: RichInputKind,
        routed: Result<Option<bool>, LiveWriteError>,
    ) -> (PlaneView, Result<DataView, ErrorView>) {
        match routed {
            Err(error) => (self, Err(live_write_view(error))),
            Ok(None) => (
                self,
                Err(
                    plain_error(
                        ControlErrorCode::InputRouteUnavailable,
                        "viewer has no structured focus route for this pane"@,
                    ),
                ),
            ),
            Ok(Some(delivered)) => (
                if delivered && is_copy_key(input) {
                    self.live_note(EffectView::QueueCopy { pane, client, count: 1 })
                } else {
                    self
                },
                Ok(DataView::RichInput { pane_id: pane, delivered }),
            ),
        }
    }
}

/// The key that copies: an unmodified y.
pub open spec fn is_copy_key(input: RichInputKind) -> bool {
    input matches RichInputKind::Key { key, modifiers } && modifiers == 0 && (key@ == "y"@ || key@
        == "Y"@)
}

impl ControlPlane {
    fn sync_siblings(&self, pane: u64) -> (v: Vec<u64>)
        requires
            self@.domain.wf(),
        ensures
            v@ == self@.sync_siblings(pane),
    {
        let window: u64 = match self.domain.panes.get(pane) {
            Some(p) => p.window,
            None => {
                let none: Vec<u64> = Vec::new();
                assert(none@ =~= Seq::empty());
                return none;
            },
        };
        proof {
            assert(self@.domain.panes.contains_key(pane));
            assert(self@.domain.windows.contains_key(window));
        }
        match self.domain.windows.get(window) {
            Some(w) => {
                if w.sync_input {
                    let leaves: Vec<u64> = w.layout.panes();
                    drop_id(&leaves, pane)
                } else {
                    let none: Vec<u64> = Vec::new();
                    assert(none@ =~= Seq::empty());
                    none
                }
            },
            None => Vec::new(),
        }
    }

    fn check_write_entry(&self, client: u64, pane: u64, data: &str) -> (r: Result<(), ControlError>)
        requires
            self@.wf(),
        ensures
            checked(self@.write_entry_fault(client, pane, data@), r),
    {
        if byte_len(data) > MAX_SPAWN_BYTES {
            return Err(
                ControlError::new(
                    ControlErrorCode::InvalidRequest,
                    "write payload exceeds 65536 bytes",
                ),
            );
        }
        let _ = self.require_active_client(client)?;
        reject_zero("pane", pane)?;
        self.require_client_space(client, pane)
    }

    fn has_attention(&self, pane: u64) -> (r: bool)
        ensures
            r == (self@.panes[pane].attention is Some),
    {
        match self.panes.get(pane) {
            Some(state) => state.attention.is_some(),
            None => false,
        }
    }

    fn check_write_gate(&self, client: u64, pane: u64, now: u64) -> (r: Result<(), ControlError>)
        requires
            self@.wf(),
        ensures
            checked(self@.write_gate_fault(client, pane, now), r),
    {
        if let Err(error) = self.domain.allow_write(pane, client) {
            return Err(control_domain_error(error));
        }
        let free: bool = match self.domain.controller(pane) {
            Ok(None) => true,
            _ => false,
        };
        // The holder is exempt: its own keystrokes are the dirt.
        if free {
            let ledger: PaneInputLedger = self.pane_ledger(pane, now);
            if ledger.dirty_input {
                return Err(
                    ControlError::new(
                        ControlErrorCode::InputDirty,
                        "pane has unsubmitted input; take the lease (pmux send --force) to write",
                    ),
                );
            }
        }
        if self.has_attention(pane) {
            self.ensure_sequence_capacity()?;
        }
        if !self.live {
            return Err(no_runtime());
        }
        Ok(())
    }

    pub fn write_pane(
        &mut self,
        client: u64,
        pane: u64,
        data: &str,
        written: Option<Result<(), LiveWriteError>>,
        now: u64,
    ) -> (r: Step)
        requires
            old(self)@.wf(),
        ensures
            (final(self)@, r@) == old(self)@.write_pane(client, pane, data@, written, now),
            final(self)@.wf(),
    {
        if let Err(error) = self.check_write_entry(client, pane, data) {
            return refuse(error);
        }
        if self.is_host_client(client) {
            self.mark_host_latest(pane);
        }
        if let Err(error) = self.check_write_gate(client, pane, now) {
            return refuse(error);
        }
        match written {
            None => Step::Wait(
                Ask::Write { pane, bytes: text_bytes(data), siblings: self.sync_siblings(pane) },
            ),
            Some(Err(error)) => refuse(live_write_error(error)),
            Some(Ok(())) => {
                let count: usize = count_copies(data);
                if count > 0 {
                    self.live_note(Effect::QueueCopy { pane, client, count });
                }
                let clears: bool = self.has_attention(pane);
                let mut state: PaneState = self.take_pane(pane);
                state.written = Some((now, write_ended_with_cr(data)));
                state.input_at = Some(now);
                if clears {
                    state.attention = None;
                    state.team = None;
                }
                self.put_pane(pane, state);
                if clears {
                    let _ = self.publish(Event::PaneAttentionCleared { pane_id: pane });
                }
                accept(ControlResponseData::WriteQueued { pane_id: pane, nbytes: byte_len(data) })
            },
        }
    }

    fn check_pane_write(
        &self,
        client: u64,
        pane: u64,
        expected: u32,
        pid: Option<u32>,
        now: u64,
    ) -> (r: Result<(), ControlError>)
        requires
            self@.wf(),
        ensures
            checked(self@.pane_write_fault(client, pane, expected, pid, now), r),
    {
        let _ = self.require_active_client(client)?;
        reject_zero("pane", pane)?;
        self.require_client_space(client, pane)?;
        if let Err(error) = self.domain.allow_write(pane, client) {
            return Err(control_domain_error(error));
        }
        let alive: bool = match pid {
            Some(pid) => pid == expected,
            None => false,
        };
        if expected == 0 || !alive {
            return Err(
                ControlError::new(
                    ControlErrorCode::StaleId,
                    "pane child changed or exited; rediscover the target",
                ),
            );
        }
        // The ledger counts for the lease holder too.
        let ledger: PaneInputLedger = self.pane_ledger(pane, now);
        if ledger.dirty_input {
            return Err(
                ControlError::new(
                    ControlErrorCode::InputDirty,
                    "pane has unsubmitted input; no text was written",
                ),
            );
        }
        Ok(())
    }

    fn settle_pane_write(
        &mut self,
        pane: u64,
        child_pid: u32,
        chunks: &Vec<Vec<u8>>,
        submit: PaneWriteSubmit,
        report: ChunkReport,
        now: u64,
    ) -> (r: Step)
        requires
            old(self)@.wf(),
        ensures
            (final(self)@, r@) == old(self)@.pane_write_settled(
                pane,
                child_pid,
                seq_views(chunks@),
                submit,
                report,
                now,
            ),
            final(self)@.wf(),
    {
        let accepted: usize = if report.accepted <= chunks.len() {
            report.accepted
        } else {
            chunks.len()
        };
        let nbytes: usize = count_chunks(chunks, accepted);
        let total_bytes: usize = count_chunks(chunks, chunks.len());
        let error: Option<ControlError> = match report.failed {
            Some(error) => Some(pane_write_error(error)),
            None => None,
        };
        if nbytes == 0 {
            if let Some(error) = error {
                return refuse(error);
            }
        }
        let complete: bool = report.failed.is_none() && report.accepted >= chunks.len();
        let mut state: PaneState = self.take_pane(pane);
        state.written = Some((now, complete && submit != PaneWriteSubmit::NoSubmit));
        state.input_at = Some(now);
        state.receipt = Some(
            PaneWriteReceipt { child_pid, queued_at_ms: now, nbytes, total_bytes, complete, submit },
        );
        self.put_pane(pane, state);
        let error: Option<ControlError> = match report.failed {
            Some(error) => Some(pane_write_error(error)),
            None => None,
        };
        accept(
            ControlResponseData::PaneWriteResult {
                pane_id: pane,
                child_pid,
                nbytes,
                total_bytes,
                complete,
                submit,
                error,
            },
        )
    }

    pub fn intentional_pane_write(
        &mut self,
        client: u64,
        pane: u64,
        expected_child_pid: u32,
        data: &str,
        submit: PaneWriteSubmit,
        pid: Option<u32>,
        agent: Option<InjectAgent>,
        cursor_submit: &Vec<u8>,
        report: Option<ChunkReport>,
        now: u64,
    ) -> (r: Step)
        requires
            old(self)@.wf(),
        ensures
            (final(self)@, r@) == old(self)@.pane_write(
                client,
                pane,
                expected_child_pid,
                data@,
                submit,
                pid,
                agent,
                cursor_submit@,
                report,
                now,
            ),
            final(self)@.wf(),
    {
        if let Err(error) = self.check_pane_write(client, pane, expected_child_pid, pid, now) {
            return refuse(error);
        }
        let recent: bool = match self.panes.get(pane) {
            Some(state) => match state.input_at {
                Some(at) => now.saturating_sub(at) < INPUT_IDLE_MS,
                None => false,
            },
            None => false,
        };
        if recent || self.output_busy(pane, now) {
            return refuse(
                ControlError::new(
                    ControlErrorCode::InputBusy,
                    "pane is typing or streaming output; retry when idle",
                ),
            );
        }
        let agent: InjectAgent = match agent {
            Some(agent) => agent,
            None => {
                return Step::Wait(Ask::ForegroundAgent { pane });
            },
        };
        let chunks: Vec<Vec<u8>> = match pane_write_chunks(data, submit, agent, cursor_submit) {
            Ok(chunks) => chunks,
            Err(error) => {
                return refuse(error);
            },
        };
        match report {
            None => Step::Wait(Ask::WriteChunks { pane, chunks }),
            Some(report) => self.settle_pane_write(
                pane,
                expected_child_pid,
                &chunks,
                submit,
                report,
                now,
            ),
        }
    }

    pub fn read_pane(&self, client: u64, pane: u64) -> (r: Step)
        ensures
            r@ == self@.read_pane(client, pane),
    {
        if let Err(error) = self.require_active_client(client) {
            return refuse(error);
        }
        if let Err(error) = self.require_pane(pane) {
            return refuse(error);
        }
        if !self.live {
            return refuse(no_content());
        }
        Step::Wait(Ask::Content { pane })
    }

    pub fn read_pane_styled(&self, client: u64, pane: u64, view_offset: Option<u32>) -> (r: Step)
        ensures
            r@ == self@.read_pane_styled(client, pane, view_offset),
    {
        if let Err(error) = self.require_active_client(client) {
            return refuse(error);
        }
        if let Err(error) = self.require_pane(pane) {
            return refuse(error);
        }
        match self.clients.get(client) {
            Some(c) => {
                if !self.live {
                    return refuse(no_content());
                }
                Step::Wait(Ask::Styled { pane, view_offset, viewer: c.viewer, client })
            },
            None => refuse(no_content()),
        }
    }

    fn check_rich(&self, client: u64, pane: u64) -> (r: Result<ViewerId, ControlError>)
        ensures
            checked(self@.rich_fault(client, pane), r),
            r matches Ok(viewer) ==> viewer == self@.clients[client].viewer,
    {
        let _ = self.require_active_client(client)?;
        reject_zero("pane", pane)?;
        if let Err(error) = self.domain.require_controller(pane, client) {
            return Err(control_domain_error(error));
        }
        match self.clients.get(client) {
            Some(c) => Ok(c.viewer),
            None => Err(no_runtime()),
        }
    }

    pub fn rich_focus_toggle(&self, client: u64, pane: u64, revoke: bool) -> (r: Step)
        ensures
            r@ == self@.rich_focus_toggle(client, pane, revoke),
    {
        match self.check_rich(client, pane) {
            Err(error) => refuse(error),
            Ok(viewer) => {
                if !self.live {
                    return refuse(no_runtime());
                }
                Step::Wait(Ask::RichFocus { pane, viewer, revoke })
            },
        }
    }

    pub fn copy_semantic(&self, client: u64, pane: u64, seq: Option<u64>) -> (r: Step)
        ensures
            r@ == self@.copy_semantic(client, pane, seq),
    {
        match self.check_rich(client, pane) {
            Err(error) => refuse(error),
            Ok(_) => {
                if !self.live {
                    return refuse(
                        ControlError::new(
                            ControlErrorCode::InputRouteUnavailable,
                            "this plane has no live PTY runtime",
                        ),
                    );
                }
                Step::Wait(Ask::CopySemantic { pane, client, seq })
            },
        }
    }

    pub fn rich_input(&self, client: u64, pane: u64, input: &RichInputKind, mask: u8) -> (r: Step)
        ensures
            r@ == self@.rich_input(client, pane, *input, mask),
    {
        let viewer: ViewerId = match self.check_rich(client, pane) {
            Ok(viewer) => viewer,
            Err(error) => {
                return refuse(error);
            },
        };
        if !self.live {
            return refuse(no_runtime());
        }
        match input {
            RichInputKind::Key { key, modifiers } => {
                if key.as_str().is_empty() || byte_len(key.as_str()) > MAX_FOCUS_KEY_BYTES {
                    return refuse(
                        ControlError::new(
                            ControlErrorCode::InvalidRequest,
                            "structured key token must be 1..=32 bytes",
                        ),
                    );
                }
                if *modifiers & !mask != 0 {
                    return refuse(
                        ControlError::new(
                            ControlErrorCode::InvalidRequest,
                            "structured key modifiers contain unknown bits",
                        ),
                    );
                }
                Step::Wait(
                    Ask::RichKey { pane, viewer, key: key.clone(), modifiers: *modifiers },
                )
            },
            RichInputKind::Pointer { phase, row, col } => Step::Wait(
                Ask::RichPointer { pane, viewer, phase: *phase, row: *row, col: *col },
            ),
            RichInputKind::Scroll { row, col, delta } => {
                if *delta == 0 {
                    return refuse(
                        ControlError::new(
                            ControlErrorCode::InvalidRequest,
                            "structured scroll delta must be non-zero",
                        ),
                    );
                }
                Step::Wait(Ask::RichScroll { pane, viewer, row: *row, col: *col, delta: *delta })
            },
        }
    }

    /// Takes the answer to structured input.
    pub fn rich_routed(
        &mut self,
        client: u64,
        pane: u64,
        input: &RichInputKind,
        routed: Result<Option<bool>, LiveWriteError>,
    ) -> (r: Result<ControlResponseData, ControlError>)
        requires
            old(self)@.wf(),
        ensures
            (final(self)@, reply_view(r)) == old(self)@.rich_routed(client, pane, *input, routed),
            final(self)@.wf(),
    {
        match routed {
            Err(error) => Err(live_write_error(error)),
            Ok(None) => Err(
                ControlError::new(
                    ControlErrorCode::InputRouteUnavailable,
                    "viewer has no structured focus route for this pane",
                ),
            ),
            Ok(Some(delivered)) => {
                let copies: bool = match input {
                    RichInputKind::Key { key, modifiers } => *modifiers == 0 && (same_text(
                        key.as_str(),
                        "y",
                    ) || same_text(key.as_str(), "Y")),
                    _ => false,
                };
                if delivered && copies {
                    self.live_note(Effect::QueueCopy { pane, client, count: 1 });
                }
                Ok(ControlResponseData::RichInput { pane_id: pane, delivered })
            },
        }
    }
}

/// Reply to a read of the screen.
pub fn content_reply(content: Option<PaneContent>) -> (r: Result<ControlResponseData, ControlError>)
    ensures
        reply_view(r) == match content {
            Some(content) => Ok::<DataView, ErrorView>(DataView::PaneContent { content }),
            None => Err(no_content_view()),
        },
{
    match content {
        Some(content) => Ok(ControlResponseData::PaneContent { content }),
        None => Err(no_content()),
    }
}

/// Reply to a styled read: the content, with the next copy that this client has
/// not acknowledged.
pub fn styled_reply(content: Option<PaneStyled>, copy: Option<(u64, String)>) -> (r: Result<
    ControlResponseData,
    ControlError,
>)
    ensures
        match content {
            None => r matches Err(e) && e@ == no_content_view(),
            Some(shown) => r matches Ok(ControlResponseData::PaneStyled { content: told })
                && match copy {
                None => told == shown,
                Some((seq, text)) => told == (PaneStyled {
                    semantic_clipboard: Some(text),
                    semantic_clipboard_seq: Some(seq),
                    ..shown
                }),
            },
        },
{
    match content {
        None => Err(no_content()),
        Some(shown) => match copy {
            None => Ok(ControlResponseData::PaneStyled { content: shown }),
            Some((seq, text)) => Ok(
                ControlResponseData::PaneStyled {
                    content: PaneStyled {
                        semantic_clipboard: Some(text),
                        semantic_clipboard_seq: Some(seq),
                        ..shown
                    },
                },
            ),
        },
    }
}

/// Reply to a change of structured focus: granted, region, structured.
pub fn rich_focus_reply(
    pane: u64,
    answer: Result<(bool, Option<u32>, bool), LiveWriteError>,
) -> (r: Result<ControlResponseData, ControlError>)
    ensures
        reply_view(r) == match answer {
            Ok((granted, region_id, structured)) => Ok::<DataView, ErrorView>(
                DataView::RichFocus { pane_id: pane, granted, region_id, structured },
            ),
            Err(error) => Err(live_write_view(error)),
        },
{
    match answer {
        Ok((granted, region_id, structured)) => Ok(
            ControlResponseData::RichFocus { pane_id: pane, granted, region_id, structured },
        ),
        Err(error) => Err(live_write_error(error)),
    }
}

/// Reply to a request for a copied text.
pub fn copy_reply(pane: u64, text: Option<String>, acked: Option<u64>) -> (r: ControlResponseData)
    ensures
        r@ == (DataView::SemanticCopy {
            pane_id: pane,
            text: crate::event::option_text(text),
            seq: acked,
        }),
{
    ControlResponseData::SemanticCopy { pane_id: pane, text, seq: acked }
}

impl PlaneView {
    /// While a client holds the lease of a pane, nobody else writes to it.
    pub proof fn only_the_holder_writes(
        self,
        client: u64,
        holder: u64,
        pane: u64,
        data: Seq<char>,
        written: Option<Result<(), LiveWriteError>>,
        expected: u32,
        submit: PaneWriteSubmit,
        pid: Option<u32>,
        agent: Option<InjectAgent>,
        cursor_submit: Seq<u8>,
        report: Option<ChunkReport>,
        now: u64,
    )
        requires
            self.domain.panes.contains_key(pane),
            self.domain.panes[pane].controller == Some(holder),
            client != holder,
        ensures
            ({
                let step = self.write_pane(client, pane, data, written, now).1;
                step is Reply && step->Reply_0 is Err
            }),
            ({
                let (after, step) = self.pane_write(
                    client,
                    pane,
                    expected,
                    data,
                    submit,
                    pid,
                    agent,
                    cursor_submit,
                    report,
                    now,
                );
                after == self && step is Reply && step->Reply_0 is Err
            }),
    {
    }
}

} // verus!
