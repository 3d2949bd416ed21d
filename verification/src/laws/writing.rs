//! What writing to panes and reading from them is for.
use vstd::prelude::*;

use crate::error::{ControlErrorCode, LiveWriteError};
use crate::event::EventView;
use crate::idmap::group_views;
use crate::laws::holding::reaches;
use crate::laws::layout::refuses;
use crate::laws::relations::{lemma_published_is_told, tells};
use crate::laws::ringing::{ago, half_a_line};
use crate::ledger::{output_total, recent_output};
use crate::model::group_seq_views;
use crate::pane_write::{chunk_bytes, write_chunks};
use crate::plane::PlaneView;
use crate::response::DataView;
use crate::state::{group_pane_states, AskView, EffectView};
use crate::step::StepView;
use crate::text::{byte_count, is_control_char};
use crate::topology::lemma_without_id;
use crate::wire::{InjectAgent, PaneWriteSubmit, RichInputKind};
use crate::writes::{copy_count, ChunkReport};
use vstd::utf8::encode_utf8;

verus! {

broadcast use {group_views, group_seq_views, group_pane_states, lemma_published_is_told};

/// A client may write raw input to a pane: it holds the lease, or nobody does and no line
/// was begun and not sent.
pub open spec fn may_write(plane: PlaneView, client: u64, pane: u64, now: u64) -> bool {
    &&& plane.clients.contains_key(client)
    &&& plane.domain.panes.contains_key(pane)
    &&& reaches(plane, client, pane)
    &&& match plane.domain.panes[pane].controller {
        Some(holder) => holder == client,
        None => !half_a_line(plane, pane, now),
    }
}

/// Only who last sized the windows may change: nothing else does before a write went out.
pub open spec fn same_but_size_owner(before: PlaneView, after: PlaneView) -> bool {
    after == (PlaneView { latest: after.latest, ..before })
}

/// Raw input is sent as it is, to the pane and to the panes that share its input, and to
/// no others.
pub proof fn input_goes_where_it_was_sent(
    plane: PlaneView,
    client: u64,
    pane: u64,
    data: Seq<char>,
    written: Option<Result<(), LiveWriteError>>,
    now: u64,
)
    requires
        plane.wf(),
        plane.ring.sequence < u64::MAX,
    ensures
        ({
            let (after, step) = plane.write_pane(client, pane, data, written, now);
            let open = byte_count(data) <= 65_536 && may_write(plane, client, pane, now)
                && plane.live;
            let window = plane.domain.windows[plane.domain.panes[pane].window];
            &&& !open ==> refuses(step) && same_but_size_owner(plane, after)
            &&& open && written is None ==> {
                &&& same_but_size_owner(plane, after)
                &&& step matches StepView::Wait(AskView::Write { pane: p, bytes, siblings })
                &&& p == pane
                &&& bytes == encode_utf8(data)
                &&& forall|x: u64| #[trigger]
                    siblings.contains(x) <==> window.sync_input && window.layout.leaves().contains(
                        x,
                    ) && x != pane
            }
            &&& open && written is Some && written->0 is Err ==> {
                &&& same_but_size_owner(plane, after)
                &&& step matches StepView::Reply(Err(fault))
                &&& fault.code == if written->0->Err_0 == LiveWriteError::Backpressure {
                    ControlErrorCode::Backpressure
                } else {
                    ControlErrorCode::InputRouteUnavailable
                }
            }
            &&& open && written is Some && written->0 is Ok ==> step == StepView::Reply(
                Ok(DataView::WriteQueued { pane_id: pane, nbytes: byte_count(data) as usize }),
            )
        }),
        ({
            let (after, step) = plane.write_pane(client, pane, data, written, now);
            step matches StepView::Reply(Err(fault)) ==> {
                let known = byte_count(data) <= 65_536 && plane.clients.contains_key(client)
                    && plane.domain.panes.contains_key(pane) && reaches(plane, client, pane);
                let holder = plane.domain.panes[pane].controller;
                &&& byte_count(data) > 65_536 ==> fault.code == ControlErrorCode::InvalidRequest
                &&& known && holder is Some && holder != Some(client) ==> fault.code
                    == ControlErrorCode::NotController && fault.holder == holder
                &&& known && holder is None && half_a_line(plane, pane, now) ==> fault.code
                    == ControlErrorCode::InputDirty
            }
        }),
{
    lemma_without_id(
        plane.domain.windows[plane.domain.panes[pane].window].layout.leaves(),
        pane,
    );
}

/// How many characters of a text are a `y`, small or capital.
pub open spec fn copies(data: Seq<char>) -> nat {
    data.filter(|c: char| c == 'y' || c == 'Y').len()
}

proof fn lemma_copies(data: Seq<char>)
    ensures
        copy_count(data) == copies(data),
    decreases data.len(),
{
    reveal(Seq::filter);
    if data.len() > 0 {
        lemma_copies(data.drop_last());
    }
}

/// Input that was taken is noted with its time, and whether it ended its line. It answers
/// a call for attention, and each `y` in it asks for a copy.
pub proof fn input_is_noted(
    plane: PlaneView,
    client: u64,
    pane: u64,
    data: Seq<char>,
    now: u64,
)
    requires
        plane.wf(),
        plane.ring.sequence < u64::MAX,
        plane.live,
        data.len() <= usize::MAX,
    ensures
        ({
            let after = plane.write_done(client, pane, data, now);
            let was = plane.panes[pane];
            let is = after.panes[pane];
            &&& is.written == Some((now, data.len() > 0 && data.last() == '\r'))
            &&& is.input_at == Some(now)
            &&& is.mail == was.mail
            &&& is.status == was.status
            &&& is.nudge == was.nudge
            &&& is.spawn == was.spawn
            &&& is.output == was.output
            &&& is.attention is None
            &&& was.attention is Some ==> is.team is None
            &&& was.attention is None ==> is.team == was.team
            &&& forall|p: u64| p != pane ==> #[trigger] after.panes[p] == plane.panes[p]
            &&& after.domain == plane.domain
            &&& after.clients == plane.clients
            &&& after.frames == plane.frames
            &&& after.latest == plane.latest
            &&& copies(data) > 0 ==> after.effects =~= plane.effects.push(
                EffectView::QueueCopy { pane, client, count: copies(data) as usize },
            )
            &&& copies(data) == 0 ==> after.effects == plane.effects
            &&& was.attention is None ==> after.ring == plane.ring
            &&& was.attention is Some ==> tells(
                plane.ring,
                after.ring,
                EventView::PaneAttentionCleared { pane_id: pane },
            )
        }),
        forall|written: Option<Result<(), LiveWriteError>>|
            plane.clients.contains_key(client) && !plane.clients[client].host && written == Some(
                Ok::<(), LiveWriteError>(()),
            ) && byte_count(data) <= 65_536 && may_write(plane, client, pane, now) ==> (
            #[trigger] plane.write_pane(client, pane, data, written, now)).0 == plane.write_done(
                client,
                pane,
                data,
                now,
            ),
{
    lemma_copies(data);
}

/// Text that can be written into a composer: some, not more than fits, and no control
/// characters but tabs and line ends.
pub open spec fn text_fits(data: Seq<char>) -> bool {
    &&& data.len() > 0
    &&& byte_count(data) <= 65_504
    &&& forall|i: int|
        0 <= i < data.len() ==> !is_control_char(#[trigger] data[i]) || data[i] == '\n' || data[i]
            == '\t'
}

/// Text is written whole. Without a submit it stands alone; an enter follows it at once;
/// else it is pasted, between the marks of a paste, and submitted as its agent wants it:
/// Codex with two returns, Cursor with its own key, the others with one return.
pub proof fn text_is_written_whole(
    data: Seq<char>,
    submit: PaneWriteSubmit,
    agent: InjectAgent,
    cursor_submit: Seq<u8>,
)
    ensures
        ({
            let chunks = write_chunks(data, submit, agent, cursor_submit);
            let open = text_fits(data) && !(submit is Auto && agent is Unknown);
            let bytes = encode_utf8(data);
            &&& chunks is Ok <==> open
            &&& chunks is Err ==> chunks->Err_0.code == ControlErrorCode::InvalidRequest
            &&& open && submit is NoSubmit ==> chunks->Ok_0 =~= seq![bytes]
            &&& open && submit is Enter ==> chunks->Ok_0.len() == 1 && chunks->Ok_0[0]
                =~= bytes.push(0x0d)
            &&& open && submit is Auto ==> {
                &&& chunks->Ok_0[0] =~= seq![0x1bu8, 0x5b, 0x32, 0x30, 0x30, 0x7e] + bytes
                    + seq![0x1bu8, 0x5b, 0x32, 0x30, 0x31, 0x7e]
                &&& agent is Codex ==> chunks->Ok_0.len() == 3 && chunks->Ok_0[1] =~= seq![0x0du8]
                    && chunks->Ok_0[2] =~= seq![0x0du8]
                &&& agent is Cursor ==> chunks->Ok_0.len() == 2 && chunks->Ok_0[1] == cursor_submit
                &&& !(agent is Codex) && !(agent is Cursor) ==> chunks->Ok_0.len() == 2
                    && chunks->Ok_0[1] =~= seq![0x0du8]
            }
        }),
{
}

/// Text is written only to the child that it was meant for, where nobody else holds the
/// pane, no line was begun, nobody typed within three quarters of a second, and less than
/// eight kilobytes came out within three seconds.
pub proof fn text_waits_for_a_quiet_pane(
    plane: PlaneView,
    client: u64,
    pane: u64,
    expected: u32,
    data: Seq<char>,
    submit: PaneWriteSubmit,
    pid: Option<u32>,
    agent: Option<InjectAgent>,
    cursor_submit: Seq<u8>,
    report: Option<ChunkReport>,
    now: u64,
)
    requires
        plane.wf(),
    ensures
        ({
            let (after, step) = plane.pane_write(
                client,
                pane,
                expected,
                data,
                submit,
                pid,
                agent,
                cursor_submit,
                report,
                now,
            );
            let holder = plane.domain.panes[pane].controller;
            let known = plane.clients.contains_key(client) && plane.domain.panes.contains_key(pane)
                && reaches(plane, client, pane);
            let mine = holder is None || holder == Some(client);
            let same = expected != 0 && pid == Some(expected);
            let clean = !half_a_line(plane, pane, now);
            let typed = plane.panes[pane].input_at matches Some(at) && ago(at, now) < 750;
            let streams = output_total(recent_output(plane.panes[pane].output, now)) >= 8_192;
            let open = known && mine && same && clean && !typed && !streams;
            &&& !open ==> refuses(step)
            &&& known && !mine ==> step->Reply_0->Err_0.code == ControlErrorCode::NotController
            &&& known && mine && !same ==> step->Reply_0->Err_0.code == ControlErrorCode::StaleId
            &&& known && mine && same && !clean ==> step->Reply_0->Err_0.code
                == ControlErrorCode::InputDirty
            &&& known && mine && same && clean && (typed || streams) ==> step->Reply_0->Err_0.code
                == ControlErrorCode::InputBusy
            &&& open && agent is None ==> step == StepView::Wait(AskView::ForegroundAgent { pane })
            &&& open && agent is Some && report is None ==> match write_chunks(
                data,
                submit,
                agent->0,
                cursor_submit,
            ) {
                Ok(chunks) => step == StepView::Wait(AskView::WriteChunks { pane, chunks }),
                Err(fault) => step == StepView::Reply(Err(fault)),
            }
            &&& after.domain == plane.domain
            &&& after.ring == plane.ring
            &&& after.clients == plane.clients
            &&& after.effects == plane.effects
            &&& forall|p: u64| p != pane ==> #[trigger] after.panes[p] == plane.panes[p]
        }),
{
}

/// What became of a text is told and kept: how much of it was queued, of how much in all,
/// and whether that was everything. A line is open where no submit followed.
pub proof fn a_written_text_has_a_receipt(
    plane: PlaneView,
    pane: u64,
    child_pid: u32,
    chunks: Seq<Seq<u8>>,
    submit: PaneWriteSubmit,
    report: ChunkReport,
    now: u64,
)
    requires
        plane.wf(),
        report.accepted <= chunks.len(),
        chunk_bytes(chunks, chunks.len() as int) <= usize::MAX,
        chunk_bytes(chunks, report.accepted as int) <= chunk_bytes(chunks, chunks.len() as int),
    ensures
        ({
            let (after, step) = plane.pane_write_settled(
                pane,
                child_pid,
                chunks,
                submit,
                report,
                now,
            );
            let queued = chunk_bytes(chunks, report.accepted as int);
            let all = report.failed is None && report.accepted == chunks.len();
            let nothing = queued == 0 && report.failed is Some;
            &&& nothing ==> after == plane && refuses(step)
            &&& !nothing ==> {
                let is = after.panes[pane];
                &&& is.receipt matches Some(receipt)
                &&& receipt.child_pid == child_pid
                &&& receipt.queued_at_ms == now
                &&& receipt.nbytes == queued
                &&& receipt.total_bytes == chunk_bytes(chunks, chunks.len() as int)
                &&& receipt.complete == all
                &&& receipt.submit == submit
                &&& is.written == Some((now, all && !(submit is NoSubmit)))
                &&& is.input_at == Some(now)
                &&& step matches StepView::Reply(
                    Ok(
                        DataView::PaneWriteResult {
                            pane_id,
                            child_pid: pid,
                            nbytes,
                            total_bytes,
                            complete,
                            submit: how,
                            error,
                        },
                    ),
                )
                &&& pane_id == pane && pid == child_pid && nbytes == queued && total_bytes
                    == receipt.total_bytes && complete == all && how == submit
                &&& error is Some <==> report.failed is Some
                &&& report.failed == Some(LiveWriteError::Backpressure) ==> error->0.code
                    == ControlErrorCode::Backpressure
            }
        }),
{
}

/// The screen of a pane is read by whoever is known, and asked for as it was requested.
pub proof fn a_read_asks_for_the_pane(
    plane: PlaneView,
    client: u64,
    pane: u64,
    view_offset: Option<u32>,
)
    ensures
        ({
            let open = plane.clients.contains_key(client) && plane.domain.panes.contains_key(pane)
                && plane.live;
            &&& open ==> plane.read_pane(client, pane) == StepView::Wait(AskView::Content { pane })
            &&& open ==> plane.read_pane_styled(client, pane, view_offset) == StepView::Wait(
                AskView::Styled {
                    pane,
                    view_offset,
                    viewer: plane.clients[client].viewer,
                    client,
                },
            )
            &&& !open ==> refuses(plane.read_pane(client, pane)) && refuses(
                plane.read_pane_styled(client, pane, view_offset),
            )
        }),
{
}

/// Structured focus, input and copies are for the holder of the lease alone, and go to the
/// pane through the holder's viewer as they were requested.
pub proof fn structured_input_is_for_the_holder(
    plane: PlaneView,
    client: u64,
    pane: u64,
    revoke: bool,
    seq: Option<u64>,
    input: RichInputKind,
    mask: u8,
)
    requires
        plane.wf(),
    ensures
        ({
            let open = plane.clients.contains_key(client) && plane.domain.panes.contains_key(pane)
                && plane.domain.panes[pane].controller == Some(client) && plane.live;
            let viewer = plane.clients[client].viewer;
            &&& !open ==> refuses(plane.rich_focus_toggle(client, pane, revoke)) && refuses(
                plane.copy_semantic(client, pane, seq),
            ) && refuses(plane.rich_input(client, pane, input, mask))
            &&& open ==> plane.rich_focus_toggle(client, pane, revoke) == StepView::Wait(
                AskView::RichFocus { pane, viewer, revoke },
            )
            &&& open ==> plane.copy_semantic(client, pane, seq) == StepView::Wait(
                AskView::CopySemantic { pane, client, seq },
            )
            &&& open ==> match input {
                RichInputKind::Key { key, modifiers } => if key@.len() > 0 && byte_count(key@) <= 32
                    && modifiers & !mask == 0 {
                    plane.rich_input(client, pane, input, mask) == StepView::Wait(
                        AskView::RichKey { pane, viewer, key: key@, modifiers },
                    )
                } else {
                    refuses(plane.rich_input(client, pane, input, mask))
                },
                RichInputKind::Pointer { phase, row, col } => plane.rich_input(
                    client,
                    pane,
                    input,
                    mask,
                ) == StepView::Wait(AskView::RichPointer { pane, viewer, phase, row, col }),
                RichInputKind::Scroll { row, col, delta } => if delta != 0 {
                    plane.rich_input(client, pane, input, mask) == StepView::Wait(
                        AskView::RichScroll { pane, viewer, row, col, delta },
                    )
                } else {
                    refuses(plane.rich_input(client, pane, input, mask))
                },
            }
        }),
{
}

/// Structured input that was delivered asks for a copy exactly where it was a plain `y`.
pub proof fn a_delivered_key_may_copy(
    plane: PlaneView,
    client: u64,
    pane: u64,
    input: RichInputKind,
    delivered: bool,
)
    requires
        plane.live,
    ensures
        ({
            let (after, result) = plane.rich_routed(client, pane, input, Ok(Some(delivered)));
            let copies = delivered && (input matches RichInputKind::Key { key, modifiers }
                && modifiers == 0 && (key@ == "y"@ || key@ == "Y"@));
            &&& result == Ok::<DataView, crate::error::ErrorView>(
                DataView::RichInput { pane_id: pane, delivered },
            )
            &&& copies ==> after.effects =~= plane.effects.push(
                EffectView::QueueCopy { pane, client, count: 1 },
            )
            &&& !copies ==> after == plane
            &&& plane.rich_routed(client, pane, input, Ok(None)).1 is Err
        }),
{
}

} // verus!
