//! What holds of every request, and, by subject, what each request is for.
use vstd::prelude::*;

use crate::attention::text_result;
use crate::dispatch::{response, settled, Answers, Facts};
use crate::error::{plain_error, ControlErrorCode, LiveWriteError};
use crate::event::option_text;
use crate::idmap::group_views;
use crate::mailbox::AddressView;
use crate::model::{group_seq_views, option_view};
use crate::panes::{lived_view, Placed};
use crate::plane::PlaneView;
use crate::request::ControlRequest;
use crate::response::DataView;
use crate::roster::renamed_view;
use crate::sessions::{resolved_view, ResolvedView};
use crate::sizes::reported_size;
use crate::state::group_pane_states;
use crate::step::StepView;
use crate::wire::{
    ArrangementWire, AttentionAction, AxisWire, InjectAgent, MailAttentionView, PaneWriteSubmit,
    SizeOwner, SpawnView, ViewerId, Viewport, PROTOCOL_VERSION,
};
use crate::writes::ChunkReport;

pub mod attending;
pub mod edges;
pub mod holding;
pub mod housing;
pub mod layout;
pub mod looking;
pub mod moving;
pub mod posting;
pub mod relations;
pub mod requests;
pub mod ringing;
pub mod seeing;
pub mod showing;
pub mod sizing;
pub mod starting;
pub mod telling;
pub mod words;
pub mod writing;

verus! {

broadcast use {group_views, group_seq_views, group_pane_states};

/// Once an idle shutdown is accepted, every later request is refused and changes
/// nothing.
pub proof fn shutdown_fences_every_request(
    plane: PlaneView,
    request: ControlRequest,
    answers: Answers,
    facts: Facts,
    identity: Result<ViewerId, Seq<char>>,
)
    requires
        plane.shutdown_pending,
    ensures
        ({
            let (version, request_id) = request.spec_header();
            let (after, handled) = plane.handled(request, answers, facts, identity);
            &&& after == plane
            &&& handled is Respond && handled->Respond_0.body is Err
            &&& request_id != 0 && version == PROTOCOL_VERSION ==> handled == response(
                request_id,
                Err(plain_error(ControlErrorCode::InvalidRequest, "daemon is shutting down"@)),
            )
        }),
{
}

/// The same sessions, windows, panes and leases, at the same places.
pub open spec fn same_topology(a: PlaneView, b: PlaneView) -> bool {
    &&& a.domain.sessions == b.domain.sessions
    &&& a.domain.windows == b.domain.windows
    &&& a.domain.panes == b.domain.panes
    &&& a.frames == b.frames
}

/// A step that leaves history and topology alone where it refuses, and never takes
/// the sequence back.
#[verifier::opaque]
pub open spec fn careful(plane: PlaneView, p: (PlaneView, StepView)) -> bool {
    &&& p.1 matches StepView::Reply(Err(_)) ==> p.0.ring == plane.ring && same_topology(p.0, plane)
    &&& p.0.ring.sequence >= plane.ring.sequence
}

/// A step that leaves the plane alone while the host is to do something first,
/// leaves the history alone where it refuses, and never takes the sequence back.
#[verifier::opaque]
pub open spec fn patient(plane: PlaneView, p: (PlaneView, StepView)) -> bool {
    &&& p.1 is Wait ==> p.0 == plane
    &&& p.1 matches StepView::Reply(Err(_)) ==> p.0.ring == plane.ring
    &&& p.0.ring.sequence >= plane.ring.sequence
}

/// A step that keeps the names of sessions and agents apart.
#[verifier::opaque]
pub open spec fn distinct(plane: PlaneView, p: (PlaneView, StepView)) -> bool {
    plane.wf() && plane.domain.names_apart() ==> p.0.domain.names_apart()
}

/// A mutation that is acknowledged names the place of its last event.
#[verifier::opaque]
pub open spec fn answered(p: (PlaneView, StepView)) -> bool {
    p.1 matches StepView::Reply(Ok(DataView::Mutation { ack })) ==> ack.sequence
        == p.0.ring.sequence as u64
}

pub open spec fn orderly(plane: PlaneView, p: (PlaneView, StepView)) -> bool {
    careful(plane, p) && patient(plane, p) && distinct(plane, p) && answered(p)
}

broadcast proof fn lemma_dropped_panes_ring(plane: PlaneView, panes: Seq<u64>)
    ensures
        (#[trigger] plane.drop_panes(panes)).ring.sequence >= plane.ring.sequence,
        plane.drop_panes(panes).domain == plane.domain,
    decreases panes.len(),
{
    if panes.len() > 0 {
        lemma_dropped_panes_ring(plane, panes.drop_last());
    }
}

broadcast proof fn lemma_dropped_windows_ring(plane: PlaneView, windows: Seq<u64>)
    ensures
        (#[trigger] plane.drop_windows(windows)).ring == plane.ring,
        plane.drop_windows(windows).domain == plane.domain,
    decreases windows.len(),
{
    if windows.len() > 0 {
        lemma_dropped_windows_ring(plane, windows.drop_last());
    }
}

broadcast proof fn lemma_revoked_ring(plane: PlaneView, panes: Seq<u64>)
    ensures
        (#[trigger] plane.revoke_controllers(panes)).ring == plane.ring,
        plane.revoke_controllers(panes).domain.sessions == plane.domain.sessions,
    decreases panes.len(),
{
    if panes.len() > 0 {
        lemma_revoked_ring(plane, panes.drop_last());
    }
}

broadcast proof fn lemma_noted_ring(plane: PlaneView, panes: Seq<u64>, owner: Option<SizeOwner>)
    ensures
        (#[trigger] plane.owner_noted(panes, owner)).ring == plane.ring,
        plane.owner_noted(panes, owner).domain == plane.domain,
    decreases panes.len(),
{
    if panes.len() > 0 {
        lemma_noted_ring(plane, panes.drop_last(), owner);
    }
}

broadcast proof fn lemma_lost_ring(
    plane: PlaneView,
    panes: Seq<u64>,
    client: u64,
    viewer: ViewerId,
)
    ensures
        (#[trigger] plane.leases_lost(panes, client, viewer)).ring.sequence
            >= plane.ring.sequence,
        plane.leases_lost(panes, client, viewer).domain == plane.domain,
    decreases panes.len(),
{
    if panes.len() > 0 {
        lemma_lost_ring(plane, panes.drop_last(), client, viewer);
    }
}

broadcast group group_rings {
    lemma_dropped_panes_ring,
    lemma_dropped_windows_ring,
    lemma_revoked_ring,
    lemma_noted_ring,
    lemma_lost_ring,
}

proof fn lemma_set_mail_attention(
    plane: PlaneView,
    client: u64,
    pane: u64,
    mail: MailAttentionView,
    now: u64,
)
    ensures
        orderly(plane, settled(plane.set_mail_attention(client, pane, mail, now))),
{
    reveal(careful);
    reveal(patient);
    reveal(distinct);
    reveal(answered);
}

proof fn lemma_clear_mail_attention(
    plane: PlaneView,
    client: u64,
    pane: u64,
    queue_rev: u64,
    now: u64,
)
    ensures
        orderly(plane, settled(plane.clear_mail_attention(client, pane, queue_rev, now))),
{
    reveal(careful);
    reveal(patient);
    reveal(distinct);
    reveal(answered);
}

proof fn lemma_raise_step(
    plane: PlaneView,
    client: u64,
    pane: u64,
    message: Seq<char>,
    token: Option<Result<Seq<char>, Seq<char>>>,
    now: u64,
)
    ensures
        orderly(plane, plane.raise_step(client, pane, message, token, now)),
{
    reveal(careful);
    reveal(patient);
    reveal(distinct);
    reveal(answered);
}

proof fn lemma_list_attention(plane: PlaneView, client: u64)
    ensures
        orderly(plane, settled(plane.list_attention(client))),
{
    reveal(careful);
    reveal(patient);
    reveal(distinct);
    reveal(answered);
}

proof fn lemma_update_team_attention(
    plane: PlaneView,
    client: u64,
    pane: u64,
    revision: u64,
    space: Seq<char>,
    session: u64,
    action: AttentionAction,
    now: u64,
)
    ensures
        orderly(
            plane,
            settled(
                plane.update_team_attention(client, pane, revision, space, session, action, now),
            ),
        ),
{
    reveal(careful);
    reveal(patient);
    reveal(distinct);
    reveal(answered);
}

proof fn lemma_split(
    plane: PlaneView,
    window: u64,
    target: u64,
    axis: AxisWire,
    ratio_bits: u64,
    spawn: SpawnView,
    client: Option<u64>,
    answer: Placed,
    lived: Option<Result<(), Seq<char>>>,
)
    ensures
        orderly(plane, plane.split(window, target, axis, ratio_bits, spawn, client, answer, lived)),
{
    reveal(careful);
    reveal(patient);
    reveal(distinct);
    reveal(answered);
}

proof fn lemma_close(
    plane: PlaneView,
    window: u64,
    pane: u64,
    prior_focus: u64,
    client: Option<u64>,
    answer: Placed,
    lived: Option<Result<(), Seq<char>>>,
)
    ensures
        orderly(plane, plane.close(window, pane, prior_focus, client, answer, lived)),
{
    reveal(careful);
    reveal(patient);
    reveal(distinct);
    reveal(answered);
}

proof fn lemma_arrange(
    plane: PlaneView,
    window: u64,
    kind: ArrangementWire,
    focused: Option<u64>,
    answer: Placed,
    lived: Option<Result<(), Seq<char>>>,
)
    ensures
        orderly(plane, plane.arrange(window, kind, focused, answer, lived)),
{
    reveal(careful);
    reveal(patient);
    reveal(distinct);
    reveal(answered);
}

proof fn lemma_move_pane(
    plane: PlaneView,
    from: u64,
    to: u64,
    pane: u64,
    target: u64,
    axis: AxisWire,
    ratio_bits: u64,
    client: Option<u64>,
    answer: Placed,
    lived: Option<Result<(), Seq<char>>>,
)
    ensures
        orderly(
            plane,
            plane.move_pane(from, to, pane, target, axis, ratio_bits, client, answer, lived),
        ),
{
    reveal(careful);
    reveal(patient);
    reveal(distinct);
    reveal(answered);
}

proof fn lemma_transfer_pane(
    plane: PlaneView,
    pane: u64,
    target: u64,
    from_space: Seq<char>,
    to_space: Seq<char>,
    answer: Placed,
    lived: Option<Result<(), Seq<char>>>,
)
    ensures
        orderly(plane, plane.transfer_pane(pane, target, from_space, to_space, answer, lived)),
{
    reveal(careful);
    reveal(patient);
    reveal(distinct);
    reveal(answered);
}

proof fn lemma_create_window(
    plane: PlaneView,
    session: u64,
    title: Seq<char>,
    spawn: SpawnView,
    cols: Option<u32>,
    rows: Option<u32>,
    answer: Placed,
    lived: Option<Result<(), Seq<char>>>,
)
    ensures
        orderly(plane, plane.create_window(session, title, spawn, cols, rows, answer, lived)),
{
    reveal(careful);
    reveal(patient);
    reveal(distinct);
    reveal(answered);
}

proof fn lemma_create_session(
    plane: PlaneView,
    name: Seq<char>,
    spawn: SpawnView,
    cols: Option<u32>,
    rows: Option<u32>,
    agent: Option<Seq<char>>,
    headless: bool,
    resolved: Option<ResolvedView>,
    answer: Placed,
    lived: Option<Result<(), Seq<char>>>,
)
    ensures
        orderly(
            plane,
            plane.create_session(name, spawn, cols, rows, agent, headless, resolved, answer, lived),
        ),
{
    reveal(careful);
    reveal(patient);
    reveal(distinct);
    reveal(answered);
}

proof fn lemma_destroy_session(plane: PlaneView, session: u64)
    ensures
        orderly(plane, settled(plane.destroy_session(session))),
{
    reveal(careful);
    reveal(patient);
    reveal(distinct);
    reveal(answered);
    broadcast use group_rings;

}

proof fn lemma_destroy_window(plane: PlaneView, window: u64)
    ensures
        orderly(plane, settled(plane.destroy_window(window))),
{
    reveal(careful);
    reveal(patient);
    reveal(distinct);
    reveal(answered);
    broadcast use group_rings;

}

proof fn lemma_transfer_sessions(
    plane: PlaneView,
    ids: Seq<u64>,
    from: Option<Seq<char>>,
    to: Option<Seq<char>>,
)
    ensures
        orderly(plane, settled(plane.transfer_sessions(ids, from, to))),
{
    reveal(careful);
    reveal(patient);
    reveal(distinct);
    reveal(answered);
    broadcast use group_rings;

}

proof fn lemma_switch_session(plane: PlaneView, client: u64, session: u64)
    ensures
        orderly(plane, settled(plane.switch_session(client, session))),
{
    reveal(careful);
    reveal(patient);
    reveal(distinct);
    reveal(answered);
}

proof fn lemma_switch_window(plane: PlaneView, client: u64, window: u64)
    ensures
        orderly(plane, settled(plane.switch_window(client, window))),
{
    reveal(careful);
    reveal(patient);
    reveal(distinct);
    reveal(answered);
}

proof fn lemma_rename_window(plane: PlaneView, window: u64, title: Seq<char>)
    ensures
        orderly(plane, settled(plane.rename_window(window, title))),
{
    reveal(careful);
    reveal(patient);
    reveal(distinct);
    reveal(answered);
}

proof fn lemma_set_sync_input(plane: PlaneView, client: u64, window: u64, enabled: bool)
    ensures
        orderly(plane, settled(plane.set_sync_input(client, window, enabled))),
{
    reveal(careful);
    reveal(patient);
    reveal(distinct);
    reveal(answered);
}

proof fn lemma_set_pane_status(plane: PlaneView, pane: u64, text: Option<Seq<char>>)
    ensures
        orderly(plane, settled(plane.set_pane_status(pane, text))),
{
    reveal(careful);
    reveal(patient);
    reveal(distinct);
    reveal(answered);
}

proof fn lemma_rename_pane(plane: PlaneView, pane: u64, title: Seq<char>)
    ensures
        orderly(plane, settled(plane.rename_pane(pane, title))),
{
    reveal(careful);
    reveal(patient);
    reveal(distinct);
    reveal(answered);
}

proof fn lemma_suggest_focus(plane: PlaneView, window: u64, pane: u64, reason: Option<Seq<char>>)
    ensures
        orderly(plane, settled(plane.suggest_focus(window, pane, reason))),
{
    reveal(careful);
    reveal(patient);
    reveal(distinct);
    reveal(answered);
}

proof fn lemma_report_focus(plane: PlaneView, client: u64, window: u64, pane: u64, now: u64)
    ensures
        orderly(plane, settled(plane.report_focus(client, window, pane, now))),
{
    reveal(careful);
    reveal(patient);
    reveal(distinct);
    reveal(answered);
}

proof fn lemma_set_client_space(
    plane: PlaneView,
    client: u64,
    space: Seq<char>,
    valid: Option<bool>,
)
    ensures
        orderly(plane, plane.set_client_space(client, space, valid)),
{
    reveal(careful);
    reveal(patient);
    reveal(distinct);
    reveal(answered);
}

proof fn lemma_shutdown_idle(plane: PlaneView, client: u64)
    ensures
        orderly(plane, settled(plane.shutdown_idle(client))),
{
    reveal(careful);
    reveal(patient);
    reveal(distinct);
    reveal(answered);
}

proof fn lemma_resize(
    plane: PlaneView,
    window: u64,
    reported: Viewport,
    client: Option<u64>,
    fit: bool,
    host: bool,
    chosen: Option<bool>,
    decision: Option<Option<Viewport>>,
    answer: Placed,
    lived: Option<Result<(), Seq<char>>>,
)
    ensures
        orderly(
            plane,
            plane.resize(window, reported, client, fit, host, chosen, decision, answer, lived),
        ),
{
    reveal(careful);
    reveal(patient);
    reveal(distinct);
    reveal(answered);
    broadcast use group_rings;

}

proof fn lemma_register(plane: PlaneView, viewer: ViewerId)
    ensures
        orderly(plane, settled(plane.register(viewer))),
{
    reveal(careful);
    reveal(patient);
    reveal(distinct);
    reveal(answered);
}

proof fn lemma_acquire_lease(plane: PlaneView, client: u64, pane: u64)
    ensures
        orderly(plane, settled(plane.acquire_lease(client, pane))),
{
    reveal(careful);
    reveal(patient);
    reveal(distinct);
    reveal(answered);
}

proof fn lemma_release_lease(plane: PlaneView, client: u64, pane: u64)
    ensures
        orderly(plane, settled(plane.release_lease(client, pane))),
{
    reveal(careful);
    reveal(patient);
    reveal(distinct);
    reveal(answered);
}

proof fn lemma_takeover_lease(plane: PlaneView, client: u64, pane: u64)
    ensures
        orderly(plane, settled(plane.takeover_lease(client, pane))),
{
    reveal(careful);
    reveal(patient);
    reveal(distinct);
    reveal(answered);
}

proof fn lemma_disconnect(plane: PlaneView, client: u64)
    ensures
        orderly(plane, plane.disconnect(client)),
{
    reveal(careful);
    reveal(patient);
    reveal(distinct);
    reveal(answered);
    broadcast use group_rings;

}

proof fn lemma_write_pane(
    plane: PlaneView,
    client: u64,
    pane: u64,
    data: Seq<char>,
    written: Option<Result<(), LiveWriteError>>,
    now: u64,
)
    ensures
        careful(plane, plane.write_pane(client, pane, data, written, now)),
        distinct(plane, plane.write_pane(client, pane, data, written, now)),
        answered(plane.write_pane(client, pane, data, written, now)),
{
    reveal(careful);
    reveal(patient);
    reveal(distinct);
    reveal(answered);
    broadcast use group_rings;

}

proof fn lemma_pane_write(
    plane: PlaneView,
    client: u64,
    pane: u64,
    expected: u32,
    data: Seq<char>,
    submit: PaneWriteSubmit,
    pid: Option<u32>,
    agent: Option<InjectAgent>,
    cursor_submit: Seq<u8>,
    report: Option<ChunkReport>,
    now: u64,
)
    ensures
        ({
            let p = plane.pane_write(
                client,
                pane,
                expected,
                data,
                submit,
                pid,
                agent,
                cursor_submit,
                report,
                now,
            );
            careful(plane, p) && distinct(plane, p) && answered(p)
        }),
{
    reveal(careful);
    reveal(patient);
    reveal(distinct);
    reveal(answered);
}

proof fn lemma_mail_hello(
    plane: PlaneView,
    client: u64,
    agent: Seq<char>,
    address: Option<AddressView>,
)
    ensures
        orderly(plane, plane.mail_hello(client, agent, address)),
{
    reveal(careful);
    reveal(patient);
    reveal(distinct);
    reveal(answered);
}

proof fn lemma_mail_alias(
    plane: PlaneView,
    client: u64,
    name: Seq<char>,
    sender: Option<Result<Seq<char>, Seq<char>>>,
    address: Option<AddressView>,
)
    ensures
        orderly(plane, plane.mail_alias(client, name, sender, address)),
{
    reveal(careful);
    reveal(patient);
    reveal(distinct);
    reveal(answered);
}

proof fn lemma_name_session(
    plane: PlaneView,
    session: u64,
    name: Seq<char>,
    address: Option<AddressView>,
    renamed: Option<Result<Option<u32>, Seq<char>>>,
    now: u64,
)
    ensures
        orderly(plane, plane.name_session(session, name, address, renamed, now)),
{
    reveal(careful);
    reveal(patient);
    reveal(distinct);
    reveal(answered);
}

/// What a request comes to, taken as it is.
#[verifier::opaque]
spec fn outcome(
    plane: PlaneView,
    request: ControlRequest,
    answers: Answers,
    facts: Facts,
    identity: Result<ViewerId, Seq<char>>,
) -> (PlaneView, StepView) {
    plane.dispatch(request, answers, facts, identity)
}

/// What holds of the outcome of every request.
spec fn lawful(
    plane: PlaneView,
    request: ControlRequest,
    p: (PlaneView, StepView),
) -> bool {
    &&& request is WritePane || request is PaneWrite || patient(plane, p)
    &&& careful(plane, p)
    &&& distinct(plane, p)
    &&& answered(p)
}

proof fn split_is_lawful(
    plane: PlaneView,
    request: ControlRequest,
    answers: Answers,
    facts: Facts,
    identity: Result<ViewerId, Seq<char>>,
)
    requires
        request is Split,
    ensures
        lawful(plane, request, outcome(plane, request, answers, facts, identity)),
{
    reveal(outcome);
    match request {
        ControlRequest::Split {
            window_id,
            target_pane_id,
            axis,
            ratio_bits,
            spawn,
            client_id,
            ..
        } => {
            lemma_split(
                plane,
                window_id,
                target_pane_id,
                axis,
                ratio_bits,
                spawn@,
                client_id,
                answers.placed,
                lived_view(answers.lived),
            );
        },
        _ => {},
    }
}

proof fn close_is_lawful(
    plane: PlaneView,
    request: ControlRequest,
    answers: Answers,
    facts: Facts,
    identity: Result<ViewerId, Seq<char>>,
)
    requires
        request is Close,
    ensures
        lawful(plane, request, outcome(plane, request, answers, facts, identity)),
{
    reveal(outcome);
    match request {
        ControlRequest::Close { window_id, pane_id, prior_focus_id, client_id, .. } => {
            lemma_close(
                plane,
                window_id,
                pane_id,
                prior_focus_id,
                client_id,
                answers.placed,
                lived_view(answers.lived),
            );
        },
        _ => {},
    }
}

proof fn resize_is_lawful(
    plane: PlaneView,
    request: ControlRequest,
    answers: Answers,
    facts: Facts,
    identity: Result<ViewerId, Seq<char>>,
)
    requires
        request is Resize,
    ensures
        lawful(plane, request, outcome(plane, request, answers, facts, identity)),
{
    reveal(outcome);
    match request {
        ControlRequest::Resize {
            window_id,
            cols,
            rows,
            cell_width_px,
            cell_height_px,
            client_id,
            fit,
            host,
            ..
        } => {
            lemma_resize(
                plane,
                window_id,
                reported_size(cols, rows, cell_width_px, cell_height_px),
                client_id,
                fit,
                host,
                answers.record_host,
                answers.size,
                answers.placed,
                lived_view(answers.lived),
            );
        },
        _ => {},
    }
}

proof fn create_session_is_lawful(
    plane: PlaneView,
    request: ControlRequest,
    answers: Answers,
    facts: Facts,
    identity: Result<ViewerId, Seq<char>>,
)
    requires
        request is CreateSession,
    ensures
        lawful(plane, request, outcome(plane, request, answers, facts, identity)),
{
    reveal(outcome);
    match request {
        ControlRequest::CreateSession { name, spawn, cols, rows, agent_id, headless, .. } => {
            lemma_create_session(
                plane,
                name@,
                spawn@,
                cols,
                rows,
                option_text(agent_id),
                headless,
                resolved_view(answers.resolved),
                answers.placed,
                lived_view(answers.lived),
            );
        },
        _ => {},
    }
}

proof fn transfer_space_sessions_is_lawful(
    plane: PlaneView,
    request: ControlRequest,
    answers: Answers,
    facts: Facts,
    identity: Result<ViewerId, Seq<char>>,
)
    requires
        request is TransferSpaceSessions,
    ensures
        lawful(plane, request, outcome(plane, request, answers, facts, identity)),
{
    reveal(outcome);
    match request {
        ControlRequest::TransferSpaceSessions { session_ids, from, to, .. } => {
            lemma_transfer_sessions(plane, session_ids@, option_text(from), option_text(to));
        },
        _ => {},
    }
}

proof fn transfer_space_pane_is_lawful(
    plane: PlaneView,
    request: ControlRequest,
    answers: Answers,
    facts: Facts,
    identity: Result<ViewerId, Seq<char>>,
)
    requires
        request is TransferSpacePane,
    ensures
        lawful(plane, request, outcome(plane, request, answers, facts, identity)),
{
    reveal(outcome);
    match request {
        ControlRequest::TransferSpacePane { pane_id, to_session_id, from_space, to_space, .. } => {
            lemma_transfer_pane(
                plane,
                pane_id,
                to_session_id,
                from_space@,
                to_space@,
                answers.placed,
                lived_view(answers.lived),
            );
        },
        _ => {},
    }
}

proof fn name_session_is_lawful(
    plane: PlaneView,
    request: ControlRequest,
    answers: Answers,
    facts: Facts,
    identity: Result<ViewerId, Seq<char>>,
)
    requires
        request is NameSession,
    ensures
        lawful(plane, request, outcome(plane, request, answers, facts, identity)),
{
    reveal(outcome);
    match request {
        ControlRequest::NameSession { session_id, name, .. } => {
            lemma_name_session(
                plane,
                session_id,
                name@,
                option_view(answers.address),
                renamed_view(answers.renamed),
                facts.now,
            );
        },
        _ => {},
    }
}

proof fn destroy_session_is_lawful(
    plane: PlaneView,
    request: ControlRequest,
    answers: Answers,
    facts: Facts,
    identity: Result<ViewerId, Seq<char>>,
)
    requires
        request is DestroySession,
    ensures
        lawful(plane, request, outcome(plane, request, answers, facts, identity)),
{
    reveal(outcome);
    match request {
        ControlRequest::DestroySession { session_id, .. } => {
            lemma_destroy_session(plane, session_id);
        },
        _ => {},
    }
}

proof fn create_window_is_lawful(
    plane: PlaneView,
    request: ControlRequest,
    answers: Answers,
    facts: Facts,
    identity: Result<ViewerId, Seq<char>>,
)
    requires
        request is CreateWindow,
    ensures
        lawful(plane, request, outcome(plane, request, answers, facts, identity)),
{
    reveal(outcome);
    match request {
        ControlRequest::CreateWindow { session_id, title, spawn, cols, rows, .. } => {
            lemma_create_window(
                plane,
                session_id,
                title@,
                spawn@,
                cols,
                rows,
                answers.placed,
                lived_view(answers.lived),
            );
        },
        _ => {},
    }
}

proof fn destroy_window_is_lawful(
    plane: PlaneView,
    request: ControlRequest,
    answers: Answers,
    facts: Facts,
    identity: Result<ViewerId, Seq<char>>,
)
    requires
        request is DestroyWindow,
    ensures
        lawful(plane, request, outcome(plane, request, answers, facts, identity)),
{
    reveal(outcome);
    match request {
        ControlRequest::DestroyWindow { window_id, .. } => {
            lemma_destroy_window(plane, window_id);
        },
        _ => {},
    }
}

proof fn move_pane_is_lawful(
    plane: PlaneView,
    request: ControlRequest,
    answers: Answers,
    facts: Facts,
    identity: Result<ViewerId, Seq<char>>,
)
    requires
        request is MovePane,
    ensures
        lawful(plane, request, outcome(plane, request, answers, facts, identity)),
{
    reveal(outcome);
    match request {
        ControlRequest::MovePane {
            from_window_id,
            to_window_id,
            pane_id,
            target_pane_id,
            axis,
            ratio_bits,
            client_id,
            ..
        } => {
            lemma_move_pane(
                plane,
                from_window_id,
                to_window_id,
                pane_id,
                target_pane_id,
                axis,
                ratio_bits,
                client_id,
                answers.placed,
                lived_view(answers.lived),
            );
        },
        _ => {},
    }
}

proof fn apply_arrangement_is_lawful(
    plane: PlaneView,
    request: ControlRequest,
    answers: Answers,
    facts: Facts,
    identity: Result<ViewerId, Seq<char>>,
)
    requires
        request is ApplyArrangement,
    ensures
        lawful(plane, request, outcome(plane, request, answers, facts, identity)),
{
    reveal(outcome);
    match request {
        ControlRequest::ApplyArrangement { window_id, kind, focused_pane_id, .. } => {
            lemma_arrange(
                plane,
                window_id,
                kind,
                focused_pane_id,
                answers.placed,
                lived_view(answers.lived),
            );
        },
        _ => {},
    }
}

proof fn rename_window_is_lawful(
    plane: PlaneView,
    request: ControlRequest,
    answers: Answers,
    facts: Facts,
    identity: Result<ViewerId, Seq<char>>,
)
    requires
        request is RenameWindow,
    ensures
        lawful(plane, request, outcome(plane, request, answers, facts, identity)),
{
    reveal(outcome);
    match request {
        ControlRequest::RenameWindow { window_id, title, .. } => {
            lemma_rename_window(plane, window_id, title@);
        },
        _ => {},
    }
}

proof fn rename_pane_is_lawful(
    plane: PlaneView,
    request: ControlRequest,
    answers: Answers,
    facts: Facts,
    identity: Result<ViewerId, Seq<char>>,
)
    requires
        request is RenamePane,
    ensures
        lawful(plane, request, outcome(plane, request, answers, facts, identity)),
{
    reveal(outcome);
    match request {
        ControlRequest::RenamePane { pane_id, title, .. } => {
            lemma_rename_pane(plane, pane_id, title@);
        },
        _ => {},
    }
}

proof fn write_pane_is_lawful(
    plane: PlaneView,
    request: ControlRequest,
    answers: Answers,
    facts: Facts,
    identity: Result<ViewerId, Seq<char>>,
)
    requires
        request is WritePane,
    ensures
        lawful(plane, request, outcome(plane, request, answers, facts, identity)),
{
    reveal(outcome);
    match request {
        ControlRequest::WritePane { client_id, pane_id, data, .. } => {
            lemma_write_pane(plane, client_id, pane_id, data@, answers.written, facts.now);
        },
        _ => {},
    }
}

proof fn suggest_focus_is_lawful(
    plane: PlaneView,
    request: ControlRequest,
    answers: Answers,
    facts: Facts,
    identity: Result<ViewerId, Seq<char>>,
)
    requires
        request is SuggestFocus,
    ensures
        lawful(plane, request, outcome(plane, request, answers, facts, identity)),
{
    reveal(outcome);
    match request {
        ControlRequest::SuggestFocus { window_id, pane_id, reason, .. } => {
            lemma_suggest_focus(plane, window_id, pane_id, option_text(reason));
        },
        _ => {},
    }
}

proof fn report_focus_is_lawful(
    plane: PlaneView,
    request: ControlRequest,
    answers: Answers,
    facts: Facts,
    identity: Result<ViewerId, Seq<char>>,
)
    requires
        request is ReportFocus,
    ensures
        lawful(plane, request, outcome(plane, request, answers, facts, identity)),
{
    reveal(outcome);
    match request {
        ControlRequest::ReportFocus { client_id, window_id, pane_id, .. } => {
            lemma_report_focus(plane, client_id, window_id, pane_id, facts.now);
        },
        _ => {},
    }
}

proof fn raise_attention_is_lawful(
    plane: PlaneView,
    request: ControlRequest,
    answers: Answers,
    facts: Facts,
    identity: Result<ViewerId, Seq<char>>,
)
    requires
        request is RaiseAttention,
    ensures
        lawful(plane, request, outcome(plane, request, answers, facts, identity)),
{
    reveal(outcome);
    match request {
        ControlRequest::RaiseAttention { client_id, pane_id, message, .. } => {
            lemma_raise_step(
                plane,
                client_id,
                pane_id,
                message@,
                text_result(answers.token),
                facts.now,
            );
        },
        _ => {},
    }
}

proof fn attention_requests_is_lawful(
    plane: PlaneView,
    request: ControlRequest,
    answers: Answers,
    facts: Facts,
    identity: Result<ViewerId, Seq<char>>,
)
    requires
        request is AttentionRequests,
    ensures
        lawful(plane, request, outcome(plane, request, answers, facts, identity)),
{
    reveal(outcome);
    match request {
        ControlRequest::AttentionRequests { client_id, .. } => {
            lemma_list_attention(plane, client_id);
        },
        _ => {},
    }
}

proof fn update_attention_is_lawful(
    plane: PlaneView,
    request: ControlRequest,
    answers: Answers,
    facts: Facts,
    identity: Result<ViewerId, Seq<char>>,
)
    requires
        request is UpdateAttention,
    ensures
        lawful(plane, request, outcome(plane, request, answers, facts, identity)),
{
    reveal(outcome);
    match request {
        ControlRequest::UpdateAttention {
            client_id,
            pane_id,
            revision,
            expected_space,
            expected_session,
            action,
            ..
        } => {
            lemma_update_team_attention(
                plane,
                client_id,
                pane_id,
                revision,
                expected_space@,
                expected_session,
                action,
                facts.now,
            );
        },
        _ => {},
    }
}

proof fn mail_attention_set_is_lawful(
    plane: PlaneView,
    request: ControlRequest,
    answers: Answers,
    facts: Facts,
    identity: Result<ViewerId, Seq<char>>,
)
    requires
        request is MailAttentionSet,
    ensures
        lawful(plane, request, outcome(plane, request, answers, facts, identity)),
{
    reveal(outcome);
    match request {
        ControlRequest::MailAttentionSet {
            client_id,
            pane_id,
            cell,
            gen,
            queue_rev,
            depth,
            wake,
            bound_pid,
            ..
        } => {
            lemma_set_mail_attention(
                plane,
                client_id,
                pane_id,
                MailAttentionView { pane_id, cell: cell@, gen, queue_rev, depth, wake, bound_pid, },
                facts.now,
            );
        },
        _ => {},
    }
}

proof fn mail_attention_clear_is_lawful(
    plane: PlaneView,
    request: ControlRequest,
    answers: Answers,
    facts: Facts,
    identity: Result<ViewerId, Seq<char>>,
)
    requires
        request is MailAttentionClear,
    ensures
        lawful(plane, request, outcome(plane, request, answers, facts, identity)),
{
    reveal(outcome);
    match request {
        ControlRequest::MailAttentionClear { client_id, pane_id, queue_rev, .. } => {
            lemma_clear_mail_attention(plane, client_id, pane_id, queue_rev, facts.now);
        },
        _ => {},
    }
}

proof fn mail_hello_is_lawful(
    plane: PlaneView,
    request: ControlRequest,
    answers: Answers,
    facts: Facts,
    identity: Result<ViewerId, Seq<char>>,
)
    requires
        request is MailHello,
    ensures
        lawful(plane, request, outcome(plane, request, answers, facts, identity)),
{
    reveal(outcome);
    match request {
        ControlRequest::MailHello { client_id, agent, .. } => {
            lemma_mail_hello(plane, client_id, agent@, option_view(answers.address));
        },
        _ => {},
    }
}

proof fn mail_alias_is_lawful(
    plane: PlaneView,
    request: ControlRequest,
    answers: Answers,
    facts: Facts,
    identity: Result<ViewerId, Seq<char>>,
)
    requires
        request is MailAlias,
    ensures
        lawful(plane, request, outcome(plane, request, answers, facts, identity)),
{
    reveal(outcome);
    match request {
        ControlRequest::MailAlias { client_id, name, .. } => {
            lemma_mail_alias(
                plane,
                client_id,
                name@,
                text_result(answers.sender),
                option_view(answers.address),
            );
        },
        _ => {},
    }
}

proof fn register_client_is_lawful(
    plane: PlaneView,
    request: ControlRequest,
    answers: Answers,
    facts: Facts,
    identity: Result<ViewerId, Seq<char>>,
)
    requires
        request is RegisterClient,
    ensures
        lawful(plane, request, outcome(plane, request, answers, facts, identity)),
{
    reveal(outcome);
    match request {
        ControlRequest::RegisterClient { .. } => {
            reveal(careful);
            reveal(patient);
            reveal(distinct);
            reveal(answered);
            if let Ok(viewer) = identity {
                lemma_register(plane, viewer);
            }
        },
        _ => {},
    }
}

proof fn acquire_lease_is_lawful(
    plane: PlaneView,
    request: ControlRequest,
    answers: Answers,
    facts: Facts,
    identity: Result<ViewerId, Seq<char>>,
)
    requires
        request is AcquireLease,
    ensures
        lawful(plane, request, outcome(plane, request, answers, facts, identity)),
{
    reveal(outcome);
    match request {
        ControlRequest::AcquireLease { client_id, pane_id, .. } => {
            lemma_acquire_lease(plane, client_id, pane_id);
        },
        _ => {},
    }
}

proof fn release_lease_is_lawful(
    plane: PlaneView,
    request: ControlRequest,
    answers: Answers,
    facts: Facts,
    identity: Result<ViewerId, Seq<char>>,
)
    requires
        request is ReleaseLease,
    ensures
        lawful(plane, request, outcome(plane, request, answers, facts, identity)),
{
    reveal(outcome);
    match request {
        ControlRequest::ReleaseLease { client_id, pane_id, .. } => {
            lemma_release_lease(plane, client_id, pane_id);
        },
        _ => {},
    }
}

proof fn takeover_lease_is_lawful(
    plane: PlaneView,
    request: ControlRequest,
    answers: Answers,
    facts: Facts,
    identity: Result<ViewerId, Seq<char>>,
)
    requires
        request is TakeoverLease,
    ensures
        lawful(plane, request, outcome(plane, request, answers, facts, identity)),
{
    reveal(outcome);
    match request {
        ControlRequest::TakeoverLease { client_id, pane_id, .. } => {
            lemma_takeover_lease(plane, client_id, pane_id);
        },
        _ => {},
    }
}

proof fn disconnect_client_is_lawful(
    plane: PlaneView,
    request: ControlRequest,
    answers: Answers,
    facts: Facts,
    identity: Result<ViewerId, Seq<char>>,
)
    requires
        request is DisconnectClient,
    ensures
        lawful(plane, request, outcome(plane, request, answers, facts, identity)),
{
    reveal(outcome);
    match request {
        ControlRequest::DisconnectClient { client_id, .. } => {
            lemma_disconnect(plane, client_id);
        },
        _ => {},
    }
}

proof fn pane_write_is_lawful(
    plane: PlaneView,
    request: ControlRequest,
    answers: Answers,
    facts: Facts,
    identity: Result<ViewerId, Seq<char>>,
)
    requires
        request is PaneWrite,
    ensures
        lawful(plane, request, outcome(plane, request, answers, facts, identity)),
{
    reveal(outcome);
    match request {
        ControlRequest::PaneWrite { client_id, pane_id, expected_child_pid, data, submit, .. } => {
            lemma_pane_write(
                plane,
                client_id,
                pane_id,
                expected_child_pid,
                data@,
                submit,
                plane.child_of(pane_id, facts.pids@),
                answers.agent,
                facts.cursor_submit@,
                answers.chunks,
                facts.now,
            );
        },
        _ => {},
    }
}

proof fn set_client_space_is_lawful(
    plane: PlaneView,
    request: ControlRequest,
    answers: Answers,
    facts: Facts,
    identity: Result<ViewerId, Seq<char>>,
)
    requires
        request is SetClientSpace,
    ensures
        lawful(plane, request, outcome(plane, request, answers, facts, identity)),
{
    reveal(outcome);
    match request {
        ControlRequest::SetClientSpace { client_id, space_id, .. } => {
            lemma_set_client_space(plane, client_id, space_id@, answers.space_valid);
        },
        _ => {},
    }
}

proof fn switch_session_is_lawful(
    plane: PlaneView,
    request: ControlRequest,
    answers: Answers,
    facts: Facts,
    identity: Result<ViewerId, Seq<char>>,
)
    requires
        request is SwitchSession,
    ensures
        lawful(plane, request, outcome(plane, request, answers, facts, identity)),
{
    reveal(outcome);
    match request {
        ControlRequest::SwitchSession { client_id, session_id, .. } => {
            lemma_switch_session(plane, client_id, session_id);
        },
        _ => {},
    }
}

proof fn shutdown_idle_is_lawful(
    plane: PlaneView,
    request: ControlRequest,
    answers: Answers,
    facts: Facts,
    identity: Result<ViewerId, Seq<char>>,
)
    requires
        request is ShutdownIdle,
    ensures
        lawful(plane, request, outcome(plane, request, answers, facts, identity)),
{
    reveal(outcome);
    match request {
        ControlRequest::ShutdownIdle { client_id, .. } => {
            lemma_shutdown_idle(plane, client_id);
        },
        _ => {},
    }
}

proof fn switch_window_is_lawful(
    plane: PlaneView,
    request: ControlRequest,
    answers: Answers,
    facts: Facts,
    identity: Result<ViewerId, Seq<char>>,
)
    requires
        request is SwitchWindow,
    ensures
        lawful(plane, request, outcome(plane, request, answers, facts, identity)),
{
    reveal(outcome);
    match request {
        ControlRequest::SwitchWindow { client_id, window_id, .. } => {
            lemma_switch_window(plane, client_id, window_id);
        },
        _ => {},
    }
}

proof fn set_sync_input_is_lawful(
    plane: PlaneView,
    request: ControlRequest,
    answers: Answers,
    facts: Facts,
    identity: Result<ViewerId, Seq<char>>,
)
    requires
        request is SetSyncInput,
    ensures
        lawful(plane, request, outcome(plane, request, answers, facts, identity)),
{
    reveal(outcome);
    match request {
        ControlRequest::SetSyncInput { client_id, window_id, enabled, .. } => {
            lemma_set_sync_input(plane, client_id, window_id, enabled);
        },
        _ => {},
    }
}

proof fn set_pane_status_is_lawful(
    plane: PlaneView,
    request: ControlRequest,
    answers: Answers,
    facts: Facts,
    identity: Result<ViewerId, Seq<char>>,
)
    requires
        request is SetPaneStatus,
    ensures
        lawful(plane, request, outcome(plane, request, answers, facts, identity)),
{
    reveal(outcome);
    match request {
        ControlRequest::SetPaneStatus { pane_id, text, .. } => {
            lemma_set_pane_status(plane, pane_id, option_text(text));
        },
        _ => {},
    }
}

proof fn lemma_dispatch(
    plane: PlaneView,
    request: ControlRequest,
    answers: Answers,
    facts: Facts,
    identity: Result<ViewerId, Seq<char>>,
)
    ensures
        lawful(plane, request, outcome(plane, request, answers, facts, identity)),
{
    match request {
        ControlRequest::Split { .. } => {
            split_is_lawful(plane, request, answers, facts, identity);
        },
        ControlRequest::Close { .. } => {
            close_is_lawful(plane, request, answers, facts, identity);
        },
        ControlRequest::Resize { .. } => {
            resize_is_lawful(plane, request, answers, facts, identity);
        },
        ControlRequest::CreateSession { .. } => {
            create_session_is_lawful(plane, request, answers, facts, identity);
        },
        ControlRequest::TransferSpaceSessions { .. } => {
            transfer_space_sessions_is_lawful(plane, request, answers, facts, identity);
        },
        ControlRequest::TransferSpacePane { .. } => {
            transfer_space_pane_is_lawful(plane, request, answers, facts, identity);
        },
        ControlRequest::NameSession { .. } => {
            name_session_is_lawful(plane, request, answers, facts, identity);
        },
        ControlRequest::DestroySession { .. } => {
            destroy_session_is_lawful(plane, request, answers, facts, identity);
        },
        ControlRequest::CreateWindow { .. } => {
            create_window_is_lawful(plane, request, answers, facts, identity);
        },
        ControlRequest::DestroyWindow { .. } => {
            destroy_window_is_lawful(plane, request, answers, facts, identity);
        },
        ControlRequest::MovePane { .. } => {
            move_pane_is_lawful(plane, request, answers, facts, identity);
        },
        ControlRequest::ApplyArrangement { .. } => {
            apply_arrangement_is_lawful(plane, request, answers, facts, identity);
        },
        ControlRequest::RenameWindow { .. } => {
            rename_window_is_lawful(plane, request, answers, facts, identity);
        },
        ControlRequest::RenamePane { .. } => {
            rename_pane_is_lawful(plane, request, answers, facts, identity);
        },
        ControlRequest::WritePane { .. } => {
            write_pane_is_lawful(plane, request, answers, facts, identity);
        },
        ControlRequest::SuggestFocus { .. } => {
            suggest_focus_is_lawful(plane, request, answers, facts, identity);
        },
        ControlRequest::ReportFocus { .. } => {
            report_focus_is_lawful(plane, request, answers, facts, identity);
        },
        ControlRequest::RaiseAttention { .. } => {
            raise_attention_is_lawful(plane, request, answers, facts, identity);
        },
        ControlRequest::AttentionRequests { .. } => {
            attention_requests_is_lawful(plane, request, answers, facts, identity);
        },
        ControlRequest::UpdateAttention { .. } => {
            update_attention_is_lawful(plane, request, answers, facts, identity);
        },
        ControlRequest::MailAttentionSet { .. } => {
            mail_attention_set_is_lawful(plane, request, answers, facts, identity);
        },
        ControlRequest::MailAttentionClear { .. } => {
            mail_attention_clear_is_lawful(plane, request, answers, facts, identity);
        },
        ControlRequest::MailHello { .. } => {
            mail_hello_is_lawful(plane, request, answers, facts, identity);
        },
        ControlRequest::MailAlias { .. } => {
            mail_alias_is_lawful(plane, request, answers, facts, identity);
        },
        ControlRequest::RegisterClient { .. } => {
            register_client_is_lawful(plane, request, answers, facts, identity);
        },
        ControlRequest::AcquireLease { .. } => {
            acquire_lease_is_lawful(plane, request, answers, facts, identity);
        },
        ControlRequest::ReleaseLease { .. } => {
            release_lease_is_lawful(plane, request, answers, facts, identity);
        },
        ControlRequest::TakeoverLease { .. } => {
            takeover_lease_is_lawful(plane, request, answers, facts, identity);
        },
        ControlRequest::DisconnectClient { .. } => {
            disconnect_client_is_lawful(plane, request, answers, facts, identity);
        },
        ControlRequest::PaneWrite { .. } => {
            pane_write_is_lawful(plane, request, answers, facts, identity);
        },
        ControlRequest::SetClientSpace { .. } => {
            set_client_space_is_lawful(plane, request, answers, facts, identity);
        },
        ControlRequest::SwitchSession { .. } => {
            switch_session_is_lawful(plane, request, answers, facts, identity);
        },
        ControlRequest::ShutdownIdle { .. } => {
            shutdown_idle_is_lawful(plane, request, answers, facts, identity);
        },
        ControlRequest::SwitchWindow { .. } => {
            switch_window_is_lawful(plane, request, answers, facts, identity);
        },
        ControlRequest::SetSyncInput { .. } => {
            set_sync_input_is_lawful(plane, request, answers, facts, identity);
        },
        ControlRequest::SetPaneStatus { .. } => {
            set_pane_status_is_lawful(plane, request, answers, facts, identity);
        },
        _ => {
            reveal(outcome);
            reveal(careful);
            reveal(patient);
            reveal(distinct);
            reveal(answered);
        },
    }
}

/// While the host is to do something first, nothing has changed. A write to a
/// pane may already have pruned its output ledger or made its client the latest
/// to size a window.
pub proof fn a_wait_changes_nothing(
    plane: PlaneView,
    request: ControlRequest,
    answers: Answers,
    facts: Facts,
    identity: Result<ViewerId, Seq<char>>,
)
    requires
        request !is WritePane,
        request !is PaneWrite,
    ensures
        plane.dispatch(request, answers, facts, identity).1 is Wait ==> plane.dispatch(
            request,
            answers,
            facts,
            identity,
        ).0 == plane,
{
    reveal(outcome);
    reveal(careful);
    reveal(patient);
    reveal(distinct);
    reveal(answered);
    lemma_dispatch(plane, request, answers, facts, identity);
}

/// No request takes the sequence back.
pub proof fn the_sequence_never_goes_back(
    plane: PlaneView,
    request: ControlRequest,
    answers: Answers,
    facts: Facts,
    identity: Result<ViewerId, Seq<char>>,
)
    ensures
        plane.handled(request, answers, facts, identity).0.ring.sequence >= plane.ring.sequence,
{
    reveal(outcome);
    reveal(careful);
    reveal(patient);
    reveal(distinct);
    reveal(answered);
    lemma_dispatch(plane, request, answers, facts, identity);
}

/// A refused request takes no sequence number and leaves the history alone.
pub proof fn a_refusal_is_unsequenced(
    plane: PlaneView,
    request: ControlRequest,
    answers: Answers,
    facts: Facts,
    identity: Result<ViewerId, Seq<char>>,
)
    ensures
        plane.dispatch(request, answers, facts, identity).1 matches StepView::Reply(Err(_))
            ==> plane.dispatch(request, answers, facts, identity).0.ring == plane.ring,
{
    reveal(outcome);
    reveal(careful);
    reveal(patient);
    reveal(distinct);
    reveal(answered);
    lemma_dispatch(plane, request, answers, facts, identity);
}

/// A refused request leaves every session, window, pane and lease as it was, and
/// every pane at its place.
pub proof fn a_refusal_is_atomic(
    plane: PlaneView,
    request: ControlRequest,
    answers: Answers,
    facts: Facts,
    identity: Result<ViewerId, Seq<char>>,
)
    ensures
        ({
            let (after, handled) = plane.handled(request, answers, facts, identity);
            handled is Respond && handled->Respond_0.body is Err ==> same_topology(after, plane)
        }),
{
    reveal(outcome);
    reveal(careful);
    reveal(patient);
    reveal(distinct);
    reveal(answered);
    lemma_dispatch(plane, request, answers, facts, identity);
}

/// Names stay apart: no request gives two sessions one name, or binds two of them to
/// one agent.
pub proof fn names_stay_apart(
    plane: PlaneView,
    request: ControlRequest,
    answers: Answers,
    facts: Facts,
    identity: Result<ViewerId, Seq<char>>,
)
    requires
        plane.wf(),
        plane.domain.names_apart(),
    ensures
        plane.handled(request, answers, facts, identity).0.domain.names_apart(),
{
    reveal(outcome);
    reveal(distinct);
    reveal(answered);
    lemma_dispatch(plane, request, answers, facts, identity);
}

/// An acknowledged mutation names the place of its last event, so that a client that
/// replays up to there has seen it.
pub proof fn an_acknowledgement_names_the_last_event(
    plane: PlaneView,
    request: ControlRequest,
    answers: Answers,
    facts: Facts,
    identity: Result<ViewerId, Seq<char>>,
)
    ensures
        ({
            let (after, step) = plane.dispatch(request, answers, facts, identity);
            step matches StepView::Reply(Ok(DataView::Mutation { ack })) ==> ack.sequence
                == after.ring.sequence as u64
        }),
{
    reveal(outcome);
    reveal(answered);
    lemma_dispatch(plane, request, answers, facts, identity);
}

} // verus!
