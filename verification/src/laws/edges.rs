//! What stands at the edges of the control plane is for: the socket, the checkpoints, the
//! colors on the wire, the errors that are told, and the data that starts a child.
use vstd::prelude::*;

use crate::discovery::{
    is_stale_connect_error, probe_socket_liveness, ConnectFault, SocketLiveness, SocketProbe,
};
use crate::dispatch::{Answers, Facts, HandledView};
use crate::error::{domain_error_view, ControlErrorCode, DomainError, GeometryError};
use crate::persist::{PaneKeyView, PersistTick, PersistView};
use crate::plane::PlaneView;
use crate::request::ControlRequest;
use crate::server::{admits, bind_step, prepare_socket_path, BindAction, BindStage, SocketPlan};
use crate::style::{Color, ColorWire, CursorShapeWire, StyledCell};
use crate::text::{byte_count, trimmed};
use crate::wire::{ArrangementWire, SpawnView, ViewerId};

verus! {

/// A color on the wire is the color of the cell: its kind, its number and its parts.
pub proof fn a_color_is_kept(color: Color)
    ensures
        ({
            let wire = ColorWire::spec_from_core(color);
            &&& color is Default <==> wire is Default
            &&& color is Ansi <==> wire is Ansi
            &&& color is Indexed <==> wire is Indexed
            &&& color is Rgb <==> wire is Rgb
            &&& color is Ansi ==> wire->Ansi_n == color->Ansi_0
            &&& color is Indexed ==> wire->Indexed_n == color->Indexed_0
            &&& color is Rgb ==> wire->r == color->r && wire->g == color->g && wire->b == color->b
        }),
{
}

/// The style of a cell tells its marks and its two colors, each under its own name.
pub proof fn a_style_tells_its_cell(cell: StyledCell)
    ensures
        cell.spec_key().bold == cell.bold,
        cell.spec_key().italic == cell.italic,
        cell.spec_key().underline == cell.underline,
        cell.spec_key().inverse == cell.inverse,
        cell.foreground is Default <==> cell.spec_key().fg is Default,
        cell.background is Default <==> cell.spec_key().bg is Default,
        cell.foreground matches Color::Indexed(n) ==> cell.spec_key().fg == (ColorWire::Indexed {
            n,
        }),
        cell.background matches Color::Indexed(n) ==> cell.spec_key().bg == (ColorWire::Indexed {
            n,
        }),
        cell.foreground matches Color::Ansi(n) ==> cell.spec_key().fg == (ColorWire::Ansi { n }),
        cell.background matches Color::Ansi(n) ==> cell.spec_key().bg == (ColorWire::Ansi { n }),
        cell.foreground matches Color::Rgb { r, g, b } ==> cell.spec_key().fg == (ColorWire::Rgb {
            r,
            g,
            b,
        }),
        cell.background matches Color::Rgb { r, g, b } ==> cell.spec_key().bg == (ColorWire::Rgb {
            r,
            g,
            b,
        }),
{
}

/// The steady shapes of a cursor are numbered two, four and six: block, underline, bar.
pub proof fn a_cursor_shape_has_its_number(shape: CursorShapeWire)
    ensures
        shape is Block ==> shape.spec_parameter() == 0x30 + 2,
        shape is Underline ==> shape.spec_parameter() == 0x30 + 4,
        shape is Bar ==> shape.spec_parameter() == 0x30 + 6,
{
}

/// An arrangement is called by what it does: a main pane with the rest beside or below it,
/// even parts along one axis, or a grid.
pub proof fn an_arrangement_has_its_name(kind: ArrangementWire)
    ensures
        kind is MainVertical ==> kind.spec_name() == "main-vertical"@,
        kind is MainHorizontal ==> kind.spec_name() == "main-horizontal"@,
        kind is EvenH ==> kind.spec_name() == "even-h"@,
        kind is EvenV ==> kind.spec_name() == "even-v"@,
        kind is Grid ==> kind.spec_name() == "grid"@,
{
}

/// A refusal is told by the code that says what is wrong, and a lease that somebody holds
/// names the holder. None asks for a new look at everything.
pub proof fn an_error_says_what_is_wrong(error: DomainError)
    ensures
        ({
            let told = domain_error_view(error);
            &&& !told.resnapshot_required
            &&& told.oldest_available_sequence is None
            &&& told.current_sequence is None
            &&& told.code == match error {
                DomainError::UnknownSession(_) => ControlErrorCode::StaleId,
                DomainError::UnknownWindow(_) => ControlErrorCode::StaleId,
                DomainError::UnknownPane(_) => ControlErrorCode::StaleId,
                DomainError::Geometry(GeometryError::UnknownPane(_)) => ControlErrorCode::StaleId,
                DomainError::Geometry(GeometryError::TooSmall) => ControlErrorCode::TooSmall,
                DomainError::Geometry(GeometryError::LastPane) => ControlErrorCode::LastPane,
                DomainError::LastLeafRefused => ControlErrorCode::LastPane,
                DomainError::LeaseHeld { .. } => ControlErrorCode::LeaseHeld,
                DomainError::NotController { .. } => ControlErrorCode::NotController,
                DomainError::IdSpaceExhausted => ControlErrorCode::Internal,
                _ => ControlErrorCode::InvalidRequest,
            }
            &&& told.holder == match error {
                DomainError::LeaseHeld { holder } => Some(holder),
                DomainError::NotController { holder } => holder,
                _ => None,
            }
        }),
{
}

/// Sixty-four connections are served at a time.
pub proof fn so_many_are_let_in(clients: usize, r: bool)
    requires
        call_ensures(admits, (clients,), r),
    ensures
        r <==> clients < 64,
{
}

/// A start replaces only what is certainly a leftover of its own: not what answers, not
/// what is somebody else's, and not where it cannot tell.
pub proof fn only_a_leftover_is_replaced(
    probe: SocketProbe,
    live: SocketLiveness,
    plan: SocketPlan,
)
    requires
        call_ensures(probe_socket_liveness, (probe,), live),
        call_ensures(prepare_socket_path, (live,), plan),
    ensures
        probe is Absent <==> plan is Bind,
        probe is NotOwned <==> plan is Denied,
        probe matches SocketProbe::Connected { answers } ==> if answers {
            plan is InUse
        } else {
            plan is Replace
        },
        probe matches SocketProbe::Refused { fault, os_error } ==> (fault is Other && os_error
            is None ==> plan is InUse) && (!(fault is Other) ==> plan is Replace),
        plan is InUse || plan is Denied <==> plan.spec_message() is Some,
{
}

/// A connection that fails otherwise than by a missing listener shows nothing, but for the
/// numbers of the system that mean just that.
pub proof fn a_failed_connection_is_read(fault: ConnectFault, os_error: Option<i32>, r: bool)
    requires
        call_ensures(is_stale_connect_error, (fault, os_error), r),
    ensures
        fault is ConnectionRefused || fault is NotFound || fault is ConnectionReset
            || fault is BrokenPipe || fault is UnexpectedEof ==> r,
        fault is Other ==> (r <==> os_error == Some(111i32) || os_error == Some(2i32) || os_error
            == Some(104i32) || os_error == Some(32i32)),
{
}

/// How many steps of a start are behind.
pub open spec fn steps_behind(stage: BindStage) -> int {
    match stage {
        BindStage::Prepare => 0,
        BindStage::Listen => 1,
        BindStage::Restrict => 2,
        BindStage::Unblock => 3,
        BindStage::Accept => 4,
        BindStage::Maintain => 5,
    }
}

/// A start goes step by step, and serves after the last; children are looked after only
/// where there are any. A step that fails undoes what was made before it, no more.
pub proof fn a_start_goes_step_by_step(stage: BindStage, live: bool)
    ensures
        match bind_step(stage, true, live) {
            BindAction::Next(next) => steps_behind(next) == steps_behind(stage) + 1 && (steps_behind(
                stage,
            ) < 4 || live),
            BindAction::Serving => steps_behind(stage) == 5 || (steps_behind(stage) == 4 && !live),
            BindAction::Undo { .. } => false,
        },
        bind_step(stage, false, live) == (BindAction::Undo {
            stop_accept: steps_behind(stage) == 5,
            remove_socket: steps_behind(stage) >= 2,
        }),
{
}

/// A checkpoint that was written moves the mark to where it stood; one that failed does
/// not, and is made anew. What was captured is forgotten after a failure or a compaction.
pub proof fn a_written_checkpoint_moves_the_mark(
    state: PersistView,
    keys: Seq<PaneKeyView>,
    tick: PersistTick,
)
    ensures
        ({
            let (after, action) = state.ticked(keys, tick);
            let told = tick.completed is Some && state.pending is Some;
            let (success, compact) = match tick.completed {
                Some((success, compact)) => (success, compact),
                None => (false, false),
            };
            &&& told && success ==> after.mark == state.pending->0
            &&& !(told && success) ==> after.mark == state.mark
            &&& told ==> after.pending is None
            &&& !told ==> after.pending == state.pending
            &&& action.forget_captured <==> told && (!success || compact)
        }),
        ({
            let (after, action) = state.ticked(keys, tick);
            action.started <==> tick.live && (state.pending is None || tick.completed is Some)
                && state.capture is None && tick.due && tick.mark != after.mark
        }),
        ({
            let (after, action) = state.ticked(keys, tick);
            &&& action.started && tick.has_path && keys.len() > 0 ==> action.capture == Some(keys[0])
            &&& action.started && action.submit is Some ==> action.submit == Some(tick.mark)
            &&& !tick.live || (state.pending is Some && tick.completed is None) ==> action.capture
                is None && action.submit is None && !action.dropped
        }),
{
}

/// A child is started by what fits: a program, at most so many arguments and variables,
/// none of them too long or with a NUL, an absolute directory, and not too much in all.
pub proof fn launch_data_fits(spawn: SpawnView, i: int)
    requires
        spawn.fault() is None,
    ensures
        trimmed(spawn.program).len() > 0,
        !spawn.program.contains('\0'),
        spawn.argv.len() <= 4_096,
        spawn.env.len() <= 4_096,
        0 <= i < spawn.argv.len() ==> byte_count(spawn.argv[i]) <= 65_536 && !spawn.argv[i].contains(
            '\0',
        ),
        0 <= i < spawn.env.len() ==> {
            let (key, value) = spawn.env[i];
            &&& key.len() > 0
            &&& !key.contains('=')
            &&& !key.contains('\0')
            &&& !value.contains('\0')
            &&& byte_count(key) <= 65_536
            &&& byte_count(value) <= 65_536
        },
        spawn.cwd matches Some(bytes) ==> bytes.len() > 0 && bytes[0] == 0x2f && !bytes.contains(0),
        byte_count(spawn.program) <= 65_536,
{
}

/// A response answers the request that it belongs to. A request without a number, of
/// another version, or to a daemon that goes down is refused, and nothing changes.
pub proof fn a_response_belongs_to_its_request(
    plane: PlaneView,
    request: ControlRequest,
    answers: Answers,
    facts: Facts,
    identity: Result<ViewerId, Seq<char>>,
)
    ensures
        ({
            let (after, handled) = plane.handled(request, answers, facts, identity);
            let (version, id) = request.spec_header();
            let turned_away = id == 0 || version != 1 || plane.shutdown_pending;
            &&& handled matches HandledView::Respond(r) ==> r.request_id == id && r.version == 1
            &&& turned_away ==> handled is Respond && handled->Respond_0.body is Err
            &&& turned_away ==> after == plane
            &&& id != 0 && version != 1 ==> handled->Respond_0.body->Err_0.code
                == ControlErrorCode::IncompatibleVersion
            &&& id == 0 || (version == 1 && plane.shutdown_pending)
                ==> handled->Respond_0.body->Err_0.code == ControlErrorCode::InvalidRequest
        }),
{
}

} // verus!
