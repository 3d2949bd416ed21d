//! Error vocabulary of the control protocol and of the layers below it.
use vstd::prelude::*;
use vstd::string::*;

use crate::text::{concat2, concat3, decimal_text};

verus! {

/// Stable error vocabulary for clients and test harnesses.
#[derive(Debug, Clone, Copy, PartialEq, Eq, Structural)]
pub enum ControlErrorCode {
    InvalidJson,
    FrameTooLarge,
    InvalidRequest,
    IncompatibleVersion,
    StaleRequestId,
    StaleId,
    StaleSequence,
    EventGap,
    SnapshotRequired,
    TooSmall,
    LastPane,
    SequenceExhausted,
    /// Writable controller lease held by another client.
    LeaseHeld,
    /// Caller is not the writable controller (observer while a holder exists).
    NotController,
    /// Lease-free write refused: the pane holds unsubmitted input.
    InputDirty,
    /// Intentional text refused while typing or streaming output.
    InputBusy,
    /// Authority is valid, but no lossless control-to-PTY route is bound yet.
    InputRouteUnavailable,
    /// The bounded PTY input queue is full; caller may retry later.
    Backpressure,
    Internal,
}

impl ControlErrorCode {
    /// Variant name, as it appears in rendered errors.
    pub open spec fn spec_name(self) -> Seq<char> {
        match self {
            ControlErrorCode::InvalidJson => "InvalidJson"@,
            ControlErrorCode::FrameTooLarge => "FrameTooLarge"@,
            ControlErrorCode::InvalidRequest => "InvalidRequest"@,
            ControlErrorCode::IncompatibleVersion => "IncompatibleVersion"@,
            ControlErrorCode::StaleRequestId => "StaleRequestId"@,
            ControlErrorCode::StaleId => "StaleId"@,
            ControlErrorCode::StaleSequence => "StaleSequence"@,
            ControlErrorCode::EventGap => "EventGap"@,
            ControlErrorCode::SnapshotRequired => "SnapshotRequired"@,
            ControlErrorCode::TooSmall => "TooSmall"@,
            ControlErrorCode::LastPane => "LastPane"@,
            ControlErrorCode::SequenceExhausted => "SequenceExhausted"@,
            ControlErrorCode::LeaseHeld => "LeaseHeld"@,
            ControlErrorCode::NotController => "NotController"@,
            ControlErrorCode::InputDirty => "InputDirty"@,
            ControlErrorCode::InputBusy => "InputBusy"@,
            ControlErrorCode::InputRouteUnavailable => "InputRouteUnavailable"@,
            ControlErrorCode::Backpressure => "Backpressure"@,
            ControlErrorCode::Internal => "Internal"@,
        }
    }

    pub fn name(self) -> (s: &'static str)
        ensures
            s@ == self.spec_name(),
    {
        match self {
            ControlErrorCode::InvalidJson => "InvalidJson",
            ControlErrorCode::FrameTooLarge => "FrameTooLarge",
            ControlErrorCode::InvalidRequest => "InvalidRequest",
            ControlErrorCode::IncompatibleVersion => "IncompatibleVersion",
            ControlErrorCode::StaleRequestId => "StaleRequestId",
            ControlErrorCode::StaleId => "StaleId",
            ControlErrorCode::StaleSequence => "StaleSequence",
            ControlErrorCode::EventGap => "EventGap",
            ControlErrorCode::SnapshotRequired => "SnapshotRequired",
            ControlErrorCode::TooSmall => "TooSmall",
            ControlErrorCode::LastPane => "LastPane",
            ControlErrorCode::SequenceExhausted => "SequenceExhausted",
            ControlErrorCode::LeaseHeld => "LeaseHeld",
            ControlErrorCode::NotController => "NotController",
            ControlErrorCode::InputDirty => "InputDirty",
            ControlErrorCode::InputBusy => "InputBusy",
            ControlErrorCode::InputRouteUnavailable => "InputRouteUnavailable",
            ControlErrorCode::Backpressure => "Backpressure",
            ControlErrorCode::Internal => "Internal",
        }
    }
}

/// A structured protocol error.
#[derive(Debug, PartialEq, Eq)]
pub struct ControlError {
    pub code: ControlErrorCode,
    pub message: String,
    pub resnapshot_required: bool,
    pub oldest_available_sequence: Option<u64>,
    pub current_sequence: Option<u64>,
    /// Set on `LeaseHeld` and `NotController`.
    pub holder: Option<u64>,
}

/// What a `ControlError` says.
pub struct ErrorView {
    pub code: ControlErrorCode,
    pub message: Seq<char>,
    pub resnapshot_required: bool,
    pub oldest_available_sequence: Option<u64>,
    pub current_sequence: Option<u64>,
    pub holder: Option<u64>,
}

impl View for ControlError {
    type V = ErrorView;

    open spec fn view(&self) -> ErrorView {
        ErrorView {
            code: self.code,
            message: self.message@,
            resnapshot_required: self.resnapshot_required,
            oldest_available_sequence: self.oldest_available_sequence,
            current_sequence: self.current_sequence,
            holder: self.holder,
        }
    }
}

impl Clone for ControlError {
    fn clone(&self) -> (r: Self)
        ensures
            r == *self,
    {
        ControlError {
            code: self.code,
            message: self.message.clone(),
            resnapshot_required: self.resnapshot_required,
            oldest_available_sequence: self.oldest_available_sequence,
            current_sequence: self.current_sequence,
            holder: self.holder,
        }
    }
}

/// An error that carries a code and a message only.
pub open spec fn plain_error(code: ControlErrorCode, message: Seq<char>) -> ErrorView {
    ErrorView {
        code,
        message,
        resnapshot_required: false,
        oldest_available_sequence: None,
        current_sequence: None,
        holder: None,
    }
}

pub open spec fn resnapshot_error(
    code: ControlErrorCode,
    message: Seq<char>,
    oldest: u64,
    current: u64,
) -> ErrorView {
    ErrorView {
        code,
        message,
        resnapshot_required: true,
        oldest_available_sequence: Some(oldest),
        current_sequence: Some(current),
        holder: None,
    }
}

pub open spec fn stale_error(kind: Seq<char>, raw: u64) -> ErrorView {
    plain_error(
        ControlErrorCode::StaleId,
        "unknown or stale "@ + kind + (" id "@ + crate::text::decimal(raw as nat)),
    )
}

impl ControlError {
    pub fn new(code: ControlErrorCode, message: &str) -> (e: Self)
        ensures
            e@ == plain_error(code, message@),
    {
        ControlError {
            code,
            message: String::from_str(message),
            resnapshot_required: false,
            oldest_available_sequence: None,
            current_sequence: None,
            holder: None,
        }
    }

    pub fn with_holder(self, holder: u64) -> (e: Self)
        ensures
            e@ == (ErrorView { holder: Some(holder), ..self@ }),
    {
        let mut e = self;
        e.holder = Some(holder);
        e
    }

    pub fn resnapshot(
        code: ControlErrorCode,
        message: &str,
        oldest_available_sequence: u64,
        current_sequence: u64,
    ) -> (e: Self)
        ensures
            e@ == resnapshot_error(
                code,
                message@,
                oldest_available_sequence,
                current_sequence,
            ),
    {
        ControlError {
            code,
            message: String::from_str(message),
            resnapshot_required: true,
            oldest_available_sequence: Some(oldest_available_sequence),
            current_sequence: Some(current_sequence),
            holder: None,
        }
    }

    /// Rendered form: code, a colon and the message.
    pub fn describe(&self) -> (s: String)
        ensures
            s@ == self.code.spec_name() + ": "@ + self.message@,
    {
        concat3(self.code.name(), ": ", self.message.as_str())
    }
}

/// An id that names nothing now.
pub fn stale_id(kind: &str, raw: u64) -> (e: ControlError)
    ensures
        e@ == stale_error(kind@, raw),
{
    let tail: String = concat2(" id ", decimal_text(raw).as_str());
    let message: String = concat3("unknown or stale ", kind, tail.as_str());
    ControlError::new(ControlErrorCode::StaleId, message.as_str())
}

pub fn session_id(raw: u64) -> (r: Result<u64, ControlError>)
    ensures
        raw != 0 ==> r == Ok::<u64, ControlError>(raw),
        raw == 0 ==> (r matches Err(e) && e@ == stale_error("session"@, raw)),
{
    if raw == 0 {
        Err(stale_id("session", raw))
    } else {
        Ok(raw)
    }
}

pub fn window_id(raw: u64) -> (r: Result<u64, ControlError>)
    ensures
        raw != 0 ==> r == Ok::<u64, ControlError>(raw),
        raw == 0 ==> (r matches Err(e) && e@ == stale_error("window"@, raw)),
{
    if raw == 0 {
        Err(stale_id("window", raw))
    } else {
        Ok(raw)
    }
}

pub fn pane_id(raw: u64) -> (r: Result<u64, ControlError>)
    ensures
        raw != 0 ==> r == Ok::<u64, ControlError>(raw),
        raw == 0 ==> (r matches Err(e) && e@ == stale_error("pane"@, raw)),
{
    if raw == 0 {
        Err(stale_id("pane", raw))
    } else {
        Ok(raw)
    }
}

pub fn client_id(raw: u64) -> (r: Result<u64, ControlError>)
    ensures
        raw != 0 ==> r == Ok::<u64, ControlError>(raw),
        raw == 0 ==> (r matches Err(e) && e@ == stale_error("client"@, raw)),
{
    if raw == 0 {
        Err(stale_id("client", raw))
    } else {
        Ok(raw)
    }
}

/// Why a layout could not be computed.
#[derive(Debug, Clone, Copy, PartialEq, Eq, Structural)]
pub enum GeometryError {
    TooSmall,
    LastPane,
    UnknownPane(u64),
    InvalidRatio,
    Overflow,
}

impl GeometryError {
    pub open spec fn spec_text(self) -> Seq<char> {
        match self {
            GeometryError::TooSmall => "window is too small for this layout"@,
            GeometryError::LastPane => "the last pane of a window cannot be closed"@,
            GeometryError::UnknownPane(_) => "pane is not part of this layout"@,
            GeometryError::InvalidRatio => "split ratio must lie strictly between 0 and 1"@,
            GeometryError::Overflow => "layout arithmetic overflowed"@,
        }
    }

    pub fn text(self) -> (s: &'static str)
        ensures
            s@ == self.spec_text(),
    {
        match self {
            GeometryError::TooSmall => "window is too small for this layout",
            GeometryError::LastPane => "the last pane of a window cannot be closed",
            GeometryError::UnknownPane(_) => "pane is not part of this layout",
            GeometryError::InvalidRatio => "split ratio must lie strictly between 0 and 1",
            GeometryError::Overflow => "layout arithmetic overflowed",
        }
    }
}

/// Why a topology operation was refused.
#[derive(Debug, Clone, Copy, PartialEq, Eq, Structural)]
pub enum DomainError {
    UnknownSession(u64),
    UnknownWindow(u64),
    UnknownPane(u64),
    Geometry(GeometryError),
    LastLeafRefused,
    EmptyName,
    InvalidName,
    DuplicatePane(u64),
    PaneOwnedElsewhere(u64),
    LeaseHeld { holder: u64 },
    NotController { holder: Option<u64> },
    IdSpaceExhausted,
    AgentIdInUse,
    SpaceOwnerMismatch,
}

impl DomainError {
    pub open spec fn spec_text(self) -> Seq<char> {
        match self {
            DomainError::UnknownSession(_) => "unknown session"@,
            DomainError::UnknownWindow(_) => "unknown window"@,
            DomainError::UnknownPane(_) => "unknown pane"@,
            DomainError::Geometry(error) => error.spec_text(),
            DomainError::LastLeafRefused => "the last pane of a window cannot be closed"@,
            DomainError::EmptyName => "name must not be empty"@,
            DomainError::InvalidName => "name must be at most 64 bytes and contain no NUL"@,
            DomainError::DuplicatePane(_) => "pane occurs twice"@,
            DomainError::PaneOwnedElsewhere(_) => "pane belongs to another window"@,
            DomainError::LeaseHeld { .. } => "controller lease is held"@,
            DomainError::NotController { .. } => "caller is not the pane controller"@,
            DomainError::IdSpaceExhausted => "id space exhausted"@,
            DomainError::AgentIdInUse => "agent id is already bound to a session"@,
            DomainError::SpaceOwnerMismatch => "session Space owner changed"@,
        }
    }

    pub fn text(self) -> (s: &'static str)
        ensures
            s@ == self.spec_text(),
    {
        match self {
            DomainError::UnknownSession(_) => "unknown session",
            DomainError::UnknownWindow(_) => "unknown window",
            DomainError::UnknownPane(_) => "unknown pane",
            DomainError::Geometry(error) => error.text(),
            DomainError::LastLeafRefused => "the last pane of a window cannot be closed",
            DomainError::EmptyName => "name must not be empty",
            DomainError::InvalidName => "name must be at most 64 bytes and contain no NUL",
            DomainError::DuplicatePane(_) => "pane occurs twice",
            DomainError::PaneOwnedElsewhere(_) => "pane belongs to another window",
            DomainError::LeaseHeld { .. } => "controller lease is held",
            DomainError::NotController { .. } => "caller is not the pane controller",
            DomainError::IdSpaceExhausted => "id space exhausted",
            DomainError::AgentIdInUse => "agent id is already bound to a session",
            DomainError::SpaceOwnerMismatch => "session Space owner changed",
        }
    }
}

/// Wire error for a refused layout.
pub open spec fn geometry_error_view(error: GeometryError) -> ErrorView {
    match error {
        GeometryError::TooSmall => plain_error(ControlErrorCode::TooSmall, error.spec_text()),
        GeometryError::LastPane => plain_error(ControlErrorCode::LastPane, error.spec_text()),
        GeometryError::UnknownPane(pane) => stale_error("pane"@, pane),
        GeometryError::InvalidRatio => plain_error(
            ControlErrorCode::InvalidRequest,
            error.spec_text(),
        ),
        GeometryError::Overflow => plain_error(
            ControlErrorCode::InvalidRequest,
            error.spec_text(),
        ),
    }
}

pub fn control_geometry_error(error: GeometryError) -> (e: ControlError)
    ensures
        e@ == geometry_error_view(error),
{
    match error {
        GeometryError::TooSmall => ControlError::new(ControlErrorCode::TooSmall, error.text()),
        GeometryError::LastPane => ControlError::new(ControlErrorCode::LastPane, error.text()),
        GeometryError::UnknownPane(pane) => stale_id("pane", pane),
        GeometryError::InvalidRatio => ControlError::new(
            ControlErrorCode::InvalidRequest,
            error.text(),
        ),
        GeometryError::Overflow => ControlError::new(
            ControlErrorCode::InvalidRequest,
            error.text(),
        ),
    }
}

/// Wire error for a refused topology operation.
pub open spec fn domain_error_view(error: DomainError) -> ErrorView {
    match error {
        DomainError::UnknownSession(id) => stale_error("session"@, id),
        DomainError::UnknownWindow(id) => stale_error("window"@, id),
        DomainError::UnknownPane(id) => stale_error("pane"@, id),
        DomainError::Geometry(error) => geometry_error_view(error),
        DomainError::LastLeafRefused => plain_error(ControlErrorCode::LastPane, error.spec_text()),
        DomainError::LeaseHeld { holder } => ErrorView {
            holder: Some(holder),
            ..plain_error(
                ControlErrorCode::LeaseHeld,
                "controller lease held by "@ + crate::text::decimal(holder as nat),
            )
        },
        DomainError::NotController { holder } => ErrorView {
            holder,
            ..plain_error(ControlErrorCode::NotController, error.spec_text())
        },
        DomainError::IdSpaceExhausted => plain_error(ControlErrorCode::Internal, error.spec_text()),
        _ => plain_error(ControlErrorCode::InvalidRequest, error.spec_text()),
    }
}

pub fn control_domain_error(error: DomainError) -> (e: ControlError)
    ensures
        e@ == domain_error_view(error),
{
    match error {
        DomainError::UnknownSession(id) => stale_id("session", id),
        DomainError::UnknownWindow(id) => stale_id("window", id),
        DomainError::UnknownPane(id) => stale_id("pane", id),
        DomainError::Geometry(inner) => control_geometry_error(inner),
        DomainError::LastLeafRefused => ControlError::new(ControlErrorCode::LastPane, error.text()),
        DomainError::EmptyName => ControlError::new(
            ControlErrorCode::InvalidRequest,
            error.text(),
        ),
        DomainError::InvalidName => ControlError::new(
            ControlErrorCode::InvalidRequest,
            error.text(),
        ),
        DomainError::DuplicatePane(_) => ControlError::new(
            ControlErrorCode::InvalidRequest,
            error.text(),
        ),
        DomainError::PaneOwnedElsewhere(_) => ControlError::new(
            ControlErrorCode::InvalidRequest,
            error.text(),
        ),
        DomainError::LeaseHeld { holder } => {
            let message: String = concat2(
                "controller lease held by ",
                decimal_text(holder).as_str(),
            );
            ControlError::new(ControlErrorCode::LeaseHeld, message.as_str()).with_holder(holder)
        },
        DomainError::NotController { holder } => {
            let mapped = ControlError::new(ControlErrorCode::NotController, error.text());
            match holder {
                Some(id) => mapped.with_holder(id),
                None => mapped,
            }
        },
        DomainError::IdSpaceExhausted => ControlError::new(
            ControlErrorCode::Internal,
            error.text(),
        ),
        DomainError::AgentIdInUse => ControlError::new(
            ControlErrorCode::InvalidRequest,
            error.text(),
        ),
        DomainError::SpaceOwnerMismatch => ControlError::new(
            ControlErrorCode::InvalidRequest,
            error.text(),
        ),
    }
}

/// Why the live runtime did not take input for a pane.
#[derive(Debug, Clone, Copy, PartialEq, Eq, Structural)]
pub enum LiveWriteError {
    Backpressure,
    UnknownPane,
    Disconnected,
}

/// Wire error for input that the live runtime did not take.
pub open spec fn live_write_view(error: LiveWriteError) -> ErrorView {
    match error {
        LiveWriteError::Backpressure => plain_error(
            ControlErrorCode::Backpressure,
            "pane input queue is full; retry later"@,
        ),
        _ => plain_error(
            ControlErrorCode::InputRouteUnavailable,
            "live PTY input route is unavailable"@,
        ),
    }
}

pub fn live_write_error(error: LiveWriteError) -> (e: ControlError)
    ensures
        e@ == live_write_view(error),
{
    match error {
        LiveWriteError::Backpressure => ControlError::new(
            ControlErrorCode::Backpressure,
            "pane input queue is full; retry later",
        ),
        LiveWriteError::UnknownPane => ControlError::new(
            ControlErrorCode::InputRouteUnavailable,
            "live PTY input route is unavailable",
        ),
        LiveWriteError::Disconnected => ControlError::new(
            ControlErrorCode::InputRouteUnavailable,
            "live PTY input route is unavailable",
        ),
    }
}

pub open spec fn live_internal_view(detail: Seq<char>) -> ErrorView {
    plain_error(ControlErrorCode::Internal, "live pane runtime failed: "@ + detail)
}

/// Failure of the live runtime, with its own rendered cause chain.
pub fn live_internal_error(detail: &str) -> (e: ControlError)
    ensures
        e@ == live_internal_view(detail@),
{
    let message: String = concat2("live pane runtime failed: ", detail);
    ControlError::new(ControlErrorCode::Internal, message.as_str())
}

} // verus!
