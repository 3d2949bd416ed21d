//! One connection: whose it is, which requests it may make, and in which order.
use vstd::prelude::*;
use vstd::string::*;

use crate::dispatch::wrong_version;
use crate::error::{
    plain_error, stale_error, stale_id, ControlError, ControlErrorCode, ErrorView,
};
use crate::frame::MAX_REQUEST_BYTES;
use crate::request::ControlRequest;
use crate::response::{
    ControlResponse, ControlResponseBody, ControlResponseData, DataView, ResponseView,
};
use crate::text::{concat3, decimal, decimal_text};
use crate::wire::PROTOCOL_VERSION;

verus! {

/// How many replies to earlier requests a client skips while it waits for one.
pub const CONTROL_STALE_SKIP_MAX: u32 = 32;

/// How an incoming reply relates to the request a client awaits. A stale id is an
/// earlier reply that was never consumed.
#[derive(Debug, Clone, Copy, PartialEq, Eq, Structural)]
pub enum ControlIdMatch {
    Stale,
    Awaited,
    Ahead,
}

pub fn classify_control_request_id(got: u64, awaited: u64) -> (r: ControlIdMatch)
    ensures
        r == ControlIdMatch::Stale <==> got < awaited,
        r == ControlIdMatch::Awaited <==> got == awaited,
        r == ControlIdMatch::Ahead <==> got > awaited,
{
    if got < awaited {
        ControlIdMatch::Stale
    } else if got == awaited {
        ControlIdMatch::Awaited
    } else {
        ControlIdMatch::Ahead
    }
}

/// One more skipped reply, or none where the bound is reached.
pub fn next_stale_skip(skipped: u32) -> (r: Option<u32>)
    ensures
        r == if skipped < CONTROL_STALE_SKIP_MAX {
            Some((skipped + 1) as u32)
        } else {
            None::<u32>
        },
{
    if skipped < CONTROL_STALE_SKIP_MAX {
        Some(skipped + 1)
    } else {
        None
    }
}

/// What a connection remembers between its requests.
#[derive(Debug, Clone, Copy, PartialEq, Eq, Structural)]
pub struct ClientConnState {
    pub last_request_id: u64,
    pub snapshot_established: bool,
    /// The client registered on this connection. Its end releases the leases.
    pub connection_client: Option<u64>,
}

/// Where a request of a connection goes.
#[derive(Debug, PartialEq)]
pub enum Route {
    /// The plane serves it.
    Serve,
    /// It waits for mail, off the plane.
    MailWait,
    /// It streams pane output, off the plane.
    Subscribe,
    /// The reader has no snapshot: answer with the plane's demand for one.
    SnapshotRequired,
    /// The server goes down; nothing is answered.
    Stop,
    Respond(ControlResponse),
}

#[verifier::ext_equal]
pub enum RouteView {
    Serve,
    MailWait,
    Subscribe,
    SnapshotRequired,
    Stop,
    Respond(ResponseView),
}

impl View for Route {
    type V = RouteView;

    open spec fn view(&self) -> RouteView {
        match *self {
            Route::Serve => RouteView::Serve,
            Route::MailWait => RouteView::MailWait,
            Route::Subscribe => RouteView::Subscribe,
            Route::SnapshotRequired => RouteView::SnapshotRequired,
            Route::Stop => RouteView::Stop,
            Route::Respond(response) => RouteView::Respond(response@),
        }
    }
}

pub open spec fn error_response(request_id: u64, error: ErrorView) -> ResponseView {
    ResponseView { version: PROTOCOL_VERSION, request_id, body: Err(error) }
}

pub open spec fn stale_request_view(request_id: u64, last: u64) -> ErrorView {
    plain_error(
        ControlErrorCode::StaleRequestId,
        "request_id "@ + decimal(request_id as nat) + " is not newer than "@ + decimal(last as nat)
            + " on this connection"@,
    )
}

/// The response to a request that is not a request.
pub fn invalid_json_response(error: &str) -> (r: ControlResponse)
    ensures
        r@ == error_response(0, plain_error(ControlErrorCode::InvalidJson, error@)),
{
    ControlResponse::error(0, ControlError::new(ControlErrorCode::InvalidJson, error))
}

/// The response to a request line that is too long; the connection then ends.
pub fn frame_too_large_response() -> (r: ControlResponse)
    ensures
        r@ == error_response(
            0,
            plain_error(
                ControlErrorCode::FrameTooLarge,
                "control request exceeds "@ + decimal(MAX_REQUEST_BYTES as nat) + " bytes"@,
            ),
        ),
{
    let bound: String = decimal_text(MAX_REQUEST_BYTES as u64);
    let message: String = concat3("control request exceeds ", bound.as_str(), " bytes");
    ControlResponse::error(
        0,
        ControlError::new(ControlErrorCode::FrameTooLarge, message.as_str()),
    )
}

/// What is left to do once a response is known.
#[derive(Debug, Clone, Copy, PartialEq, Eq, Structural)]
pub struct Afterwards {
    /// Wake the clients that wait for mail.
    pub ring_mail: bool,
    /// Once the response is out, the server goes down.
    pub shut_down: bool,
}

impl ClientConnState {
    pub fn new() -> (s: Self)
        ensures
            s == (ClientConnState {
                last_request_id: 0,
                snapshot_established: false,
                connection_client: None,
            }),
    {
        ClientConnState {
            last_request_id: 0,
            snapshot_established: false,
            connection_client: None,
        }
    }

    pub open spec fn with_id(self, request_id: u64) -> ClientConnState {
        ClientConnState {
            last_request_id: if request_id != 0 {
                request_id
            } else {
                self.last_request_id
            },
            ..self
        }
    }

    /// The header of the request is in order.
    pub open spec fn sound(request: ControlRequest) -> bool {
        request.spec_header().1 != 0 && request.spec_header().0 == PROTOCOL_VERSION
    }

    /// Where a request goes, and what the connection then remembers.
    pub open spec fn routed(self, request: ControlRequest, stopping: bool) -> (
        ClientConnState,
        RouteView,
    ) {
        let (version, request_id) = request.spec_header();
        let claimed = request.spec_claimed();
        let sound = ClientConnState::sound(request);
        let next = self.with_id(request_id);
        if request_id != 0 && request_id <= self.last_request_id {
            (
                self,
                RouteView::Respond(
                    error_response(
                        request_id,
                        stale_request_view(request_id, self.last_request_id),
                    ),
                ),
            )
        } else if sound && request is RegisterClient && self.connection_client is Some {
            (
                next,
                RouteView::Respond(
                    error_response(
                        request_id,
                        plain_error(
                            ControlErrorCode::InvalidRequest,
                            "this connection already has a registered client identity"@,
                        ),
                    ),
                ),
            )
        } else if sound && claimed is Some && claimed != self.connection_client {
            (
                next,
                RouteView::Respond(
                    error_response(
                        request_id,
                        stale_error("client for this connection"@, claimed->0),
                    ),
                ),
            )
        } else if sound && request is Events && !self.snapshot_established {
            (next, RouteView::SnapshotRequired)
        } else if request is MailWait {
            (
                next,
                if stopping {
                    RouteView::Stop
                } else {
                    RouteView::MailWait
                },
            )
        } else if request is SubscribePane {
            if request_id == 0 {
                (
                    next,
                    RouteView::Respond(
                        error_response(
                            request_id,
                            plain_error(
                                ControlErrorCode::InvalidRequest,
                                "request_id must be non-zero"@,
                            ),
                        ),
                    ),
                )
            } else if version != PROTOCOL_VERSION {
                (
                    next,
                    RouteView::Respond(error_response(request_id, wrong_version(version))),
                )
            } else {
                (
                    next,
                    if stopping {
                        RouteView::Stop
                    } else {
                        RouteView::Subscribe
                    },
                )
            }
        } else {
            (
                next,
                if stopping {
                    RouteView::Stop
                } else {
                    RouteView::Serve
                },
            )
        }
    }

    /// Decide where a request goes.
    pub fn route(&mut self, request: &ControlRequest, stopping: bool) -> (r: Route)
        ensures
            (*final(self), r@) == old(self).routed(*request, stopping),
    {
        let (version, request_id) = request.header();
        let claimed: Option<u64> = request.claimed_client_id();
        let sound: bool = request_id != 0 && version == PROTOCOL_VERSION;
        if request_id != 0 && request_id <= self.last_request_id {
            let error: ControlError = stale_request(request_id, self.last_request_id);
            return Route::Respond(ControlResponse::error(request_id, error));
        }
        if request_id != 0 {
            self.last_request_id = request_id;
        }
        if sound && matches!(request, ControlRequest::RegisterClient { .. })
            && self.connection_client.is_some() {
            return Route::Respond(
                ControlResponse::error(
                    request_id,
                    ControlError::new(
                        ControlErrorCode::InvalidRequest,
                        "this connection already has a registered client identity",
                    ),
                ),
            );
        }
        if let Some(client) = claimed {
            if sound && claimed != self.connection_client {
                return Route::Respond(
                    ControlResponse::error(
                        request_id,
                        stale_id("client for this connection", client),
                    ),
                );
            }
        }
        if sound && matches!(request, ControlRequest::Events { .. })
            && !self.snapshot_established {
            return Route::SnapshotRequired;
        }
        if matches!(request, ControlRequest::MailWait { .. }) {
            return if stopping {
                Route::Stop
            } else {
                Route::MailWait
            };
        }
        if matches!(request, ControlRequest::SubscribePane { .. }) {
            if request_id == 0 {
                return Route::Respond(
                    ControlResponse::error(
                        request_id,
                        ControlError::new(
                            ControlErrorCode::InvalidRequest,
                            "request_id must be non-zero",
                        ),
                    ),
                );
            }
            if version != PROTOCOL_VERSION {
                return Route::Respond(
                    ControlResponse::error(request_id, crate::dispatch::version_error(version)),
                );
            }
            return if stopping {
                Route::Stop
            } else {
                Route::Subscribe
            };
        }
        if stopping {
            Route::Stop
        } else {
            Route::Serve
        }
    }

    /// What a response changes: a snapshot is established, or lost, or the
    /// connection gets its client.
    pub open spec fn after_response(
        self,
        request: ControlRequest,
        body: Result<DataView, ErrorView>,
    ) -> ClientConnState {
        ClientConnState {
            last_request_id: self.last_request_id,
            snapshot_established: match body {
                Ok(data) => self.snapshot_established || (request is Snapshot
                    && data is Snapshot),
                Err(error) => self.snapshot_established && !error.resnapshot_required,
            },
            connection_client: match body {
                Ok(DataView::ClientRegistered { client_id }) if request is RegisterClient => Some(
                    client_id,
                ),
                _ => self.connection_client,
            },
        }
    }

    /// Take note of the response to a request.
    pub fn settle(&mut self, request: &ControlRequest, response: &ControlResponse) -> (r:
        Afterwards)
        ensures
            *final(self) == old(self).after_response(*request, response@.body),
            r.ring_mail == (response@.body matches Ok(data) && (data is MailSent
                || data is MailBroadcasted || data is MailReleased)),
            r.shut_down == (response@.body matches Ok(data) && data is ShutdownAccepted),
    {
        let mut r = Afterwards { ring_mail: false, shut_down: false };
        match &response.body {
            ControlResponseBody::Failure { error } => {
                if error.resnapshot_required {
                    self.snapshot_established = false;
                }
            },
            ControlResponseBody::Success { response } => match response {
                ControlResponseData::Snapshot { .. } => {
                    if matches!(request, ControlRequest::Snapshot { .. }) {
                        self.snapshot_established = true;
                    }
                },
                ControlResponseData::ClientRegistered { client_id } => {
                    if matches!(request, ControlRequest::RegisterClient { .. }) {
                        self.connection_client = Some(*client_id);
                    }
                },
                ControlResponseData::MailSent { .. } => {
                    r.ring_mail = true;
                },
                ControlResponseData::MailBroadcasted { .. } => {
                    r.ring_mail = true;
                },
                ControlResponseData::MailReleased { .. } => {
                    r.ring_mail = true;
                },
                ControlResponseData::ShutdownAccepted => {
                    r.shut_down = true;
                },
                _ => {},
            },
        }
        r
    }

    pub open spec fn spec_farewell(self) -> Option<ControlRequest> {
        match self.connection_client {
            None => None,
            Some(client_id) => Some(
                ControlRequest::DisconnectClient {
                    version: PROTOCOL_VERSION,
                    request_id: if self.last_request_id == u64::MAX {
                        u64::MAX
                    } else {
                        (self.last_request_id + 1) as u64
                    },
                    client_id,
                },
            ),
        }
    }

    /// The request that ends the client of a connection that is gone.
    pub fn farewell(&self) -> (r: Option<ControlRequest>)
        ensures
            r == self.spec_farewell(),
    {
        match self.connection_client {
            None => None,
            Some(client_id) => {
                let request_id: u64 = if self.last_request_id == u64::MAX {
                    u64::MAX
                } else {
                    self.last_request_id + 1
                };
                Some(
                    ControlRequest::DisconnectClient {
                        version: PROTOCOL_VERSION,
                        request_id,
                        client_id,
                    },
                )
            },
        }
    }
}

fn stale_request(request_id: u64, last: u64) -> (e: ControlError)
    ensures
        e@ == stale_request_view(request_id, last),
{
    let theirs: String = decimal_text(request_id);
    let ours: String = decimal_text(last);
    let head: String = concat3("request_id ", theirs.as_str(), " is not newer than ");
    let message: String = concat3(head.as_str(), ours.as_str(), " on this connection");
    ControlError::new(ControlErrorCode::StaleRequestId, message.as_str())
}

/// Request ids only rise on a connection: whatever is let through carries an id
/// above every earlier one, and the same id is not let through twice.
pub proof fn request_ids_rise(
    state: ClientConnState,
    request: ControlRequest,
    again: ControlRequest,
    stopping: bool,
)
    ensures
        ({
            let id = request.spec_header().1;
            let (next, route) = state.routed(request, stopping);
            &&& next.last_request_id >= state.last_request_id
            &&& id != 0 && route !is Respond ==> state.last_request_id < id
                && next.last_request_id == id
            &&& id != 0 && again.spec_header().1 == id ==> next.routed(again, stopping)
                == (next, RouteView::Respond(
                error_response(id, stale_request_view(id, next.last_request_id)),
            ))
        }),
{
}

/// Events are read only after a snapshot on the same connection, and a lost place
/// in the history asks for a new one.
pub proof fn events_follow_a_snapshot(
    state: ClientConnState,
    request: ControlRequest,
    stopping: bool,
    error: ErrorView,
)
    requires
        request is Events,
        ClientConnState::sound(request),
    ensures
        state.routed(request, stopping).1 is Serve ==> state.snapshot_established,
        error.resnapshot_required ==> !state.after_response(
            request,
            Err(error),
        ).snapshot_established,
{
}

/// Nobody acts as the client of another connection: a request that names a client
/// is let through only on the connection that registered that client.
pub proof fn clients_stay_on_their_connection(
    state: ClientConnState,
    request: ControlRequest,
    stopping: bool,
)
    requires
        ClientConnState::sound(request),
        request.spec_claimed() is Some,
    ensures
        ({
            let route = state.routed(request, stopping).1;
            route is Serve || route is MailWait || route is Subscribe ==> request.spec_claimed()
                == state.connection_client
        }),
{
}

/// A connection has one client for good.
pub proof fn one_client_per_connection(
    state: ClientConnState,
    request: ControlRequest,
    stopping: bool,
    body: Result<DataView, ErrorView>,
)
    requires
        state.connection_client is Some,
        ClientConnState::sound(request),
        state.routed(request, stopping).1 is Serve,
    ensures
        state.routed(request, stopping).0.after_response(request, body).connection_client
            == state.connection_client,
{
}

} // verus!
