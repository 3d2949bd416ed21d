//! Streams off the plane: pane output as it comes, and waiting for mail.
use vstd::prelude::*;
use vstd::string::*;

use crate::attention::text_result;
use crate::error::{
    resnapshot_error, stale_error, stale_id, ControlError, ControlErrorCode, ErrorView,
};
use crate::mailbox::{depth_fault_view, mail_depth_for, StoreFault};
use crate::plane::{first_fault, ControlPlane, PlaneView};
use crate::response::{ControlResponse, ControlResponseData, DataView, PaneStyled, ResponseView};
use crate::step::Step;
use crate::text::{concat2, concat3, decimal, decimal_text};
use crate::wire::{PaneLogFrame, PROTOCOL_VERSION};
use crate::writes::{no_content, no_content_view};

verus! {

/// A wait is at most this long; who wants longer asks again.
pub const MAX_MAIL_WAIT_MS: u64 = 3_600_000;

/// At most so many frames of a pane log go into one response.
pub const MAX_PANE_LOG_BATCH: usize = 256;

/// A stream looks for work at least this often.
pub const SUBSCRIBE_SLICE_MS: u64 = 50;

/// How a pane log catches a reader up.
#[derive(Debug, PartialEq)]
pub enum CatchUp {
    /// The reader claims more than was ever written.
    Ahead { current: u64, oldest: Option<u64> },
    /// What the reader misses is no longer retained.
    Gap { oldest: u64, current: u64 },
    Events(Vec<PaneLogFrame>),
}

/// What the runtime says of a pane to a reader.
#[derive(Debug, PartialEq)]
pub struct PaneFeed {
    pub gone: bool,
    pub catch_up: Option<CatchUp>,
    /// The screen for this reader, in place of what it misses.
    pub screen: Option<PaneStyled>,
}

pub open spec fn ahead_view(from_seq: u64, current: u64, oldest: Option<u64>) -> ErrorView {
    resnapshot_error(
        ControlErrorCode::StaleSequence,
        "pane seq "@ + decimal(from_seq as nat) + " is ahead of current "@ + decimal(
            current as nat,
        ),
        match oldest {
            Some(n) => n,
            None => 1,
        },
        current,
    )
}

fn ahead_error(from_seq: u64, current: u64, oldest: Option<u64>) -> (e: ControlError)
    ensures
        e@ == ahead_view(from_seq, current, oldest),
{
    let theirs: String = decimal_text(from_seq);
    let ours: String = decimal_text(current);
    let head: String = concat3("pane seq ", theirs.as_str(), " is ahead of current ");
    let message: String = concat2(head.as_str(), ours.as_str());
    let oldest: u64 = match oldest {
        Some(n) => n,
        None => 1,
    };
    ControlError::resnapshot(ControlErrorCode::StaleSequence, message.as_str(), oldest, current)
}

/// The frames of one response.
pub open spec fn log_batch(frames: Seq<PaneLogFrame>) -> Seq<PaneLogFrame> {
    if frames.len() <= MAX_PANE_LOG_BATCH {
        frames
    } else {
        frames.take(MAX_PANE_LOG_BATCH as int)
    }
}

/// How far a reader is after those frames.
pub open spec fn log_through(from_seq: u64, batch: Seq<PaneLogFrame>) -> u64 {
    if batch.len() == 0 {
        from_seq
    } else {
        batch.last().seq
    }
}

pub open spec fn last_frame(pane: u64, through_seq: u64) -> DataView {
    DataView::PaneSubscribe {
        pane_id: pane,
        gap: false,
        snapshot: None,
        events: Seq::empty(),
        through_seq,
        done: true,
    }
}

impl PlaneView {
    /// Whether a stream has something to send. A reader that is ahead has not.
    pub open spec fn feed_ready(self, client: u64, feed: PaneFeed) -> Result<bool, ErrorView> {
        match first_fault(
            self.client_fault(client),
            if self.live {
                None
            } else {
                Some(no_content_view())
            },
        ) {
            Some(fault) => Err(fault),
            None => Ok(
                feed.gone || match feed.catch_up {
                    Some(CatchUp::Events(frames)) => frames@.len() > 0,
                    Some(CatchUp::Ahead { .. }) => false,
                    _ => true,
                },
            ),
        }
    }

    /// The next response of a stream, and how far the reader then is.
    pub open spec fn feed_frame(
        self,
        client: u64,
        pane: u64,
        from_seq: u64,
        done: bool,
        gone_is_terminal: bool,
        feed: PaneFeed,
    ) -> Result<(u64, DataView), ErrorView> {
        match first_fault(
            self.client_fault(client),
            if pane == 0 {
                Some(stale_error("pane"@, pane))
            } else if !self.live {
                Some(no_content_view())
            } else {
                None
            },
        ) {
            Some(fault) => Err(fault),
            None => if !self.domain.panes.contains_key(pane) || feed.gone {
                if gone_is_terminal {
                    Ok((from_seq, last_frame(pane, from_seq)))
                } else {
                    Err(stale_error("pane"@, pane))
                }
            } else {
                match feed.catch_up {
                    None => Err(stale_error("pane"@, pane)),
                    Some(CatchUp::Ahead { current, oldest }) => Err(
                        ahead_view(from_seq, current, oldest),
                    ),
                    Some(CatchUp::Gap { current, .. }) => Ok(
                        (
                            current,
                            DataView::PaneSubscribe {
                                pane_id: pane,
                                gap: true,
                                snapshot: feed.screen,
                                events: Seq::empty(),
                                through_seq: current,
                                done,
                            },
                        ),
                    ),
                    Some(CatchUp::Events(frames)) => {
                        let through_seq = log_through(from_seq, log_batch(frames@));
                        Ok(
                            (
                                through_seq,
                                DataView::PaneSubscribe {
                                    pane_id: pane,
                                    gap: false,
                                    snapshot: None,
                                    events: log_batch(frames@),
                                    through_seq,
                                    done,
                                },
                            ),
                        )
                    },
                }
            },
        }
    }
}

impl ControlPlane {
    /// Whether a stream has something to send.
    pub fn subscribe_has_work(&self, client: u64, feed: &PaneFeed) -> (r: Result<
        bool,
        ControlError,
    >)
        ensures
            match self@.feed_ready(client, *feed) {
                Err(fault) => r matches Err(e) && e@ == fault,
                Ok(ready) => r == Ok::<bool, ControlError>(ready),
            },
    {
        let _ = self.require_active_client(client)?;
        if !self.live {
            return Err(no_content());
        }
        if feed.gone {
            return Ok(true);
        }
        match &feed.catch_up {
            Some(CatchUp::Events(frames)) => Ok(frames.len() > 0),
            Some(CatchUp::Ahead { .. }) => Ok(false),
            _ => Ok(true),
        }
    }

    /// The next response of a stream, and how far the reader then is.
    pub fn subscribe_frame(
        &self,
        client: u64,
        pane: u64,
        from_seq: u64,
        done: bool,
        gone_is_terminal: bool,
        feed: PaneFeed,
    ) -> (r: Result<(u64, ControlResponseData), ControlError>)
        ensures
            match self@.feed_frame(client, pane, from_seq, done, gone_is_terminal, feed) {
                Err(fault) => r matches Err(e) && e@ == fault,
                Ok((through, data)) => r matches Ok(p) && p.0 == through && p.1@ == data,
            },
    {
        let _ = self.require_active_client(client)?;
        if pane == 0 {
            return Err(stale_id("pane", pane));
        }
        if !self.live {
            return Err(no_content());
        }
        if !self.domain.has_pane(pane) || feed.gone {
            if gone_is_terminal {
                return Ok((from_seq, final_frame(pane, from_seq)));
            }
            return Err(stale_id("pane", pane));
        }
        match feed.catch_up {
            None => Err(stale_id("pane", pane)),
            Some(CatchUp::Ahead { current, oldest }) => Err(
                ahead_error(from_seq, current, oldest),
            ),
            Some(CatchUp::Gap { oldest: _, current }) => Ok(
                (
                    current,
                    ControlResponseData::PaneSubscribe {
                        pane_id: pane,
                        gap: true,
                        snapshot: feed.screen,
                        events: Vec::new(),
                        through_seq: current,
                        done,
                    },
                ),
            ),
            Some(CatchUp::Events(frames)) => {
                let mut events: Vec<PaneLogFrame> = frames;
                let ghost all = events@;
                if events.len() > MAX_PANE_LOG_BATCH {
                    events.truncate(MAX_PANE_LOG_BATCH);
                }
                assert(events@ =~= log_batch(all));
                let through_seq: u64 = if events.len() == 0 {
                    from_seq
                } else {
                    events[events.len() - 1].seq
                };
                Ok(
                    (
                        through_seq,
                        ControlResponseData::PaneSubscribe {
                            pane_id: pane,
                            gap: false,
                            snapshot: None,
                            events,
                            through_seq,
                            done,
                        },
                    ),
                )
            },
        }
    }
}

/// The frame that ends a stream.
pub fn final_frame(pane: u64, through_seq: u64) -> (r: ControlResponseData)
    ensures
        r@ == last_frame(pane, through_seq),
{
    ControlResponseData::PaneSubscribe {
        pane_id: pane,
        gap: false,
        snapshot: None,
        events: Vec::new(),
        through_seq,
        done: true,
    }
}

pub open spec fn spec_wait_ms(timeout_ms: u32) -> u64 {
    if timeout_ms as u64 <= MAX_MAIL_WAIT_MS {
        timeout_ms as u64
    } else {
        MAX_MAIL_WAIT_MS
    }
}

/// How long a client waits that asked for so long.
pub fn wait_ms(timeout_ms: u32) -> (r: u64)
    ensures
        r == spec_wait_ms(timeout_ms),
{
    if timeout_ms as u64 <= MAX_MAIL_WAIT_MS {
        timeout_ms as u64
    } else {
        MAX_MAIL_WAIT_MS
    }
}

/// A stream of one pane to one reader.
#[derive(Debug, Clone, Copy, PartialEq, Eq, Structural)]
pub struct Subscription {
    pub request_id: u64,
    pub client: u64,
    pub pane: u64,
    pub through_seq: u64,
    /// Quiet for this long, the stream ends; zero catches up only.
    pub timeout_ms: u64,
}

/// What a stream does next.
#[derive(Debug, PartialEq)]
pub enum StreamStep {
    /// Send it and look for more.
    Send(ControlResponse),
    /// Send it; the stream is over.
    Last(ControlResponse),
    /// Nothing to send; look for more.
    Quiet,
}

#[verifier::ext_equal]
pub enum StreamView {
    Send(ResponseView),
    Last(ResponseView),
    Quiet,
}

impl View for StreamStep {
    type V = StreamView;

    open spec fn view(&self) -> StreamView {
        match *self {
            StreamStep::Send(response) => StreamView::Send(response@),
            StreamStep::Last(response) => StreamView::Last(response@),
            StreamStep::Quiet => StreamView::Quiet,
        }
    }
}

/// How a stream waits.
#[derive(Debug, Clone, Copy, PartialEq, Eq, Structural)]
pub enum StreamWait {
    /// The server goes down or the reader is gone: end without a word.
    Drop,
    /// Quiet for too long: send the last frame.
    TimedOut,
    /// Wait for so many milliseconds, then look for work.
    Slice(u64),
}

pub open spec fn stream_response(request_id: u64, body: Result<DataView, ErrorView>) -> ResponseView {
    ResponseView { version: PROTOCOL_VERSION, request_id, body }
}

/// The frame says that the stream is over.
pub open spec fn ends_stream(data: DataView) -> bool {
    data matches DataView::PaneSubscribe { done, .. } && done
}

/// The frame tells a reader nothing.
pub open spec fn idle_frame(data: DataView) -> bool {
    data matches DataView::PaneSubscribe { gap, events, .. } && !gap && events.len() == 0
}

pub open spec fn frame_view(r: Result<(u64, ControlResponseData), ControlError>) -> Result<
    (u64, DataView),
    ErrorView,
> {
    match r {
        Ok(p) => Ok((p.0, p.1@)),
        Err(e) => Err(e@),
    }
}

impl Subscription {
    pub open spec fn spec_new(
        request_id: u64,
        client: u64,
        pane: u64,
        from_seq: u64,
        timeout_ms: u32,
    ) -> Subscription {
        Subscription {
            request_id,
            client,
            pane,
            through_seq: from_seq,
            timeout_ms: spec_wait_ms(timeout_ms),
        }
    }

    pub fn new(request_id: u64, client: u64, pane: u64, from_seq: u64, timeout_ms: u32) -> (s: Self)
        ensures
            s == Subscription::spec_new(request_id, client, pane, from_seq, timeout_ms),
    {
        Subscription {
            request_id,
            client,
            pane,
            through_seq: from_seq,
            timeout_ms: wait_ms(timeout_ms),
        }
    }

    /// What the first frame comes to. With time to wait, an idle one is not sent.
    pub open spec fn opened(self, frame: Result<(u64, DataView), ErrorView>) -> (
        Subscription,
        StreamView,
    ) {
        match frame {
            Err(error) => (
                self,
                StreamView::Last(stream_response(self.request_id, Err(error))),
            ),
            Ok((through_seq, data)) => (
                Subscription { through_seq, ..self },
                if self.timeout_ms == 0 {
                    StreamView::Last(stream_response(self.request_id, Ok(data)))
                } else if idle_frame(data) {
                    StreamView::Quiet
                } else {
                    StreamView::Send(stream_response(self.request_id, Ok(data)))
                },
            ),
        }
    }

    /// What a later frame comes to.
    pub open spec fn followed(self, frame: Result<(u64, DataView), ErrorView>) -> (
        Subscription,
        StreamView,
    ) {
        match frame {
            Err(error) => (
                self,
                StreamView::Last(stream_response(self.request_id, Err(error))),
            ),
            Ok((through_seq, data)) => (
                Subscription { through_seq, ..self },
                if ends_stream(data) {
                    StreamView::Last(stream_response(self.request_id, Ok(data)))
                } else {
                    StreamView::Send(stream_response(self.request_id, Ok(data)))
                },
            ),
        }
    }

    /// Take the first frame, which [`ControlPlane::subscribe_frame`] gives for
    /// the start of the stream.
    pub fn open_stream(&mut self, frame: Result<(u64, ControlResponseData), ControlError>) -> (r:
        StreamStep)
        ensures
            (*final(self), r@) == old(self).opened(frame_view(frame)),
    {
        match frame {
            Err(error) => StreamStep::Last(ControlResponse::error(self.request_id, error)),
            Ok((through_seq, data)) => {
                self.through_seq = through_seq;
                if self.timeout_ms == 0 {
                    return StreamStep::Last(ControlResponse::ok(self.request_id, data));
                }
                let idle: bool = match &data {
                    ControlResponseData::PaneSubscribe { gap, events, .. } => !*gap
                        && events.len() == 0,
                    _ => false,
                };
                if idle {
                    StreamStep::Quiet
                } else {
                    StreamStep::Send(ControlResponse::ok(self.request_id, data))
                }
            },
        }
    }

    /// Take a later frame.
    pub fn follow(&mut self, frame: Result<(u64, ControlResponseData), ControlError>) -> (r:
        StreamStep)
        ensures
            (*final(self), r@) == old(self).followed(frame_view(frame)),
    {
        match frame {
            Err(error) => StreamStep::Last(ControlResponse::error(self.request_id, error)),
            Ok((through_seq, data)) => {
                self.through_seq = through_seq;
                let over: bool = match &data {
                    ControlResponseData::PaneSubscribe { done, .. } => *done,
                    _ => false,
                };
                if over {
                    StreamStep::Last(ControlResponse::ok(self.request_id, data))
                } else {
                    StreamStep::Send(ControlResponse::ok(self.request_id, data))
                }
            },
        }
    }

    pub open spec fn spec_wait(self, ended: bool, quiet_ms: u64) -> StreamWait {
        if ended {
            StreamWait::Drop
        } else if quiet_ms >= self.timeout_ms {
            StreamWait::TimedOut
        } else if self.timeout_ms - quiet_ms <= SUBSCRIBE_SLICE_MS {
            StreamWait::Slice((self.timeout_ms - quiet_ms) as u64)
        } else {
            StreamWait::Slice(SUBSCRIBE_SLICE_MS)
        }
    }

    /// How to wait for more, `quiet_ms` after the last frame. `ended` tells that
    /// the server goes down or that the reader is gone.
    pub fn wait(&self, ended: bool, quiet_ms: u64) -> (r: StreamWait)
        ensures
            r == self.spec_wait(ended, quiet_ms),
    {
        if ended {
            StreamWait::Drop
        } else if quiet_ms >= self.timeout_ms {
            StreamWait::TimedOut
        } else if self.timeout_ms - quiet_ms <= SUBSCRIBE_SLICE_MS {
            StreamWait::Slice(self.timeout_ms - quiet_ms)
        } else {
            StreamWait::Slice(SUBSCRIBE_SLICE_MS)
        }
    }

    /// The response that ends a stream that stayed quiet.
    pub fn timed_out(&self) -> (r: ControlResponse)
        ensures
            r@ == stream_response(self.request_id, Ok(last_frame(self.pane, self.through_seq))),
    {
        ControlResponse::ok(self.request_id, final_frame(self.pane, self.through_seq))
    }
}

/// A reader that follows a stream sees every frame of a batch once and in order:
/// the next look starts right behind the last frame that was sent.
pub proof fn streams_do_not_skip(
    plane: PlaneView,
    stream: Subscription,
    frames: Vec<PaneLogFrame>,
    screen: Option<PaneStyled>,
)
    requires
        plane.clients.contains_key(stream.client),
        plane.live,
        stream.pane != 0,
        plane.domain.panes.contains_key(stream.pane),
        0 < frames@.len(),
    ensures
        ({
            let feed = PaneFeed {
                gone: false,
                catch_up: Some(CatchUp::Events(frames)),
                screen,
            };
            let n = log_batch(frames@).len();
            let frame = plane.feed_frame(
                stream.client,
                stream.pane,
                stream.through_seq,
                false,
                true,
                feed,
            );
            let (next, step) = stream.followed(frame);
            &&& step is Send
            &&& step->Send_0.body matches Ok(DataView::PaneSubscribe { events, .. })
                && events == frames@.take(n as int)
            &&& next.through_seq == frames@[n - 1].seq
            &&& 1 <= n <= MAX_PANE_LOG_BATCH
        }),
{
    assert(frames@.take(frames@.len() as int) =~= frames@);
}

impl ControlPlane {
    /// The agent that a client waits for mail as.
    pub fn mail_wait_prepare(&self, client: u64, sender: &Option<Result<String, String>>) -> (r:
        Result<String, Step>)
        ensures
            match self@.mail_agent(client, text_result(*sender)) {
                Ok(agent) => r matches Ok(name) && name@ == agent,
                Err(step) => r matches Err(s) && s@ == step,
            },
    {
        self.mail_agent(client, sender)
    }
}

/// Whether a wait for mail is over: there is mail, or the count failed.
pub fn mail_arrived(counted: &Result<(u32, u32), StoreFault>) -> (r: bool)
    ensures
        r == match *counted {
            Ok((open, _)) => open > 0,
            Err(_) => true,
        },
{
    match counted {
        Ok(depth) => depth.0 > 0,
        Err(_) => true,
    }
}

/// The response to a wait for mail, whether mail came or time ran out.
pub fn mail_wait_response(request_id: u64, counted: Result<(u32, u32), StoreFault>) -> (r:
    ControlResponse)
    ensures
        r@ == stream_response(
            request_id,
            match counted {
                Ok((open, held)) => Ok(DataView::MailDepth { open, held }),
                Err(fault) => Err(depth_fault_view(fault@)),
            },
        ),
{
    match mail_depth_for(counted) {
        Ok((open, held)) => ControlResponse::ok(
            request_id,
            ControlResponseData::MailDepth { open, held },
        ),
        Err(error) => ControlResponse::error(request_id, error),
    }
}

} // verus!
