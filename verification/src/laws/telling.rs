//! What the history, the streams of panes and the connections are for.
use vstd::prelude::*;

use crate::conn::ClientConnState;
use crate::error::{ControlErrorCode, ErrorView};
use crate::event::{EnvelopeView, EventView, RingView};
use crate::idmap::group_views;
use crate::laws::relations::{lemma_published_is_told, same_clients};
use crate::model::group_seq_views;
use crate::plane::PlaneView;
use crate::request::ControlRequest;
use crate::response::DataView;
use crate::snapshot::TickView;
use crate::state::group_pane_states;
use crate::subscribe::{CatchUp, PaneFeed, StreamView, StreamWait, Subscription};

verus! {

broadcast use {group_views, group_seq_views, group_pane_states, lemma_published_is_told};

/// A reader of the history gets the events after the one it saw last, oldest first, as many
/// as it asked for or two hundred and fifty-six, and is told whether there are more. Who is
/// ahead of the history, or asks for what is no longer kept, has to look at everything anew.
pub proof fn the_history_is_read_on(ring: RingView, after: u64, limit: Option<usize>)
    requires
        ring.wf(),
    ensures
        ({
            let n = if limit is Some {
                limit->0 as int
            } else {
                256int
            };
            let fault = ring.replay_fault(after, limit);
            let first = ring.sequence - ring.events.len() + 1;
            &&& fault is None <==> 1 <= n <= 256 && after <= ring.sequence && first <= after + 1
            &&& !(1 <= n <= 256) ==> fault->0.code == ControlErrorCode::InvalidRequest
                && !fault->0.resnapshot_required
            &&& 1 <= n <= 256 && after > ring.sequence ==> fault->0.code
                == ControlErrorCode::StaleSequence && fault->0.resnapshot_required
                && fault->0.current_sequence == Some(ring.sequence as u64)
            &&& 1 <= n <= 256 && after <= ring.sequence && after + 1 < first ==> fault->0.code
                == ControlErrorCode::EventGap && fault->0.resnapshot_required
                && fault->0.oldest_available_sequence == Some(first as u64)
                && fault->0.current_sequence == Some(ring.sequence as u64)
        }),
        ({
            let n = if limit is Some {
                limit->0 as int
            } else {
                256int
            };
            let batch = ring.batch(after, limit);
            let left = ring.sequence - after;
            ring.replay_fault(after, limit) is None ==> {
                &&& batch.after_sequence == after
                &&& batch.current_sequence == ring.sequence
                &&& batch.events.len() == if left < n {
                    left
                } else {
                    n
                }
                &&& batch.through_sequence == after + batch.events.len()
                &&& batch.has_more <==> batch.through_sequence < ring.sequence
                &&& forall|i: int|
                    0 <= i < batch.events.len() ==> (#[trigger] batch.events[i]).sequence == after
                        + 1 + i && ring.events.contains(batch.events[i])
            }
        }),
{
    if ring.replay_fault(after, limit) is None {
        let batch = ring.batch(after, limit);
        let start = after - (ring.sequence - ring.events.len());
        assert forall|i: int| 0 <= i < batch.events.len() implies (
        #[trigger] batch.events[i]).sequence == after + 1 + i && ring.events.contains(
            batch.events[i],
        ) by {
            assert(batch.events[i] == ring.events[start + i]);
        }
    }
}

/// Output of a pane is told once: while its last hint is still in the history, that hint is
/// refreshed where it stands; else one more event tells of it.
pub proof fn output_is_told_once(ring: RingView, pane: u64, revision: u64, child_alive: bool)
    requires
        ring.wf(),
        ring.sequence < u64::MAX,
    ensures
        ({
            let after = ring.note_activity(pane, revision, child_alive);
            let told = EventView::OutputActivity { pane_id: pane, revision, child_alive };
            let hinted = exists|i: int|
                0 <= i < ring.events.len() && (#[trigger] ring.events[i]).event is OutputActivity
                    && ring.events[i].event->OutputActivity_pane_id == pane;
            &&& hinted ==> {
                &&& after.sequence == ring.sequence
                &&& after.events.len() == ring.events.len()
                &&& forall|i: int|
                    0 <= i < ring.events.len() ==> {
                        let was = #[trigger] ring.events[i];
                        &&& after.events[i].sequence == was.sequence
                        &&& after.events[i].event == if was.event is OutputActivity
                            && was.event->OutputActivity_pane_id == pane {
                            told
                        } else {
                            was.event
                        }
                    }
            }
            &&& !hinted ==> {
                &&& after.sequence == ring.sequence + 1
                &&& after.events.last() == (EnvelopeView {
                    sequence: ring.sequence + 1,
                    event: told,
                })
            }
        }),
{
    let hinted = exists|i: int|
        0 <= i < ring.events.len() && (#[trigger] ring.events[i]).event is OutputActivity
            && ring.events[i].event->OutputActivity_pane_id == pane;
    if hinted {
        let k = choose|i: int|
            0 <= i < ring.events.len() && (#[trigger] ring.events[i]).event is OutputActivity
                && ring.events[i].event->OutputActivity_pane_id == pane;
        assert(ring.activity_at(pane, k));
        let c = choose|i: int| ring.activity_at(pane, i);
        assert(ring.activity_at(pane, c));
        assert(c == k) by {
            if c < k {
                assert(ring.events[c].event != ring.events[k].event || c == k);
            }
        }
        assert forall|i: int| 0 <= i < ring.events.len() && i != k implies !((
        #[trigger] ring.events[i]).event is OutputActivity
            && ring.events[i].event->OutputActivity_pane_id == pane) by {
            if i < k {
                assert(ring.events[i].sequence != ring.events[k].sequence);
            } else {
                assert(ring.events[k].sequence != ring.events[i].sequence);
            }
        }
    } else if ring.has_activity(pane) {
        let c = choose|i: int| ring.activity_at(pane, i);
        assert(ring.events[c].event is OutputActivity);
    }
}

/// A report of output marks its pane: the time, how much came, and what it calls for.
pub proof fn a_report_of_output_marks_its_pane(plane: PlaneView, tick: TickView, now: u64)
    requires
        plane.wf(),
    ensures
        ({
            let after = plane.ticked(tick, now);
            let was = plane.panes[tick.pane];
            let is = after.panes[tick.pane];
            &&& is.output_at == Some(now)
            &&& tick.nbytes == 0 ==> is.output == was.output
            &&& tick.nbytes > 0 ==> is.output.len() > 0 && is.output.last() == (now, tick.nbytes)
            &&& is.attention == if tick.attention is Some {
                tick.attention
            } else {
                was.attention
            }
            &&& is.team == was.team
            &&& is.mail == was.mail
            &&& is.status == was.status
            &&& is.spawn == was.spawn
            &&& is.written == was.written
            &&& is.nudge == was.nudge
            &&& forall|p: u64| p != tick.pane ==> #[trigger] after.panes[p] == plane.panes[p]
            &&& after.domain == plane.domain
            &&& after.frames == plane.frames
            &&& after.effects == plane.effects
            &&& same_clients(plane, after)
            &&& tick.attention is None ==> after.ring == plane.ring.note_activity(
                tick.pane,
                tick.revision,
                tick.child_alive,
            )
            &&& tick.attention matches Some(message) ==> after.ring == plane.ring.publish(
                EventView::PaneAttention { pane_id: tick.pane, message },
            ).note_activity(tick.pane, tick.revision, tick.child_alive)
        }),
{
    if tick.nbytes > 0 {
        let s = plane.panes[tick.pane].output.push((now, tick.nbytes));
        crate::laws::ringing::recent_output_is_what_follows_the_old(s, now);
        let r = crate::ledger::recent_output(s, now);
        let k = s.len() - r.len();
        if k == s.len() {
            assert(s[s.len() - 1] == (now, tick.nbytes));
            assert(crate::laws::ringing::ago(s[s.len() - 1].0, now) >= 3_000);
        }
        assert(r.last() == s.last());
    }
}

/// A stream has something to send where its pane is gone, where its log is gone or has a
/// gap, and where there are frames.
pub proof fn a_stream_has_work(plane: PlaneView, client: u64, feed: PaneFeed)
    ensures
        ({
            let ready = plane.feed_ready(client, feed);
            &&& ready is Ok <==> plane.clients.contains_key(client) && plane.live
            &&& ready is Ok ==> ready->Ok_0 == (feed.gone || match feed.catch_up {
                Some(CatchUp::Events(frames)) => frames@.len() > 0,
                Some(CatchUp::Ahead { .. }) => false,
                Some(CatchUp::Gap { .. }) => true,
                None => true,
            })
        }),
{
}

/// A stream sends the frames that follow, in order and at most two hundred and fifty-six of
/// them; where some are lost it sends the screen instead; a pane that is gone ends it.
pub proof fn a_stream_sends_what_follows(
    plane: PlaneView,
    client: u64,
    pane: u64,
    from_seq: u64,
    done: bool,
    gone_is_terminal: bool,
    feed: PaneFeed,
)
    requires
        plane.wf(),
    ensures
        ({
            let sent = plane.feed_frame(client, pane, from_seq, done, gone_is_terminal, feed);
            let open = plane.clients.contains_key(client) && pane != 0 && plane.live;
            let gone = !plane.domain.panes.contains_key(pane) || feed.gone;
            &&& !open ==> sent is Err
            &&& open && gone && !gone_is_terminal ==> sent is Err && sent->Err_0.code
                == ControlErrorCode::StaleId
            &&& open && gone && gone_is_terminal ==> {
                &&& sent matches Ok((through, data))
                &&& through == from_seq
                &&& data matches DataView::PaneSubscribe {
                    pane_id,
                    gap,
                    snapshot,
                    events,
                    through_seq,
                    done: over,
                }
                &&& pane_id == pane && !gap && snapshot is None && events.len() == 0 && through_seq
                    == from_seq && over
            }
            &&& open && !gone ==> match feed.catch_up {
                None => sent is Err,
                Some(CatchUp::Ahead { current, oldest }) => {
                    &&& sent matches Err(fault)
                    &&& fault.code == ControlErrorCode::StaleSequence
                    &&& fault.resnapshot_required
                    &&& fault.current_sequence == Some(current)
                },
                Some(CatchUp::Gap { current, .. }) => {
                    &&& sent matches Ok((through, data))
                    &&& through == current
                    &&& data matches DataView::PaneSubscribe {
                        pane_id,
                        gap,
                        snapshot,
                        events,
                        through_seq,
                        done: over,
                    }
                    &&& pane_id == pane && gap && snapshot == feed.screen && events.len() == 0
                        && through_seq == current && over == done
                },
                Some(CatchUp::Events(frames)) => {
                    &&& sent matches Ok((through, data))
                    &&& data matches DataView::PaneSubscribe {
                        pane_id,
                        gap,
                        snapshot,
                        events,
                        through_seq,
                        done: over,
                    }
                    &&& pane_id == pane && !gap && snapshot is None && over == done && through_seq
                        == through
                    &&& events.len() == if frames@.len() <= 256 {
                        frames@.len() as int
                    } else {
                        256int
                    }
                    &&& forall|i: int|
                        0 <= i < events.len() ==> #[trigger] events[i] == frames@[i]
                    &&& through == if events.len() > 0 {
                        events.last().seq
                    } else {
                        from_seq
                    }
                },
            }
        }),
{
}

/// A stream waits for at most an hour, in slices of at most fifty milliseconds, and never
/// beyond its time.
pub proof fn a_stream_waits_its_time(
    request_id: u64,
    client: u64,
    pane: u64,
    from_seq: u64,
    timeout_ms: u32,
    ended: bool,
    quiet_ms: u64,
)
    ensures
        ({
            let stream = Subscription::spec_new(request_id, client, pane, from_seq, timeout_ms);
            let wait = stream.spec_wait(ended, quiet_ms);
            let left = stream.timeout_ms - quiet_ms;
            &&& stream.request_id == request_id && stream.client == client && stream.pane == pane
                && stream.through_seq == from_seq
            &&& stream.timeout_ms == if timeout_ms <= 3_600_000 {
                timeout_ms as int
            } else {
                3_600_000int
            }
            &&& ended ==> wait is Drop
            &&& !ended && left <= 0 ==> wait is TimedOut
            &&& !ended && left > 0 ==> {
                &&& wait matches StreamWait::Slice(ms)
                &&& ms == if left < 50 {
                    left
                } else {
                    50int
                }
            }
        }),
{
}

/// What a stream sends answers the request that opened it. The first frame is the only one
/// where there is no time to wait, and is held back where it says nothing; a fault, and a
/// frame that says so, end the stream; each frame takes the reader on.
pub proof fn a_stream_answers_its_request(
    stream: Subscription,
    through: u64,
    data: DataView,
    fault: ErrorView,
)
    ensures
        ({
            let (after, step) = stream.opened(Ok((through, data)));
            let says_nothing = data matches DataView::PaneSubscribe { gap, events, .. } && !gap
                && events.len() == 0;
            &&& after.through_seq == through && after.request_id == stream.request_id
                && after.timeout_ms == stream.timeout_ms && after.pane == stream.pane
                && after.client == stream.client
            &&& match step {
                StreamView::Last(r) => stream.timeout_ms == 0 && r.request_id == stream.request_id
                    && r.version == 1 && r.body == Ok::<DataView, ErrorView>(data),
                StreamView::Quiet => stream.timeout_ms > 0 && says_nothing,
                StreamView::Send(r) => stream.timeout_ms > 0 && !says_nothing && r.request_id
                    == stream.request_id && r.version == 1 && r.body == Ok::<DataView, ErrorView>(
                    data,
                ),
            }
        }),
        ({
            let (after, step) = stream.followed(Ok((through, data)));
            let ends = data matches DataView::PaneSubscribe { done, .. } && done;
            &&& after.through_seq == through && after.request_id == stream.request_id
            &&& match step {
                StreamView::Last(r) => ends && r.request_id == stream.request_id && r.body == Ok::<
                    DataView,
                    ErrorView,
                >(data),
                StreamView::Quiet => false,
                StreamView::Send(r) => !ends && r.request_id == stream.request_id && r.body == Ok::<
                    DataView,
                    ErrorView,
                >(data),
            }
        }),
        ({
            let (first, step) = stream.opened(Err(fault));
            let (later, next) = stream.followed(Err(fault));
            &&& first == stream && later == stream
            &&& step matches StreamView::Last(r)
            &&& r.request_id == stream.request_id && r.body == Err::<DataView, ErrorView>(fault)
            &&& next == step
        }),
{
}

/// A connection answers requests in order: an id that is not newer than the last is stale;
/// a second client, a foreign client, and a reader that saw no snapshot are turned away;
/// once the server stops, nothing is served.
pub proof fn a_connection_routes_its_requests(
    conn: ClientConnState,
    request: ControlRequest,
    stopping: bool,
)
    ensures
        ({
            let (next, route) = conn.routed(request, stopping);
            let (version, id) = request.spec_header();
            let sound = version == 1 && id != 0;
            let stale = id != 0 && id <= conn.last_request_id;
            let claimed = request.spec_claimed();
            &&& stale ==> next == conn && route is Respond && route->Respond_0.request_id == id
                && route->Respond_0.body is Err && route->Respond_0.body->Err_0.code
                == ControlErrorCode::StaleRequestId
            &&& !stale ==> next.last_request_id == if id != 0 {
                id
            } else {
                conn.last_request_id
            }
            &&& next.snapshot_established == conn.snapshot_established
            &&& next.connection_client == conn.connection_client
            &&& route is Serve || route is Subscribe || route is MailWait ==> {
                &&& !stale
                &&& !stopping
                &&& sound ==> (request is RegisterClient ==> conn.connection_client is None)
                &&& sound ==> (claimed is Some ==> claimed == conn.connection_client)
                &&& sound ==> (request is Events ==> conn.snapshot_established)
                &&& route is MailWait <==> request is MailWait
                &&& route is Subscribe <==> request is SubscribePane
            }
            &&& route is SnapshotRequired <==> !stale && sound && request is Events
                && !conn.snapshot_established && (claimed is Some ==> claimed
                == conn.connection_client)
            &&& route is Respond ==> route->Respond_0.request_id == id && route->Respond_0.body
                is Err && route->Respond_0.version == 1
            &&& !stale && sound && request is RegisterClient && conn.connection_client is Some
                ==> route is Respond
            &&& !stale && sound && claimed is Some && claimed != conn.connection_client
                && !(request is RegisterClient) ==> route is Respond
                && route->Respond_0.body->Err_0.code == ControlErrorCode::StaleId
        }),
{
}

/// A connection remembers its client and whether its reader is up to date, and says
/// goodbye for the client that it had.
pub proof fn a_connection_remembers_its_client(
    conn: ClientConnState,
    request: ControlRequest,
    body: Result<DataView, ErrorView>,
)
    ensures
        ({
            let after = conn.after_response(request, body);
            &&& after.last_request_id == conn.last_request_id
            &&& after.connection_client == match body {
                Ok(DataView::ClientRegistered { client_id }) => if request is RegisterClient {
                    Some(client_id)
                } else {
                    conn.connection_client
                },
                _ => conn.connection_client,
            }
            &&& body is Ok ==> (after.snapshot_established <==> conn.snapshot_established || (request
                is Snapshot && body->Ok_0 is Snapshot))
            &&& body is Err ==> (after.snapshot_established <==> conn.snapshot_established
                && !body->Err_0.resnapshot_required)
        }),
        ({
            let goodbye = conn.spec_farewell();
            &&& goodbye is Some <==> conn.connection_client is Some
            &&& goodbye matches Some(last) ==> {
                &&& last matches ControlRequest::DisconnectClient { version, request_id, client_id }
                &&& version == 1
                &&& Some(client_id) == conn.connection_client
                &&& conn.last_request_id < u64::MAX ==> request_id == conn.last_request_id + 1
            }
        }),
{
}

} // verus!
