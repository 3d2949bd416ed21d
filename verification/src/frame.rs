//! Frames on a stream: one bounded line in, one bounded line out.
use vstd::prelude::*;
use vstd::string::*;

use crate::error::{ControlError, ControlErrorCode};
use crate::response::ControlResponse;

verus! {

/// A request, with its line end, is at most this long.
pub const MAX_REQUEST_BYTES: usize = 1_048_576;

/// A response, without its line end, is at most this long.
pub const MAX_RESPONSE_BYTES: usize = 4_194_304;

/// A client that accepts no byte for this long is given up.
pub const RESPONSE_STALL_LIMIT_MS: u64 = 3_000;

/// How a read or a write failed, as far as that matters.
#[derive(Debug, Clone, Copy, PartialEq, Eq, Structural)]
pub enum IoFault {
    TimedOut,
    WouldBlock,
    Interrupted,
    Other,
}

impl IoFault {
    /// A quiet client is still a client: its stream is looked at again. Other faults
    /// end the connection.
    pub fn keeps_client(self) -> (r: bool)
        ensures
            r == (self != IoFault::Other),
    {
        match self {
            IoFault::Other => false,
            _ => true,
        }
    }
}

/// What one look at the stream gave: the bytes that are there, none at its end.
#[derive(Debug)]
pub enum ReadEvent {
    Available(Vec<u8>),
    Failed(IoFault),
}

/// What becomes of the frame.
#[derive(Debug, Clone, Copy, PartialEq, Eq, Structural)]
pub enum FrameStep {
    /// Consume so many bytes and read on.
    More(usize),
    /// Consume so many bytes; the frame is complete.
    Ready(usize),
    /// The stream ended between frames.
    Closed,
    /// The read was cut short within a frame: read again, keep what is there.
    Retry,
    /// Nothing of the frame is there and the read failed.
    Failed(IoFault),
    /// The frame is too long.
    TooLarge,
}

/// The place of the first line end, or the length.
pub open spec fn line_end(bytes: Seq<u8>) -> int
    decreases bytes.len(),
{
    if bytes.len() == 0 || bytes[0] == 10 {
        0
    } else {
        1 + line_end(bytes.drop_first())
    }
}

pub open spec fn has_line_end(bytes: Seq<u8>) -> bool {
    line_end(bytes) < bytes.len()
}

/// A frame without the line ends at its end.
pub open spec fn without_line_ends(bytes: Seq<u8>) -> Seq<u8>
    decreases bytes.len(),
{
    if bytes.len() > 0 && (bytes.last() == 10 || bytes.last() == 13) {
        without_line_ends(bytes.drop_last())
    } else {
        bytes
    }
}

/// How many of the available bytes belong to the frame.
pub open spec fn taken(bytes: Seq<u8>) -> int {
    if has_line_end(bytes) {
        line_end(bytes) + 1
    } else {
        bytes.len() as int
    }
}

/// The frame after a look at the stream, and what is next.
pub open spec fn read_step(frame: Seq<u8>, available: Seq<u8>) -> (Seq<u8>, FrameStep) {
    let take = taken(available);
    let longer = frame + available.take(take);
    if available.len() == 0 {
        (
            frame,
            if frame.len() > 0 {
                FrameStep::Ready(0)
            } else {
                FrameStep::Closed
            },
        )
    } else if frame.len() + take > MAX_REQUEST_BYTES {
        (frame, FrameStep::TooLarge)
    } else if has_line_end(available) {
        (without_line_ends(longer), FrameStep::Ready(take as usize))
    } else {
        (longer, FrameStep::More(take as usize))
    }
}

/// A read that was cut short within a frame is tried again.
pub open spec fn read_fault(frame: Seq<u8>, fault: IoFault) -> FrameStep {
    if fault != IoFault::Other && frame.len() > 0 {
        FrameStep::Retry
    } else {
        FrameStep::Failed(fault)
    }
}

proof fn lemma_line_end(bytes: Seq<u8>)
    ensures
        0 <= line_end(bytes) <= bytes.len(),
        has_line_end(bytes) ==> bytes[line_end(bytes)] == 10,
        forall|i: int| 0 <= i < line_end(bytes) ==> bytes[i] != 10,
    decreases bytes.len(),
{
    if bytes.len() > 0 && bytes[0] != 10 {
        let rest = bytes.drop_first();
        lemma_line_end(rest);
        assert forall|i: int| 0 <= i < line_end(bytes) implies bytes[i] != 10 by {
            if i > 0 {
                assert(rest[i - 1] == bytes[i]);
            }
        }
        if has_line_end(bytes) {
            assert(rest[line_end(rest)] == bytes[line_end(bytes)]);
        }
    }
}

proof fn lemma_line_end_is(bytes: Seq<u8>, n: int)
    requires
        0 <= n <= bytes.len(),
        n < bytes.len() ==> bytes[n] == 10,
        forall|i: int| 0 <= i < n ==> bytes[i] != 10,
    ensures
        line_end(bytes) == n,
    decreases bytes.len(),
{
    lemma_line_end(bytes);
    if line_end(bytes) < n {
        assert(bytes[line_end(bytes)] == 10);
    }
    if line_end(bytes) > n {
        assert(bytes[n] != 10);
    }
}

fn find_line_end(bytes: &Vec<u8>) -> (n: usize)
    ensures
        n == line_end(bytes@),
        n <= bytes@.len(),
{
    let mut n: usize = 0;
    while n < bytes.len()
        invariant
            n <= bytes@.len(),
            forall|i: int| 0 <= i < n ==> bytes@[i] != 10,
        decreases bytes@.len() - n,
    {
        if bytes[n] == 10 {
            proof {
                lemma_line_end_is(bytes@, n as int);
            }
            return n;
        }
        n = n + 1;
    }
    proof {
        lemma_line_end_is(bytes@, n as int);
    }
    n
}

/// Assembles a request line. The frame starts empty and is kept between the
/// looks at the stream.
pub fn read_frame(frame: &mut Vec<u8>, event: &ReadEvent) -> (step: FrameStep)
    requires
        old(frame)@.len() <= MAX_REQUEST_BYTES,
    ensures
        match *event {
            ReadEvent::Available(bytes) => (final(frame)@, step) == read_step(old(frame)@, bytes@),
            ReadEvent::Failed(fault) => final(frame)@ == old(frame)@ && step == read_fault(
                old(frame)@,
                fault,
            ),
        },
        final(frame)@.len() <= MAX_REQUEST_BYTES,
{
    match event {
        ReadEvent::Failed(fault) => if *fault != IoFault::Other && frame.len() > 0 {
            FrameStep::Retry
        } else {
            FrameStep::Failed(*fault)
        },
        ReadEvent::Available(bytes) => {
            if bytes.len() == 0 {
                return if frame.len() > 0 {
                    FrameStep::Ready(0)
                } else {
                    FrameStep::Closed
                };
            }
            let end: usize = find_line_end(bytes);
            let complete: bool = end < bytes.len();
            let take: usize = if complete {
                end + 1
            } else {
                bytes.len()
            };
            if take > MAX_REQUEST_BYTES || frame.len() > MAX_REQUEST_BYTES - take {
                return FrameStep::TooLarge;
            }
            let ghost head = frame@;
            let mut i: usize = 0;
            while i < take
                invariant
                    i <= take <= bytes@.len(),
                    frame@ == head + bytes@.take(i as int),
                decreases take - i,
            {
                frame.push(bytes[i]);
                i = i + 1;
                assert(frame@ =~= head + bytes@.take(i as int));
            }
            if !complete {
                return FrameStep::More(take);
            }
            strip_line_ends(frame);
            FrameStep::Ready(take)
        },
    }
}

fn strip_line_ends(frame: &mut Vec<u8>)
    ensures
        final(frame)@ == without_line_ends(old(frame)@),
        final(frame)@.len() <= old(frame)@.len(),
{
    let ghost whole = frame@;
    while frame.len() > 0 && (frame[frame.len() - 1] == 10 || frame[frame.len() - 1] == 13)
        invariant
            without_line_ends(whole) == without_line_ends(frame@),
            frame@.len() <= whole.len(),
        decreases frame@.len(),
    {
        let ghost longer = frame@;
        let _ = frame.pop();
        assert(frame@ =~= longer.drop_last());
    }
}

/// A request that arrives in two pieces gives the frame that it gives in one.
pub proof fn pieces_make_the_same_frame(frame: Seq<u8>, first: Seq<u8>, second: Seq<u8>)
    requires
        first.len() > 0,
        second.len() > 0,
        !has_line_end(first),
        frame.len() + first.len() + second.len() <= MAX_REQUEST_BYTES,
    ensures
        read_step(frame, first) == (frame + first, FrameStep::More(first.len() as usize)),
        read_step(frame + first, second).0 == read_step(frame, first + second).0,
        read_step(frame + first, second).1 is Ready <==> read_step(frame, first + second).1 is Ready,
        read_step(frame + first, second).1 is Ready || read_step(frame + first, second).1 is More,
{
    let whole = first + second;
    lemma_line_end(first);
    lemma_line_end(second);
    lemma_line_end(whole);
    assert(line_end(first) == first.len());
    let n = first.len() + line_end(second);
    assert forall|i: int| 0 <= i < n implies whole[i] != 10 by {
        if i < first.len() {
            assert(whole[i] == first[i]);
        } else {
            assert(whole[i] == second[i - first.len()]);
        }
    }
    if has_line_end(second) {
        assert(whole[n] == second[line_end(second)]);
    }
    lemma_line_end_is(whole, n);
    assert(first.take(taken(first)) =~= first);
    assert((frame + first) + second.take(taken(second)) =~= frame + whole.take(taken(whole)));
}

/// A read of the stream that takes part in a frame: a piece of it, or a fault after
/// which the stream is looked at again.
pub enum Look {
    Piece(Seq<u8>),
    Pause(IoFault),
}

/// The frame after a look at the stream, and what is next.
pub open spec fn look_step(frame: Seq<u8>, look: Look) -> (Seq<u8>, FrameStep) {
    match look {
        Look::Piece(bytes) => read_step(frame, bytes),
        Look::Pause(fault) => (frame, read_fault(frame, fault)),
    }
}

/// The bytes that some looks at the stream gave, in order.
pub open spec fn seen(looks: Seq<Look>) -> Seq<u8>
    decreases looks.len(),
{
    if looks.len() == 0 {
        Seq::empty()
    } else {
        match looks.last() {
            Look::Piece(bytes) => seen(looks.drop_last()) + bytes,
            Look::Pause(_) => seen(looks.drop_last()),
        }
    }
}

/// The frame that some looks at the stream make, one after the other.
pub open spec fn assembled(frame: Seq<u8>, looks: Seq<Look>) -> Seq<u8>
    decreases looks.len(),
{
    if looks.len() == 0 {
        frame
    } else {
        look_step(assembled(frame, looks.drop_last()), looks.last()).0
    }
}

/// Looks that find no line end: each gives some bytes, or is cut short and leaves the
/// client where it is.
pub open spec fn within_a_line(looks: Seq<Look>) -> bool {
    forall|i: int|
        0 <= i < looks.len() ==> match #[trigger] looks[i] {
            Look::Piece(bytes) => bytes.len() > 0 && !has_line_end(bytes),
            Look::Pause(fault) => fault != IoFault::Other,
        }
}

proof fn lemma_seen_prefix(looks: Seq<Look>, n: int)
    requires
        0 <= n <= looks.len(),
    ensures
        seen(looks.take(n)).len() <= seen(looks).len(),
    decreases looks.len() - n,
{
    if n < looks.len() {
        assert(looks.take(n + 1).drop_last() =~= looks.take(n));
        lemma_seen_prefix(looks, n + 1);
    } else {
        assert(looks.take(n) =~= looks);
    }
}

proof fn lemma_assembled(frame: Seq<u8>, looks: Seq<Look>)
    requires
        within_a_line(looks),
        frame.len() + seen(looks).len() <= MAX_REQUEST_BYTES,
    ensures
        assembled(frame, looks) == frame + seen(looks),
        !has_line_end(seen(looks)),
    decreases looks.len(),
{
    if looks.len() == 0 {
        assert(frame + seen(looks) =~= frame);
    } else {
        let head = looks.drop_last();
        assert(looks[looks.len() - 1] == looks.last());
        assert forall|i: int| 0 <= i < head.len() implies #[trigger] head[i] == looks[i] by {}
        lemma_seen_prefix(looks, looks.len() - 1);
        assert(looks.take(looks.len() - 1) =~= head);
        lemma_assembled(frame, head);
        match looks.last() {
            Look::Piece(bytes) => {
                let (a, b) = (seen(head), bytes);
                lemma_line_end(a);
                lemma_line_end(b);
                assert(b.take(taken(b)) =~= b);
                assert((frame + a) + b =~= frame + (a + b));
                assert forall|i: int| 0 <= i < (a + b).len() implies (a + b)[i] != 10 by {
                    if i < a.len() {
                        assert((a + b)[i] == a[i]);
                    } else {
                        assert((a + b)[i] == b[i - a.len()]);
                    }
                }
                lemma_line_end_is(a + b, (a + b).len() as int);
            },
            Look::Pause(_) => {},
        }
    }
}

/// A request gives one frame, in however many pieces it comes and however often the
/// read is cut short between them: every look before the one that finds the line end
/// asks for more, and the frame is then the whole line without its line ends.
pub proof fn a_line_makes_one_frame(frame: Seq<u8>, looks: Seq<Look>, last: Seq<u8>)
    requires
        within_a_line(looks),
        has_line_end(last),
        frame.len() + seen(looks).len() + taken(last) <= MAX_REQUEST_BYTES,
    ensures
        forall|i: int|
            0 <= i < looks.len() ==> ({
                let step = look_step(assembled(frame, looks.take(i)), #[trigger] looks[i]).1;
                match looks[i] {
                    Look::Piece(bytes) => step == FrameStep::More(bytes.len() as usize),
                    Look::Pause(fault) => step == if frame.len() + seen(looks.take(i)).len() > 0 {
                        FrameStep::Retry
                    } else {
                        FrameStep::Failed(fault)
                    },
                }
            }),
        look_step(assembled(frame, looks), Look::Piece(last)) == (
            without_line_ends(frame + seen(looks) + last.take(taken(last))),
            FrameStep::Ready(taken(last) as usize),
        ),
{
    lemma_line_end(last);
    lemma_assembled(frame, looks);
    assert forall|i: int| 0 <= i < looks.len() implies ({
        let step = look_step(assembled(frame, looks.take(i)), #[trigger] looks[i]).1;
        match looks[i] {
            Look::Piece(bytes) => step == FrameStep::More(bytes.len() as usize),
            Look::Pause(fault) => step == if frame.len() + seen(looks.take(i)).len() > 0 {
                FrameStep::Retry
            } else {
                FrameStep::Failed(fault)
            },
        }
    }) by {
        let head = looks.take(i);
        assert forall|j: int| 0 <= j < head.len() implies #[trigger] head[j] == looks[j] by {}
        assert(looks.take(i + 1).drop_last() =~= head);
        assert(looks.take(i + 1).last() == looks[i]);
        lemma_seen_prefix(looks, i);
        lemma_seen_prefix(looks, i + 1);
        lemma_assembled(frame, head);
        if let Look::Piece(bytes) = looks[i] {
            lemma_line_end(bytes);
        }
    }
}

/// A frame never outgrows its bound.
pub proof fn frames_are_bounded(frame: Seq<u8>, available: Seq<u8>)
    requires
        frame.len() <= MAX_REQUEST_BYTES,
    ensures
        read_step(frame, available).0.len() <= MAX_REQUEST_BYTES,
{
    lemma_line_end(available);
    lemma_stripped_len(frame + available.take(taken(available)));
}

proof fn lemma_stripped_len(bytes: Seq<u8>)
    ensures
        without_line_ends(bytes).len() <= bytes.len(),
    decreases bytes.len(),
{
    if bytes.len() > 0 {
        lemma_stripped_len(bytes.drop_last());
    }
}

/// Whether a response of this many bytes may go out as it is.
pub fn response_fits(bytes: usize) -> (r: bool)
    ensures
        r == (bytes <= MAX_RESPONSE_BYTES),
{
    bytes <= MAX_RESPONSE_BYTES
}

/// What goes out in place of a response that is too long.
pub fn oversized_response(request_id: u64) -> (r: ControlResponse)
    ensures
        r@ == (crate::response::ResponseView {
            version: crate::wire::PROTOCOL_VERSION,
            request_id,
            body: Err(
                crate::error::plain_error(
                    ControlErrorCode::Internal,
                    "control response exceeds bounded wire size"@,
                ),
            ),
        }),
{
    ControlResponse::error(
        request_id,
        ControlError::new(
            ControlErrorCode::Internal,
            "control response exceeds bounded wire size",
        ),
    )
}

/// What one write to the stream did.
#[derive(Debug, Clone, Copy, PartialEq, Eq, Structural)]
pub enum WriteEvent {
    /// So many bytes were accepted.
    Accepted(usize),
    /// The write failed; no byte was accepted for so many milliseconds.
    Failed { fault: IoFault, idle_ms: u64 },
}

/// Why a response was given up.
#[derive(Debug, Clone, Copy, PartialEq, Eq, Structural)]
pub enum WriteFault {
    ShuttingDown,
    WriteZero,
    Stalled,
    Failed,
}

impl WriteFault {
    pub open spec fn spec_message(self) -> Option<Seq<char>> {
        match self {
            WriteFault::ShuttingDown => Some(
                "server shutting down before the response was fully written"@,
            ),
            WriteFault::WriteZero => Some("failed to write the whole response"@),
            WriteFault::Stalled => Some("client stopped draining the response"@),
            WriteFault::Failed => None,
        }
    }

    /// What to say of it. A failed write speaks for itself.
    pub fn message(&self) -> (s: Option<String>)
        ensures
            crate::event::option_text(s) == self.spec_message(),
    {
        match self {
            WriteFault::ShuttingDown => Some(
                String::from_str("server shutting down before the response was fully written"),
            ),
            WriteFault::WriteZero => Some(String::from_str("failed to write the whole response")),
            WriteFault::Stalled => Some(String::from_str("client stopped draining the response")),
            WriteFault::Failed => None,
        }
    }
}

/// What is next for a response on its way out.
#[derive(Debug, Clone, Copy, PartialEq, Eq, Structural)]
pub enum WriteStep {
    /// Write on from here.
    From(usize),
    Done,
    GiveUp(WriteFault),
}

/// Before each write: nothing is left, the server goes down, or write on.
pub open spec fn before_write(len: nat, written: nat, stopping: bool) -> WriteStep {
    if written >= len {
        WriteStep::Done
    } else if stopping {
        WriteStep::GiveUp(WriteFault::ShuttingDown)
    } else {
        WriteStep::From(written as usize)
    }
}

/// After a write: progress counts, a slow client is waited for, a stalled one is
/// given up.
pub open spec fn after_write(written: nat, event: WriteEvent) -> WriteStep {
    match event {
        WriteEvent::Accepted(count) => if count == 0 {
            WriteStep::GiveUp(WriteFault::WriteZero)
        } else {
            WriteStep::From((written + count) as usize)
        },
        WriteEvent::Failed { fault, idle_ms } => match fault {
            IoFault::TimedOut | IoFault::WouldBlock => if idle_ms >= RESPONSE_STALL_LIMIT_MS {
                WriteStep::GiveUp(WriteFault::Stalled)
            } else {
                WriteStep::From(written as usize)
            },
            IoFault::Interrupted => WriteStep::From(written as usize),
            IoFault::Other => WriteStep::GiveUp(WriteFault::Failed),
        },
    }
}

pub fn write_ready(len: usize, written: usize, stopping: bool) -> (step: WriteStep)
    ensures
        step == before_write(len as nat, written as nat, stopping),
{
    if written >= len {
        WriteStep::Done
    } else if stopping {
        WriteStep::GiveUp(WriteFault::ShuttingDown)
    } else {
        WriteStep::From(written)
    }
}

/// Where a response of `len` bytes stands after a write that started at
/// `written`.
pub fn write_all_timeout_aware(len: usize, written: usize, event: WriteEvent) -> (step: WriteStep)
    requires
        written <= len,
        event matches WriteEvent::Accepted(count) ==> written + count <= len,
    ensures
        step == after_write(written as nat, event),
        step matches WriteStep::From(next) ==> written <= next <= len,
{
    match event {
        WriteEvent::Accepted(count) => if count == 0 {
            WriteStep::GiveUp(WriteFault::WriteZero)
        } else {
            WriteStep::From(written + count)
        },
        WriteEvent::Failed { fault, idle_ms } => match fault {
            IoFault::TimedOut | IoFault::WouldBlock => if idle_ms >= RESPONSE_STALL_LIMIT_MS {
                WriteStep::GiveUp(WriteFault::Stalled)
            } else {
                WriteStep::From(written)
            },
            IoFault::Interrupted => WriteStep::From(written),
            IoFault::Other => WriteStep::GiveUp(WriteFault::Failed),
        },
    }
}

/// What has become of a response after some writes: how much of it was accepted, and
/// what is next. Once it is done or given up, no more is written.
pub open spec fn sent(len: nat, writes: Seq<(bool, WriteEvent)>) -> (nat, WriteStep)
    decreases writes.len(),
{
    if writes.len() == 0 {
        (0, WriteStep::From(0))
    } else {
        let (written, step) = sent(len, writes.drop_last());
        let (stopping, event) = writes.last();
        match step {
            WriteStep::From(_) => match before_write(len, written, stopping) {
                WriteStep::From(_) => match after_write(written, event) {
                    WriteStep::From(next) => (next as nat, WriteStep::From(next)),
                    end => (written, end),
                },
                end => (written, end),
            },
            _ => (written, step),
        }
    }
}

/// The bytes that a stream took in some writes of a response, in order. Each write
/// offers what is left of the response; what it accepts is the front of that.
pub open spec fn delivered(response: Seq<u8>, writes: Seq<(bool, WriteEvent)>) -> Seq<u8>
    decreases writes.len(),
{
    if writes.len() == 0 {
        Seq::empty()
    } else {
        let before = delivered(response, writes.drop_last());
        let (written, step) = sent(response.len(), writes.drop_last());
        let (stopping, event) = writes.last();
        if step is From && before_write(response.len(), written, stopping) is From {
            match event {
                WriteEvent::Accepted(count) => before + response.skip(written as int).take(
                    count as int,
                ),
                WriteEvent::Failed { .. } => before,
            }
        } else {
            before
        }
    }
}

/// A stream accepts no more than it was offered.
pub open spec fn honest(len: nat, writes: Seq<(bool, WriteEvent)>) -> bool {
    forall|i: int|
        0 <= i < writes.len() ==> ((#[trigger] writes[i]).1 matches WriteEvent::Accepted(count)
            ==> sent(len, writes.take(i)).0 + count <= len)
}

/// Whatever the writes do, each byte of a response is delivered at most once and in
/// order. It is done exactly when every byte was accepted, and given up with a proper
/// part of it delivered.
pub proof fn a_response_goes_out_whole_or_is_given_up(
    response: Seq<u8>,
    writes: Seq<(bool, WriteEvent)>,
)
    requires
        response.len() <= usize::MAX,
        honest(response.len(), writes),
    ensures
        ({
            let (written, step) = sent(response.len(), writes);
            &&& written <= response.len()
            &&& delivered(response, writes) == response.take(written as int)
            &&& match step {
                WriteStep::From(next) => next == written,
                WriteStep::Done => written == response.len(),
                WriteStep::GiveUp(_) => written < response.len(),
            }
            &&& step is From && written == response.len() ==> before_write(
                response.len(),
                written,
                true,
            ) == WriteStep::Done
        }),
    decreases writes.len(),
{
    if writes.len() == 0 {
        assert(response.take(0) =~= Seq::empty());
    } else {
        let head = writes.drop_last();
        assert forall|i: int| 0 <= i < head.len() implies ((#[trigger] head[i]).1 matches
            WriteEvent::Accepted(count) ==> sent(response.len(), head.take(i)).0 + count
            <= response.len()) by {
            assert(head[i] == writes[i]);
            assert(head.take(i) =~= writes.take(i));
        }
        a_response_goes_out_whole_or_is_given_up(response, head);
        assert(writes[writes.len() - 1] == writes.last());
        assert(writes.take(writes.len() - 1) =~= head);
        let written = sent(response.len(), head).0 as int;
        if let WriteEvent::Accepted(count) = writes.last().1 {
            assert(response.take(written) + response.skip(written).take(count as int)
                =~= response.take(written + count));
        }
        assert(response.take(written) + response.skip(written).take(0) =~= response.take(written));
    }
}

/// A client that keeps accepting bytes is never given up while the server runs,
/// however slow it is, and an accepted byte is never sent again.
pub proof fn slow_clients_are_kept(len: nat, written: nat, count: usize)
    requires
        written < len,
        0 < count,
        written + count <= len <= usize::MAX,
    ensures
        before_write(len, written, false) == WriteStep::From(written as usize),
        after_write(written, WriteEvent::Accepted(count)) == WriteStep::From(
            (written + count) as usize,
        ),
{
}

} // verus!
