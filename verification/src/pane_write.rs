//! Intentional text for one pane: how it is cut into chunks, and how far the
//! chunks got.
use vstd::prelude::*;
use vstd::string::*;
use vstd::utf8::*;

use crate::error::{plain_error, ControlError, ControlErrorCode, ErrorView, LiveWriteError};
use crate::model::{group_seq_views, seq_views};
use crate::text::{
    byte_count, byte_len, chars_of, control_char, is_control_char, text_bytes,
};
use crate::wire::{clone_bytes, InjectAgent, PaneWriteSubmit, MAX_SPAWN_BYTES};
use crate::writes::ChunkReport;

verus! {

broadcast use group_seq_views;

/// A pane that took raw input within this time is being typed into.
pub const INPUT_IDLE_MS: u64 = 750;

/// A control character that text may not hold.
pub open spec fn bad_text_char(c: char) -> bool {
    is_control_char(c) && c != '\n' && c != '\t'
}

pub open spec fn text_fault(data: Seq<char>) -> Option<ErrorView> {
    if data.len() == 0 || byte_count(data) > MAX_SPAWN_BYTES - 32 || exists|i: int|
        0 <= i < data.len() && bad_text_char(#[trigger] data[i]) {
        Some(
            plain_error(
                ControlErrorCode::InvalidRequest,
                "text must contain 1..65504 UTF-8 bytes and no controls except tab and newline"@,
            ),
        )
    } else {
        None
    }
}

pub open spec fn no_agent_view() -> ErrorView {
    plain_error(
        ControlErrorCode::InvalidRequest,
        "no supported foreground agent; select submit enter or none explicitly"@,
    )
}

/// Starts a bracketed paste.
pub open spec fn paste_start() -> Seq<u8> {
    seq![0x1bu8, 0x5bu8, 0x32u8, 0x30u8, 0x30u8, 0x7eu8]
}

/// Ends a bracketed paste.
pub open spec fn paste_end() -> Seq<u8> {
    seq![0x1bu8, 0x5bu8, 0x32u8, 0x30u8, 0x31u8, 0x7eu8]
}

pub open spec fn carriage_return() -> Seq<u8> {
    seq![0x0du8]
}

/// The bytes that submit a composer: Codex inserts on the first return and
/// submits on a later one.
pub open spec fn submit_chunks(agent: InjectAgent, cursor_submit: Seq<u8>) -> Seq<Seq<u8>> {
    match agent {
        InjectAgent::Cursor => seq![cursor_submit],
        InjectAgent::Codex => seq![carriage_return(), carriage_return()],
        _ => seq![carriage_return()],
    }
}

/// The chunks that bring a text into a pane.
pub open spec fn write_chunks(
    data: Seq<char>,
    submit: PaneWriteSubmit,
    agent: InjectAgent,
    cursor_submit: Seq<u8>,
) -> Result<Seq<Seq<u8>>, ErrorView> {
    if text_fault(data) is Some {
        Err(text_fault(data)->0)
    } else {
        match submit {
            PaneWriteSubmit::NoSubmit => Ok(seq![encode_utf8(data)]),
            PaneWriteSubmit::Enter => Ok(seq![encode_utf8(data) + carriage_return()]),
            PaneWriteSubmit::Auto => if agent == InjectAgent::Unknown {
                Err(no_agent_view())
            } else {
                Ok(
                    seq![paste_start() + encode_utf8(data) + paste_end()] + submit_chunks(
                        agent,
                        cursor_submit,
                    ),
                )
            },
        }
    }
}

fn has_bad_char(data: &str) -> (r: bool)
    ensures
        r == exists|i: int| 0 <= i < data@.len() && bad_text_char(#[trigger] data@[i]),
{
    let v: Vec<char> = chars_of(data);
    let mut i: usize = 0;
    while i < v.len()
        invariant
            v@ == data@,
            i <= v@.len(),
            forall|k: int| 0 <= k < i ==> !bad_text_char(#[trigger] data@[k]),
        decreases v@.len() - i,
    {
        let c: char = v[i];
        if control_char(c) && c != '\n' && c != '\t' {
            assert(bad_text_char(data@[i as int]));
            return true;
        }
        i = i + 1;
    }
    false
}

/// Chunks taken by view.
pub open spec fn chunks_result(r: Result<Vec<Vec<u8>>, ControlError>) -> Result<
    Seq<Seq<u8>>,
    ErrorView,
> {
    match r {
        Ok(v) => Ok(seq_views(v@)),
        Err(e) => Err(e@),
    }
}

fn one_return() -> (v: Vec<u8>)
    ensures
        v@ == carriage_return(),
{
    let mut v: Vec<u8> = Vec::new();
    v.push(0x0d);
    assert(v@ =~= carriage_return());
    v
}

/// Cuts a text into chunks: the body as one paste, then the submit bytes of the
/// agent, or with the submit that was asked for.
pub fn pane_write_chunks(
    data: &str,
    submit: PaneWriteSubmit,
    agent: InjectAgent,
    cursor_submit: &Vec<u8>,
) -> (r: Result<Vec<Vec<u8>>, ControlError>)
    ensures
        chunks_result(r) == write_chunks(data@, submit, agent, cursor_submit@),
{
    proof {
        if data@.len() == 0 {
            assert(encode_utf8(data@).len() == 0);
        } else {
            crate::wire::lemma_nonempty_bytes(data@);
        }
    }
    if byte_len(data) == 0 || byte_len(data) > MAX_SPAWN_BYTES - 32 || has_bad_char(data) {
        return Err(
            ControlError::new(
                ControlErrorCode::InvalidRequest,
                "text must contain 1..65504 UTF-8 bytes and no controls except tab and newline",
            ),
        );
    }
    let mut chunks: Vec<Vec<u8>> = Vec::new();
    match submit {
        PaneWriteSubmit::NoSubmit => {
            chunks.push(text_bytes(data));
            assert(seq_views(chunks@) =~= seq![encode_utf8(data@)]);
            Ok(chunks)
        },
        PaneWriteSubmit::Enter => {
            let mut line: Vec<u8> = text_bytes(data);
            line.push(0x0d);
            assert(line@ =~= encode_utf8(data@) + carriage_return());
            chunks.push(line);
            assert(seq_views(chunks@) =~= seq![encode_utf8(data@) + carriage_return()]);
            Ok(chunks)
        },
        PaneWriteSubmit::Auto => {
            if agent == InjectAgent::Unknown {
                return Err(
                    ControlError::new(
                        ControlErrorCode::InvalidRequest,
                        "no supported foreground agent; select submit enter or none explicitly",
                    ),
                );
            }
            let mut body: Vec<u8> = Vec::new();
            body.push(0x1b);
            body.push(0x5b);
            body.push(0x32);
            body.push(0x30);
            body.push(0x30);
            body.push(0x7e);
            assert(body@ =~= paste_start());
            let mut text: Vec<u8> = text_bytes(data);
            body.append(&mut text);
            body.push(0x1b);
            body.push(0x5b);
            body.push(0x32);
            body.push(0x30);
            body.push(0x31);
            body.push(0x7e);
            assert(body@ =~= paste_start() + encode_utf8(data@) + paste_end());
            chunks.push(body);
            match agent {
                InjectAgent::Cursor => {
                    chunks.push(clone_bytes(cursor_submit.as_slice()));
                },
                InjectAgent::Codex => {
                    chunks.push(one_return());
                    chunks.push(one_return());
                },
                _ => {
                    chunks.push(one_return());
                },
            }
            assert(seq_views(chunks@) =~= seq![paste_start() + encode_utf8(data@) + paste_end()]
                + submit_chunks(agent, cursor_submit@));
            Ok(chunks)
        },
    }
}

/// Text that is let through holds no escape and no return, so it can neither
/// leave its paste nor submit by itself.
pub proof fn accepted_text_stays_inside_its_paste(
    data: Seq<char>,
    submit: PaneWriteSubmit,
    agent: InjectAgent,
    cursor_submit: Seq<u8>,
)
    requires
        write_chunks(data, submit, agent, cursor_submit) is Ok,
    ensures
        !data.contains('\u{1b}'),
        !data.contains('\r'),
        submit == PaneWriteSubmit::Auto ==> write_chunks(
            data,
            submit,
            agent,
            cursor_submit,
        )->Ok_0[0] == paste_start() + encode_utf8(data) + paste_end(),
{
    assert forall|c: char| data.contains(c) implies !bad_text_char(c) by {
        let i = choose|i: int| 0 <= i < data.len() && data[i] == c;
        assert(!bad_text_char(data[i]));
    }
    assert(bad_text_char('\u{1b}'));
    assert(bad_text_char('\r'));
}

pub open spec fn pane_write_view(error: LiveWriteError) -> ErrorView {
    match error {
        LiveWriteError::Backpressure => plain_error(
            ControlErrorCode::Backpressure,
            "pane input queue is full"@,
        ),
        _ => plain_error(
            ControlErrorCode::InputRouteUnavailable,
            "pane input route is unavailable"@,
        ),
    }
}

pub fn pane_write_error(error: LiveWriteError) -> (e: ControlError)
    ensures
        e@ == pane_write_view(error),
{
    match error {
        LiveWriteError::Backpressure => ControlError::new(
            ControlErrorCode::Backpressure,
            "pane input queue is full",
        ),
        _ => ControlError::new(
            ControlErrorCode::InputRouteUnavailable,
            "pane input route is unavailable",
        ),
    }
}

/// Bytes of the first `n` chunks.
pub open spec fn chunk_bytes(chunks: Seq<Seq<u8>>, n: int) -> nat
    decreases n,
{
    if n <= 0 {
        0
    } else {
        chunk_bytes(chunks, n - 1) + chunks[n - 1].len()
    }
}

/// A count, or the largest one that can be written down.
pub open spec fn counted(n: nat) -> usize {
    if n <= usize::MAX {
        n as usize
    } else {
        usize::MAX
    }
}

pub fn count_chunks(chunks: &Vec<Vec<u8>>, n: usize) -> (r: usize)
    requires
        n <= chunks@.len(),
    ensures
        r == counted(chunk_bytes(seq_views(chunks@), n as int)),
{
    let mut total: usize = 0;
    let mut i: usize = 0;
    while i < n
        invariant
            i <= n <= chunks@.len(),
            total == counted(chunk_bytes(seq_views(chunks@), i as int)),
        decreases n - i,
    {
        assert(seq_views(chunks@)[i as int] == chunks@[i as int]@);
        total = total.saturating_add(chunks[i].len());
        i = i + 1;
    }
    total
}

/// Queues chunks one by one: each once, up to the first refusal.
#[derive(Debug, PartialEq)]
pub struct ChunkQueue {
    pub chunks: Vec<Vec<u8>>,
    /// Chunks that were accepted.
    pub accepted: usize,
    /// The refusal that ended the queue.
    pub failed: Option<LiveWriteError>,
}

impl ChunkQueue {
    pub open spec fn wf(self) -> bool {
        self.accepted <= self.chunks@.len()
    }

    /// What has been queued and why it stopped.
    pub open spec fn outcome(self) -> (usize, Option<ErrorView>) {
        (
            counted(chunk_bytes(seq_views(self.chunks@), self.accepted as int)),
            match self.failed {
                Some(error) => Some(pane_write_view(error)),
                None => None,
            },
        )
    }

    pub fn new(chunks: Vec<Vec<u8>>) -> (q: Self)
        ensures
            q.wf(),
            q.chunks == chunks,
            q.accepted == 0,
            q.failed is None,
    {
        ChunkQueue { chunks, accepted: 0, failed: None }
    }

    /// The chunk to queue next. None is due after a refusal, nor at the end.
    pub fn next_chunk(&self) -> (r: Option<Vec<u8>>)
        requires
            self.wf(),
        ensures
            match r {
                Some(chunk) => self.failed is None && self.accepted < self.chunks@.len() && chunk@
                    == self.chunks@[self.accepted as int]@,
                None => self.failed is Some || self.accepted == self.chunks@.len(),
            },
    {
        if self.failed.is_some() || self.accepted >= self.chunks.len() {
            return None;
        }
        Some(clone_bytes(self.chunks[self.accepted].as_slice()))
    }

    /// Takes the answer to the chunk that was due.
    pub fn record(&mut self, result: Result<(), LiveWriteError>)
        requires
            old(self).wf(),
            old(self).failed is None,
            old(self).accepted < old(self).chunks@.len(),
        ensures
            final(self).wf(),
            final(self).chunks == old(self).chunks,
            match result {
                Ok(()) => final(self).accepted == old(self).accepted + 1 && final(self).failed
                    is None,
                Err(error) => final(self).accepted == old(self).accepted && final(self).failed
                    == Some(error),
            },
    {
        match result {
            Ok(()) => {
                if self.accepted < self.chunks.len() {
                    self.accepted = self.accepted + 1;
                }
            },
            Err(error) => {
                self.failed = Some(error);
            },
        }
    }

    /// What the queue came to, as it is told to the plane.
    pub open spec fn told(self) -> ChunkReport {
        ChunkReport { accepted: self.accepted, failed: self.failed }
    }

    pub fn report(&self) -> (r: ChunkReport)
        ensures
            r == self.told(),
    {
        ChunkReport { accepted: self.accepted, failed: self.failed }
    }

    /// Bytes that were queued, and the error that stopped the rest.
    pub fn finish(&self) -> (r: (usize, Option<ControlError>))
        requires
            self.wf(),
        ensures
            r.0 == self.outcome().0,
            crate::model::option_view(r.1) == self.outcome().1,
    {
        let nbytes: usize = count_chunks(&self.chunks, self.accepted);
        match self.failed {
            Some(error) => (nbytes, Some(pane_write_error(error))),
            None => (nbytes, None),
        }
    }
}

} // verus!
