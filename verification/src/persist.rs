//! When pane logs are checkpointed, one pane at a time.
use vstd::prelude::*;
use vstd::string::*;

use crate::idmap::{group_views, lists_ids, sorted_ids};
use crate::model::{group_seq_views, seq_views};
use crate::plane::ControlPlane;
use crate::text::same_text;
use crate::topology::DomainView;

verus! {

broadcast use {group_views, group_seq_views};

/// What a pane is found by after a restart: its session and its place there.
#[derive(Debug)]
pub struct PaneKey {
    pub pane_id: u64,
    pub session: String,
    pub index: usize,
}

#[verifier::ext_equal]
pub struct PaneKeyView {
    pub pane_id: u64,
    pub session: Seq<char>,
    pub index: int,
}

impl View for PaneKey {
    type V = PaneKeyView;

    open spec fn view(&self) -> PaneKeyView {
        PaneKeyView { pane_id: self.pane_id, session: self.session@, index: self.index as int }
    }
}

impl PaneKey {
    fn copy(&self) -> (r: Self)
        ensures
            r@ == self@,
    {
        PaneKey { pane_id: self.pane_id, session: self.session.clone(), index: self.index }
    }
}

fn copy_keys(keys: &Vec<PaneKey>) -> (r: Vec<PaneKey>)
    ensures
        seq_views(r@) == seq_views(keys@),
{
    let mut r: Vec<PaneKey> = Vec::new();
    let mut i: usize = 0;
    while i < keys.len()
        invariant
            i <= keys@.len(),
            r@.len() == i,
            forall|k: int| 0 <= k < i ==> (#[trigger] r@[k])@ == keys@[k]@,
        decreases keys@.len() - i,
    {
        r.push(keys[i].copy());
        i = i + 1;
    }
    assert(seq_views(r@) =~= seq_views(keys@));
    r
}

fn same_keys(a: &Vec<PaneKey>, b: &Vec<PaneKey>) -> (r: bool)
    ensures
        r == (seq_views(a@) == seq_views(b@)),
{
    if a.len() != b.len() {
        assert(seq_views(a@).len() != seq_views(b@).len());
        return false;
    }
    let mut i: usize = 0;
    while i < a.len()
        invariant
            i <= a@.len(),
            a@.len() == b@.len(),
            forall|k: int| 0 <= k < i ==> (#[trigger] a@[k])@ == b@[k]@,
        decreases a@.len() - i,
    {
        if a[i].pane_id != b[i].pane_id || a[i].index != b[i].index || !same_text(
            a[i].session.as_str(),
            b[i].session.as_str(),
        ) {
            assert(seq_views(a@)[i as int] != seq_views(b@)[i as int]);
            return false;
        }
        i = i + 1;
    }
    assert(seq_views(a@) =~= seq_views(b@));
    true
}

impl DomainView {
    /// The keys of the panes of a session, in order.
    pub open spec fn session_keys(self, session: u64) -> Seq<PaneKeyView> {
        let panes = self.session_panes(session);
        Seq::new(
            panes.len(),
            |i: int|
                PaneKeyView { pane_id: panes[i], session: self.sessions[session].name, index: i },
        )
    }

    pub open spec fn sessions_keys(self, sessions: Seq<u64>) -> Seq<PaneKeyView>
        decreases sessions.len(),
    {
        if sessions.len() == 0 {
            Seq::empty()
        } else {
            self.sessions_keys(sessions.drop_last()) + self.session_keys(sessions.last())
        }
    }

    /// The keys of every pane, oldest session first.
    pub open spec fn pane_keys(self) -> Seq<PaneKeyView> {
        self.sessions_keys(sorted_ids(self.sessions.dom()))
    }
}

impl ControlPlane {
    /// The keys of every pane, oldest session first.
    pub fn persist_keys(&self) -> (keys: Vec<PaneKey>)
        requires
            self@.wf(),
        ensures
            seq_views(keys@) == self@.domain.pane_keys(),
            lists_ids(sorted_ids(self@.domain.sessions.dom()), self@.domain.sessions.dom()),
    {
        let ids: Vec<u64> = self.domain.sessions.keys();
        let mut keys: Vec<PaneKey> = Vec::new();
        let mut i: usize = 0;
        assert(ids@.take(0) =~= Seq::empty());
        assert(seq_views(keys@) =~= Seq::empty());
        while i < ids.len()
            invariant
                i <= ids@.len(),
                self@.wf(),
                lists_ids(ids@, self.domain.sessions@.dom()),
                seq_views(keys@) == self@.domain.sessions_keys(ids@.take(i as int)),
            decreases ids@.len() - i,
        {
            let session: u64 = ids[i];
            proof {
                assert(ids@.contains(ids@[i as int]));
                assert(self.domain.sessions@.dom().contains(session));
                assert(self@.domain.sessions.contains_key(session));
                assert(ids@.take(i + 1).drop_last() =~= ids@.take(i as int));
            }
            let panes: Vec<u64> = self.domain.session_panes(session);
            if let Some(s) = self.domain.sessions.get(session) {
                let ghost head = keys@;
                let ghost name = self@.domain.sessions[session].name;
                let mut j: usize = 0;
                while j < panes.len()
                    invariant
                        j <= panes@.len(),
                        name == s.name@,
                        keys@.len() == head.len() + j,
                        forall|k: int| 0 <= k < head.len() ==> #[trigger] keys@[k] == head[k],
                        forall|k: int|
                            head.len() <= k < keys@.len() ==> (#[trigger] keys@[k])@ == (
                            PaneKeyView {
                                pane_id: panes@[k - head.len()],
                                session: name,
                                index: k - head.len(),
                            }),
                    decreases panes@.len() - j,
                {
                    keys.push(PaneKey { pane_id: panes[j], session: s.name.clone(), index: j });
                    j = j + 1;
                }
                assert(seq_views(keys@) =~= seq_views(head) + self@.domain.session_keys(session));
            }
            i = i + 1;
        }
        assert(ids@.take(i as int) =~= ids@);
        keys
    }
}

/// A checkpoint under way: the panes still to capture, all of them, and how far
/// the logs were when it started.
#[derive(Debug)]
pub struct CheckpointCapture {
    pub left: Vec<PaneKey>,
    pub keys: Vec<PaneKey>,
    pub mark: u64,
}

#[verifier::ext_equal]
pub struct CaptureView {
    pub left: Seq<PaneKeyView>,
    pub keys: Seq<PaneKeyView>,
    pub mark: u64,
}

impl View for CheckpointCapture {
    type V = CaptureView;

    open spec fn view(&self) -> CaptureView {
        CaptureView { left: seq_views(self.left@), keys: seq_views(self.keys@), mark: self.mark }
    }
}

/// How far the checkpoints of the pane logs are.
#[derive(Debug)]
pub struct PersistState {
    /// How far the logs were when the last good checkpoint was taken.
    pub mark: u64,
    /// The checkpoint that is being written.
    pub pending: Option<u64>,
    pub capture: Option<CheckpointCapture>,
}

#[verifier::ext_equal]
pub struct PersistView {
    pub mark: u64,
    pub pending: Option<u64>,
    pub capture: Option<CaptureView>,
}

impl View for PersistState {
    type V = PersistView;

    open spec fn view(&self) -> PersistView {
        PersistView {
            mark: self.mark,
            pending: self.pending,
            capture: match self.capture {
                Some(capture) => Some(capture@),
                None => None,
            },
        }
    }
}

/// What the host sees at one tick.
#[derive(Debug, Clone, Copy, PartialEq, Eq)]
pub struct PersistTick {
    /// The writer finished: whether it went well, and whether it compacted.
    pub completed: Option<(bool, bool)>,
    pub live: bool,
    /// How far the logs are.
    pub mark: u64,
    /// The last checkpoint started long enough ago.
    pub due: bool,
    /// There is a file to write to.
    pub has_path: bool,
}

/// What the host does at one tick.
#[derive(Debug)]
pub struct PersistAction {
    /// Forget what earlier checkpoints captured, so that all is written again.
    pub forget_captured: bool,
    /// A checkpoint started now.
    pub started: bool,
    /// Drop what the checkpoint under way has captured.
    pub dropped: bool,
    /// Capture this pane.
    pub capture: Option<PaneKey>,
    /// All is captured: hand it to the writer.
    pub submit: Option<u64>,
}

#[verifier::ext_equal]
pub struct PersistActionView {
    pub forget_captured: bool,
    pub started: bool,
    pub dropped: bool,
    pub capture: Option<PaneKeyView>,
    pub submit: Option<u64>,
}

impl View for PersistAction {
    type V = PersistActionView;

    open spec fn view(&self) -> PersistActionView {
        PersistActionView {
            forget_captured: self.forget_captured,
            started: self.started,
            dropped: self.dropped,
            capture: match self.capture {
                Some(key) => Some(key@),
                None => None,
            },
            submit: self.submit,
        }
    }
}

pub open spec fn idle_action(forget_captured: bool) -> PersistActionView {
    PersistActionView {
        forget_captured,
        started: false,
        dropped: false,
        capture: None,
        submit: None,
    }
}

impl PersistView {
    /// A finished write: a good one counts, a bad or compacting one makes the next
    /// one write everything.
    pub open spec fn after_completion(self, completed: Option<(bool, bool)>) -> PersistView {
        match (completed, self.pending) {
            (Some((success, _)), Some(mark)) => PersistView {
                mark: if success {
                    mark
                } else {
                    self.mark
                },
                pending: None,
                ..self
            },
            _ => self,
        }
    }

    pub open spec fn forgets(self, completed: Option<(bool, bool)>) -> bool {
        match (completed, self.pending) {
            (Some((success, compact)), Some(_)) => !success || compact,
            _ => false,
        }
    }

    /// Capture the next pane of a checkpoint, and hand it over with the last one.
    pub open spec fn advance(
        self,
        keys: Seq<PaneKeyView>,
        forget_captured: bool,
        started: bool,
        has_path: bool,
    ) -> (PersistView, PersistActionView) {
        let capture = self.capture->0;
        if !has_path {
            (self, PersistActionView { started, ..idle_action(forget_captured) })
        } else if capture.keys != keys {
            (
                PersistView { capture: None, ..self },
                PersistActionView { started, dropped: true, ..idle_action(forget_captured) },
            )
        } else if capture.left.len() <= 1 {
            (
                PersistView { capture: None, ..self },
                PersistActionView {
                    started,
                    capture: if capture.left.len() == 0 {
                        None
                    } else {
                        Some(capture.left[0])
                    },
                    submit: Some(capture.mark),
                    ..idle_action(forget_captured)
                },
            )
        } else {
            (
                PersistView {
                    capture: Some(CaptureView { left: capture.left.drop_first(), ..capture }),
                    ..self
                },
                PersistActionView {
                    started,
                    capture: Some(capture.left[0]),
                    ..idle_action(forget_captured)
                },
            )
        }
    }

    /// One tick. A checkpoint starts where the logs went on and one is due, never
    /// while another is being written.
    pub open spec fn ticked(self, keys: Seq<PaneKeyView>, tick: PersistTick) -> (
        PersistView,
        PersistActionView,
    ) {
        let forget = self.forgets(tick.completed);
        let s = self.after_completion(tick.completed);
        if s.pending is Some || !tick.live {
            (s, idle_action(forget))
        } else if s.capture is None {
            if tick.mark == s.mark || !tick.due {
                (s, idle_action(forget))
            } else {
                PersistView {
                    capture: Some(CaptureView { left: keys, keys, mark: tick.mark }),
                    ..s
                }.advance(keys, forget, true, tick.has_path)
            }
        } else {
            s.advance(keys, forget, false, tick.has_path)
        }
    }
}

impl PersistState {
    /// Nothing written yet.
    pub fn new() -> (s: Self)
        ensures
            s@ == (PersistView { mark: 0, pending: None, capture: None }),
    {
        PersistState { mark: 0, pending: None, capture: None }
    }

    /// Leave a checkpoint under way, as for another file or for the last write.
    pub fn abandon(&mut self)
        ensures
            final(self)@ == (PersistView { mark: old(self).mark, pending: None, capture: None }),
    {
        self.pending = None;
        self.capture = None;
    }

    /// The last write before the end went well; the logs were this far.
    pub fn flushed(&mut self, mark: u64)
        ensures
            final(self)@ == (PersistView { mark, ..old(self)@ }),
    {
        self.mark = mark;
    }

    /// The writer took a checkpoint that was handed to it.
    pub fn submitted(&mut self, mark: u64)
        ensures
            final(self)@ == (PersistView { pending: Some(mark), ..old(self)@ }),
    {
        self.pending = Some(mark);
    }

    fn advance(
        &mut self,
        capture: CheckpointCapture,
        keys: &Vec<PaneKey>,
        forget_captured: bool,
        started: bool,
        has_path: bool,
    ) -> (r: PersistAction)
        ensures
            (final(self)@, r@) == (PersistView {
                capture: Some(capture@),
                ..old(self)@
            }).advance(seq_views(keys@), forget_captured, started, has_path),
    {
        let mut r = PersistAction {
            forget_captured,
            started,
            dropped: false,
            capture: None,
            submit: None,
        };
        if !has_path {
            self.capture = Some(capture);
            return r;
        }
        if !same_keys(&capture.keys, keys) {
            self.capture = None;
            r.dropped = true;
            return r;
        }
        let mut capture = capture;
        if capture.left.len() == 0 {
            self.capture = None;
            r.submit = Some(capture.mark);
            return r;
        }
        let ghost left = capture.left@;
        let key: PaneKey = capture.left.remove(0);
        assert(seq_views(capture.left@) =~= seq_views(left).drop_first());
        assert(key@ == seq_views(left)[0]);
        r.capture = Some(key);
        if capture.left.len() == 0 {
            self.capture = None;
            r.submit = Some(capture.mark);
        } else {
            self.capture = Some(capture);
        }
        r
    }

    /// One tick of the checkpoints; `keys` are those of every pane now.
    pub fn maybe_persist_pane_logs(&mut self, keys: &Vec<PaneKey>, tick: PersistTick) -> (r:
        PersistAction)
        ensures
            (final(self)@, r@) == old(self)@.ticked(seq_views(keys@), tick),
    {
        let mut forget: bool = false;
        if let Some((success, compact)) = tick.completed {
            if let Some(mark) = self.pending {
                if success {
                    self.mark = mark;
                }
                forget = !success || compact;
                self.pending = None;
            }
        }
        let idle = PersistAction {
            forget_captured: forget,
            started: false,
            dropped: false,
            capture: None,
            submit: None,
        };
        if self.pending.is_some() || !tick.live {
            return idle;
        }
        match self.capture.take() {
            Some(capture) => self.advance(capture, keys, forget, false, tick.has_path),
            None => {
                if tick.mark == self.mark || !tick.due {
                    return idle;
                }
                let capture = CheckpointCapture {
                    left: copy_keys(keys),
                    keys: copy_keys(keys),
                    mark: tick.mark,
                };
                self.advance(capture, keys, forget, true, tick.has_path)
            },
        }
    }
}

/// Each tick captures at most the next pane of the checkpoint, and what is handed
/// to the writer is complete: nothing is left to capture, and the panes are still
/// those it started with.
pub proof fn checkpoints_are_complete(
    state: PersistView,
    keys: Seq<PaneKeyView>,
    tick: PersistTick,
)
    requires
        state.capture is Some,
    ensures
        ({
            let (after, action) = state.ticked(keys, tick);
            action.submit matches Some(mark) ==> {
                &&& state.capture->0.keys == keys
                &&& state.capture->0.left.len() <= 1
                &&& state.capture->0.left.len() == 1 ==> action.capture == Some(
                    state.capture->0.left[0],
                )
                &&& mark == state.capture->0.mark
                &&& after.capture is None
            }
        }),
{
}

/// At most one checkpoint is written at a time.
pub proof fn one_checkpoint_at_a_time(
    state: PersistView,
    keys: Seq<PaneKeyView>,
    tick: PersistTick,
)
    requires
        state.pending is Some,
        tick.completed is None,
    ensures
        state.ticked(keys, tick) == (state, idle_action(false)),
{
}

/// What reading a checkpoint file gave.
#[derive(Debug)]
pub enum PersistRead {
    /// The file is of this format.
    Valid,
    /// It is not, for this reason.
    Invalid(String),
    /// It could not be read.
    Unreadable,
}

/// What becomes of the pane logs at the start.
#[derive(Debug)]
pub enum RestorePlan {
    Nothing,
    Restore,
    /// Start the first pane's log anew and say why.
    Reset(String),
}

/// A checkpoint is restored where it is good; otherwise the log says why not.
pub fn restore_pane_logs(found: bool, live: bool, read: PersistRead) -> (r: RestorePlan)
    ensures
        if !found || !live {
            r is Nothing
        } else {
            match read {
                PersistRead::Valid => r is Restore,
                PersistRead::Invalid(reason) => r matches RestorePlan::Reset(text) && text@
                    == reason@,
                PersistRead::Unreadable => r matches RestorePlan::Reset(text) && text@
                    == "corrupt persist"@,
            }
        },
{
    if !found || !live {
        return RestorePlan::Nothing;
    }
    match read {
        PersistRead::Valid => RestorePlan::Restore,
        PersistRead::Invalid(reason) => RestorePlan::Reset(reason),
        PersistRead::Unreadable => RestorePlan::Reset(String::from_str("corrupt persist")),
    }
}

} // verus!
