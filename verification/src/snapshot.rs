//! Snapshots of the whole state, and the output that running panes report.
use vstd::prelude::*;
use vstd::string::*;

use crate::error::ControlError;
use crate::event::{clone_ids, clone_option_text, option_text, Event, EventView};
use crate::idmap::{group_views, lemma_ids_are_listed, lists_ids, sorted_ids, IdMap};
use crate::ledger::{note_output, noted_output};
use crate::model::{group_seq_views, seq_views};
use crate::place::{entry_of, find_entry, lemma_entry_of};
use crate::plane::{pane_ids, ControlPlane, PlaneView};
use crate::response::{
    layout_snapshot, layout_snapshot_of, PaneSnapshot, PaneSnapshotView, SessionSnapshot,
    SessionSnapshotView, Snapshot, SnapshotView, WindowSnapshot, WindowSnapshotView,
};
use crate::state::{group_pane_states, PaneState, PaneStateView};
use crate::wire::{
    MailAttentionState, MailInjectDiagnostic, PaneGeometry, SpawnSpec, WindowBounds,
};

verus! {

broadcast use {group_views, group_seq_views, group_pane_states};

impl PlaneView {
    /// The process of a running pane, out of the processes that the host runs.
    pub open spec fn child_of(self, pane: u64, pids: Map<u64, u32>) -> Option<u32> {
        if self.live && pids.contains_key(pane) {
            Some(pids[pane])
        } else {
            None
        }
    }

    pub open spec fn pane_snapshot(
        self,
        window: u64,
        pane: u64,
        pids: Map<u64, u32>,
        now: u64,
    ) -> PaneSnapshotView {
        let state = self.panes[pane];
        let place = self.domain.panes[pane];
        PaneSnapshotView {
            pane_write: state.receipt,
            id: pane,
            title: place.title,
            title_pinned: place.title_pinned,
            controller_id: place.controller,
            geometry: entry_of(self.frames[window].geometry, pane)->0,
            spawn: state.spawn,
            child_pid: self.child_of(pane, pids),
            mail: state.mail,
            status: state.status,
            attention: state.attention,
            mail_inject: state.inject_last,
            ledger: self.ledger(pane, now),
            size_owner: self.size_owner(window),
        }
    }

    pub open spec fn window_snapshot(self, window: u64, pids: Map<u64, u32>, now: u64) -> WindowSnapshotView {
        let w = self.domain.windows[window];
        let leaves = w.layout.leaves();
        WindowSnapshotView {
            id: window,
            title: w.title,
            bounds: self.frames[window].bounds,
            layout: layout_snapshot_of(w.layout),
            panes: Seq::new(
                leaves.len(),
                |i: int| self.pane_snapshot(window, leaves[i], pids, now),
            ),
            sync_input: w.sync_input,
        }
    }

    pub open spec fn session_snapshot(self, session: u64, pids: Map<u64, u32>, now: u64) -> SessionSnapshotView {
        let s = self.domain.sessions[session];
        SessionSnapshotView {
            id: session,
            name: s.name,
            agent_id: s.agent_id,
            space_id: s.space_id,
            windows: Seq::new(
                s.windows.len(),
                |i: int| self.window_snapshot(s.windows[i], pids, now),
            ),
        }
    }

    /// Everything there is, oldest session first.
    pub open spec fn snapshot(self, pids: Map<u64, u32>, now: u64) -> SnapshotView {
        let ids = sorted_ids(self.domain.sessions.dom());
        SnapshotView {
            sequence: self.ring.sequence as u64,
            sessions: Seq::new(ids.len(), |i: int| self.session_snapshot(ids[i], pids, now)),
        }
    }

    /// One report of output.
    pub open spec fn ticked(self, tick: TickView, now: u64) -> PlaneView {
        let raised = match tick.attention {
            Some(message) => self.with_pane(
                tick.pane,
                PaneStateView { attention: Some(message), ..self.panes[tick.pane] },
            ).publish(EventView::PaneAttention { pane_id: tick.pane, message }),
            None => self,
        };
        let state = raised.panes[tick.pane];
        let noted = raised.with_pane(
            tick.pane,
            PaneStateView {
                output_at: Some(now),
                output: noted_output(state.output, tick.nbytes, now),
                ..state
            },
        );
        PlaneView {
            ring: noted.ring.note_activity(tick.pane, tick.revision, tick.child_alive),
            ..noted
        }
    }

    pub open spec fn drained(self, ticks: Seq<TickView>, now: u64) -> PlaneView
        decreases ticks.len(),
    {
        if ticks.len() == 0 {
            self
        } else {
            self.drained(ticks.drop_last(), now).ticked(ticks.last(), now)
        }
    }
}

/// Output that a running pane reports.
#[derive(Debug, PartialEq)]
pub struct Tick {
    pub pane: u64,
    pub revision: u64,
    pub child_alive: bool,
    pub nbytes: usize,
    /// A request for attention that the output held.
    pub attention: Option<String>,
}

#[verifier::ext_equal]
pub struct TickView {
    pub pane: u64,
    pub revision: u64,
    pub child_alive: bool,
    pub nbytes: usize,
    pub attention: Option<Seq<char>>,
}

impl View for Tick {
    type V = TickView;

    open spec fn view(&self) -> TickView {
        TickView {
            pane: self.pane,
            revision: self.revision,
            child_alive: self.child_alive,
            nbytes: self.nbytes,
            attention: option_text(self.attention),
        }
    }
}

impl ControlPlane {
    /// The process of a running pane.
    pub fn child_pid(&self, pane: u64, pids: &IdMap<u32>) -> (r: Option<u32>)
        ensures
            r == self@.child_of(pane, pids@),
    {
        if !self.live {
            return None;
        }
        match pids.get(pane) {
            Some(pid) => Some(*pid),
            None => None,
        }
    }

    fn pane_snapshot(&self, window: u64, pane: u64, pids: &IdMap<u32>, now: u64) -> (r: PaneSnapshot)
        requires
            self@.wf(),
            self@.domain.windows.contains_key(window),
            self@.leaves_of(window).contains(pane),
        ensures
            r@ == self@.pane_snapshot(window, pane, pids@, now),
    {
        proof {
            assert(self@.domain.windows[window].layout.leaves().contains(pane));
            assert(self@.domain.panes.contains_key(pane));
            assert(self@.frames.contains_key(window));
            assert(pane_ids(self@.frames[window].geometry).contains(pane));
            lemma_entry_of(self@.frames[window].geometry, pane);
        }
        let none = PaneGeometry { pane_id: pane, col: 0, row: 0, cols: 0, rows: 0 };
        let geometry: PaneGeometry = match self.frames.get(window) {
            Some(frame) => match find_entry(&frame.geometry, pane) {
                Some(entry) => entry,
                None => none,
            },
            None => none,
        };
        let (title, title_pinned, controller_id): (String, bool, Option<u64>) =
            match self.domain.panes.get(pane) {
            Some(p) => (p.title.clone(), p.title_pinned, p.controller),
            None => (String::new(), false, None),
        };
        let child_pid: Option<u32> = self.child_pid(pane, pids);
        let ledger = self.pane_ledger(pane, now);
        let size_owner = self.size_owner_for(window);
        match self.panes.get(pane) {
            Some(state) => {
                let spawn: Option<SpawnSpec> = match &state.spawn {
                    Some(spawn) => Some(spawn.clone()),
                    None => None,
                };
                let mail: Option<MailAttentionState> = match &state.mail {
                    Some(mail) => Some(mail.clone()),
                    None => None,
                };
                let mail_inject: Option<MailInjectDiagnostic> = state.inject_last;
                PaneSnapshot {
                    pane_write: state.receipt,
                    id: pane,
                    title,
                    title_pinned,
                    controller_id,
                    geometry,
                    spawn,
                    child_pid,
                    mail,
                    status: clone_option_text(&state.status),
                    attention: clone_option_text(&state.attention),
                    mail_inject,
                    ledger,
                    size_owner,
                }
            },
            None => PaneSnapshot {
                pane_write: None,
                id: pane,
                title,
                title_pinned,
                controller_id,
                geometry,
                spawn: None,
                child_pid,
                mail: None,
                status: None,
                attention: None,
                mail_inject: None,
                ledger,
                size_owner,
            },
        }
    }

    fn window_snapshot(&self, window: u64, pids: &IdMap<u32>, now: u64) -> (r: WindowSnapshot)
        requires
            self@.wf(),
            self@.domain.windows.contains_key(window),
        ensures
            r@ == self@.window_snapshot(window, pids@, now),
    {
        let leaves: Vec<u64> = self.leaves_of(window);
        let mut panes: Vec<PaneSnapshot> = Vec::new();
        let mut i: usize = 0;
        while i < leaves.len()
            invariant
                i <= leaves@.len(),
                self@.wf(),
                self@.domain.windows.contains_key(window),
                leaves@ == self@.leaves_of(window),
                panes@.len() == i,
                forall|k: int|
                    0 <= k < i ==> (#[trigger] panes@[k])@ == self@.pane_snapshot(
                        window,
                        leaves@[k],
                        pids@,
                        now,
                    ),
            decreases leaves@.len() - i,
        {
            assert(leaves@.contains(leaves@[i as int]));
            panes.push(self.pane_snapshot(window, leaves[i], pids, now));
            i = i + 1;
        }
        assert(seq_views(panes@) =~= self@.window_snapshot(window, pids@, now).panes);
        let bounds: WindowBounds = self.bounds_of(window);
        let layout = self.layout_of(window);
        let (title, sync_input): (String, bool) = match self.domain.windows.get(window) {
            Some(w) => (w.title.clone(), w.sync_input),
            None => (String::new(), false),
        };
        WindowSnapshot { id: window, title, bounds, layout: layout_snapshot(&layout), panes, sync_input }
    }

    fn session_snapshot(&self, session: u64, pids: &IdMap<u32>, now: u64) -> (r: SessionSnapshot)
        requires
            self@.wf(),
            self@.domain.sessions.contains_key(session),
        ensures
            r@ == self@.session_snapshot(session, pids@, now),
    {
        let (name, agent_id, space_id, ids): (String, Option<String>, Option<String>, Vec<u64>) =
            match self.domain.sessions.get(session) {
            Some(s) => (
                s.name.clone(),
                clone_option_text(&s.agent_id),
                clone_option_text(&s.space_id),
                clone_ids(&s.windows),
            ),
            None => (String::new(), None, None, Vec::new()),
        };
        let mut windows: Vec<WindowSnapshot> = Vec::new();
        let mut i: usize = 0;
        while i < ids.len()
            invariant
                i <= ids@.len(),
                self@.wf(),
                self@.domain.sessions.contains_key(session),
                ids@ == self@.domain.sessions[session].windows,
                windows@.len() == i,
                forall|k: int|
                    0 <= k < i ==> (#[trigger] windows@[k])@ == self@.window_snapshot(
                        ids@[k],
                        pids@,
                        now,
                    ),
            decreases ids@.len() - i,
        {
            assert(self@.domain.sessions[session].windows.contains(ids@[i as int]));
            windows.push(self.window_snapshot(ids[i], pids, now));
            i = i + 1;
        }
        assert(seq_views(windows@) =~= self@.session_snapshot(session, pids@, now).windows);
        SessionSnapshot { id: session, name, agent_id, space_id, windows }
    }

    /// The whole state. It can always be told.
    pub fn snapshot(&self, pids: &IdMap<u32>, now: u64) -> (r: Result<Snapshot, ControlError>)
        requires
            self@.wf(),
        ensures
            r matches Ok(snapshot) && snapshot@ == self@.snapshot(pids@, now),
            lists_ids(sorted_ids(self@.domain.sessions.dom()), self@.domain.sessions.dom()),
    {
        let ids: Vec<u64> = self.domain.sessions.keys();
        let mut sessions: Vec<SessionSnapshot> = Vec::new();
        let mut i: usize = 0;
        while i < ids.len()
            invariant
                i <= ids@.len(),
                self@.wf(),
                ids@ == sorted_ids(self.domain.sessions@.dom()),
                lists_ids(ids@, self.domain.sessions@.dom()),
                sessions@.len() == i,
                forall|k: int|
                    0 <= k < i ==> (#[trigger] sessions@[k])@ == self@.session_snapshot(
                        ids@[k],
                        pids@,
                        now,
                    ),
            decreases ids@.len() - i,
        {
            assert(ids@.contains(ids@[i as int]));
            sessions.push(self.session_snapshot(ids[i], pids, now));
            i = i + 1;
        }
        assert(seq_views(sessions@) =~= self@.snapshot(pids@, now).sessions);
        Ok(Snapshot { sequence: self.ring.sequence, sessions })
    }

    /// Takes one report of output. A busy pane keeps one hint in the history.
    fn emit_output_activity(&mut self, tick: &Tick, now: u64)
        requires
            old(self)@.wf(),
        ensures
            final(self)@ == old(self)@.ticked(tick@, now),
            final(self)@.wf(),
    {
        if let Some(message) = &tick.attention {
            let mut state: PaneState = self.take_pane(tick.pane);
            state.attention = Some(message.clone());
            self.put_pane(tick.pane, state);
            let _ = self.publish(
                Event::PaneAttention { pane_id: tick.pane, message: message.clone() },
            );
        }
        let mut state: PaneState = self.take_pane(tick.pane);
        state.output = note_output(&state.output, tick.nbytes, now);
        state.output_at = Some(now);
        self.put_pane(tick.pane, state);
        self.ring.note_activity(tick.pane, tick.revision, tick.child_alive);
    }

    /// Takes what the running panes reported since the last call.
    pub fn drain_live(&mut self, ticks: &Vec<Tick>, now: u64)
        requires
            old(self)@.wf(),
        ensures
            final(self)@ == old(self)@.drained(seq_views(ticks@), now),
            final(self)@.wf(),
    {
        let mut i: usize = 0;
        let ghost before = self@;
        let ghost all = seq_views(ticks@);
        assert(all.take(0) =~= Seq::empty());
        while i < ticks.len()
            invariant
                i <= ticks@.len(),
                before == old(self)@,
                all == seq_views(ticks@),
                self@ == before.drained(all.take(i as int), now),
                self@.wf(),
            decreases ticks@.len() - i,
        {
            proof {
                assert(all.take(i + 1).drop_last() =~= all.take(i as int));
                assert(all.take(i + 1).last() == ticks@[i as int]@);
            }
            self.emit_output_activity(&ticks[i], now);
            i = i + 1;
        }
        assert(all.take(i as int) =~= all);
    }
}

impl SnapshotView {
    /// A pane is shown at a place of a snapshot.
    pub open spec fn shows(self, i: int, j: int, k: int, pane: PaneSnapshotView) -> bool {
        &&& 0 <= i < self.sessions.len()
        &&& 0 <= j < self.sessions[i].windows.len()
        &&& 0 <= k < self.sessions[i].windows[j].panes.len()
        &&& self.sessions[i].windows[j].panes[k] == pane
    }
}

impl PlaneView {
    /// A snapshot leaves nothing out: every pane is in it, with what is known of it.
    pub proof fn a_snapshot_shows_every_pane(self, pids: Map<u64, u32>, now: u64, pane: u64)
        requires
            self.wf(),
            self.domain.panes.contains_key(pane),
        ensures
            exists|i: int, j: int, k: int| #[trigger]
                self.snapshot(pids, now).shows(
                    i,
                    j,
                    k,
                    self.pane_snapshot(self.domain.panes[pane].window, pane, pids, now),
                ),
    {
        let window = self.domain.panes[pane].window;
        let session = self.domain.windows[window].session;
        let ids = sorted_ids(self.domain.sessions.dom());
        lemma_ids_are_listed(self.domain.sessions.dom());
        assert(self.domain.windows.contains_key(window));
        assert(self.domain.sessions.dom().contains(session));
        let windows = self.domain.sessions[session].windows;
        let leaves = self.domain.windows[window].layout.leaves();
        let i = choose|i: int| 0 <= i < ids.len() && ids[i] == session;
        let j = choose|j: int| 0 <= j < windows.len() && windows[j] == window;
        let k = choose|k: int| 0 <= k < leaves.len() && leaves[k] == pane;
        assert(self.snapshot(pids, now).shows(
            i,
            j,
            k,
            self.pane_snapshot(window, pane, pids, now),
        ));
    }
}

} // verus!
