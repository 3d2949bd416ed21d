//! Sessions and windows end; sessions change their Space.
use vstd::prelude::*;
use vstd::string::*;

use crate::attention::{ack, Gone};
use crate::error::{
    control_domain_error, domain_error_view, stale_error, stale_id, ControlError, ErrorView,
};
use crate::event::{clone_ids, clone_option_text, option_text, Event, EventView};
use crate::idmap::group_views;
use crate::model::{group_seq_views, lemma_last_contained};
use crate::plane::{first_fault, pane_ids, ControlPlane, PlaneView};
use crate::response::{reply_view, ControlResponseData, DataView};
use crate::state::{group_pane_states, Effect, EffectView};
use crate::topology::{contains_id, relists, DomainView};

verus! {

broadcast use {group_views, group_seq_views, group_pane_states};

impl PlaneView {
    /// The panes are gone: their children end and everything is forgotten.
    pub open spec fn drop_panes(self, panes: Seq<u64>) -> PlaneView
        decreases panes.len(),
    {
        if panes.len() == 0 {
            self
        } else {
            self.drop_panes(panes.drop_last()).live_note(
                EffectView::RemovePane { pane: panes.last() },
            ).forget_pane(panes.last())
        }
    }

    /// The windows are gone: no frame, nobody looks at them.
    pub open spec fn drop_windows(self, windows: Seq<u64>) -> PlaneView
        decreases windows.len(),
    {
        if windows.len() == 0 {
            self
        } else {
            let rest = self.drop_windows(windows.drop_last());
            PlaneView { frames: rest.frames.remove(windows.last()), ..rest }.unreference(
                Gone::Window(windows.last()),
            )
        }
    }

    /// End a session with its windows and panes.
    pub open spec fn destroy_session(self, session: u64) -> (
        PlaneView,
        Result<DataView, ErrorView>,
    ) {
        match first_fault(self.capacity_fault(), self.session_fault(session)) {
            Some(fault) => (self, Err(fault)),
            None => {
                let name = self.domain.sessions[session].name;
                let unbound = self.note(EffectView::UnbindAgent { session: name });
                let after = PlaneView {
                    domain: self.domain.destroy_session(session),
                    ..unbound
                }.drop_windows(self.domain.sessions[session].windows).drop_panes(
                    self.domain.session_panes(session),
                ).unreference(Gone::Session(session)).publish(
                    EventView::SessionDestroyed { session_id: session, name },
                );
                (after, Ok(ack(after)))
            },
        }
    }

    /// End a window with its panes. The last window takes its session along.
    pub open spec fn destroy_window(self, window: u64) -> (PlaneView, Result<DataView, ErrorView>) {
        match first_fault(self.capacity_fault(), self.window_fault(window)) {
            Some(fault) => (self, Err(fault)),
            None => {
                let session = self.domain.windows[window].session;
                let domain = self.domain.destroy_window(window);
                let after = PlaneView {
                    domain,
                    frames: self.frames.remove(window),
                    ..self
                }.drop_panes(self.leaves_of(window)).unreference(Gone::Window(window)).publish(
                    EventView::WindowDestroyed {
                        session_id: session,
                        window_id: window,
                        session_destroyed: !domain.sessions.contains_key(session),
                    },
                );
                (after, Ok(ack(after)))
            },
        }
    }

    /// Whoever controlled the panes loses them.
    pub open spec fn revoke_controllers(self, panes: Seq<u64>) -> PlaneView
        decreases panes.len(),
    {
        if panes.len() == 0 {
            self
        } else {
            self.revoke_controllers(panes.drop_last()).revoke_controller(panes.last())
        }
    }

    pub open spec fn transfer_sessions_fault(
        self,
        ids: Seq<u64>,
        from: Option<Seq<char>>,
    ) -> Option<ErrorView> {
        first_fault(
            self.capacity_fault(),
            if ids.contains(0) {
                Some(stale_error("session"@, 0))
            } else {
                match self.domain.transfer_fault(ids, from) {
                    Some(error) => Some(domain_error_view(error)),
                    None => None,
                }
            },
        )
    }

    /// Hand sessions over to another Space: all of them, or none.
    pub open spec fn transfer_sessions(
        self,
        ids: Seq<u64>,
        from: Option<Seq<char>>,
        to: Option<Seq<char>>,
    ) -> (PlaneView, Result<DataView, ErrorView>) {
        match self.transfer_sessions_fault(ids, from) {
            Some(fault) => (self, Err(fault)),
            None => {
                let after = PlaneView {
                    domain: self.domain.transfer_sessions(ids, to),
                    ..self
                }.revoke_controllers(self.domain.sessions_panes(ids)).publish(
                    EventView::SpaceOwnershipChanged { session_ids: ids, from, to },
                );
                (after, Ok(ack(after)))
            },
        }
    }

    proof fn lemma_drop_windows(self, windows: Seq<u64>)
        ensures
            ({
                let after = self.drop_windows(windows);
                &&& after.domain == self.domain
                &&& after.ring == self.ring
                &&& after.panes == self.panes
                &&& after.doorbell == self.doorbell
                &&& after.aliases == self.aliases
                &&& after.clients.dom() == self.clients.dom()
                &&& forall|w: u64| #[trigger]
                    after.frames.contains_key(w) <==> self.frames.contains_key(w)
                        && !windows.contains(w)
                &&& forall|w: u64| #[trigger]
                    after.frames.contains_key(w) ==> after.frames[w] == self.frames[w]
            }),
        decreases windows.len(),
    {
        if windows.len() > 0 {
            let head = windows.drop_last();
            let last = windows.last();
            self.lemma_drop_windows(head);
            let rest = self.drop_windows(head);
            let after = self.drop_windows(windows);
            assert(after.clients.dom() =~= rest.clients.dom());
            lemma_last_contained(windows);
        }
    }
}

impl ControlPlane {
    fn drop_panes(&mut self, panes: &Vec<u64>)
        requires
            old(self)@.wf(),
        ensures
            final(self)@ == old(self)@.drop_panes(panes@),
            final(self)@.wf(),
            final(self)@.domain == old(self)@.domain,
    {
        let mut i: usize = 0;
        let ghost before = self@;
        assert(panes@.take(0) =~= Seq::empty());
        while i < panes.len()
            invariant
                i <= panes@.len(),
                before == old(self)@,
                self@ == before.drop_panes(panes@.take(i as int)),
                self@.wf(),
                self@.domain == before.domain,
            decreases panes@.len() - i,
        {
            proof {
                assert(panes@.take(i + 1).drop_last() =~= panes@.take(i as int));
            }
            self.live_note(Effect::RemovePane { pane: panes[i] });
            self.forget_pane(panes[i]);
            i = i + 1;
        }
        assert(panes@.take(i as int) =~= panes@);
    }

    fn drop_windows(&mut self, windows: &Vec<u64>)
        ensures
            final(self)@ == old(self)@.drop_windows(windows@),
    {
        let mut i: usize = 0;
        let ghost before = self@;
        assert(windows@.take(0) =~= Seq::empty());
        while i < windows.len()
            invariant
                i <= windows@.len(),
                before == old(self)@,
                self@ == before.drop_windows(windows@.take(i as int)),
            decreases windows@.len() - i,
        {
            proof {
                assert(windows@.take(i + 1).drop_last() =~= windows@.take(i as int));
            }
            let _ = self.frames.remove(windows[i]);
            self.unreference(Gone::Window(windows[i]));
            i = i + 1;
        }
        assert(windows@.take(i as int) =~= windows@);
    }

    pub fn destroy_session(&mut self, session: u64) -> (r: Result<
        ControlResponseData,
        ControlError,
    >)
        requires
            old(self)@.wf(),
        ensures
            (final(self)@, reply_view(r)) == old(self)@.destroy_session(session),
            final(self)@.wf(),
    {
        self.ensure_sequence_capacity()?;
        self.require_session(session)?;
        let ghost before = self@;
        let (name, windows): (String, Vec<u64>) = match self.domain.sessions.get(session) {
            Some(s) => (s.name.clone(), clone_ids(&s.windows)),
            None => (String::new(), Vec::new()),
        };
        let panes: Vec<u64> = self.domain.session_panes(session);
        self.note(Effect::UnbindAgent { session: name.clone() });
        self.domain.destroy_session(session);
        let ghost cut = self@;
        self.drop_windows(&windows);
        proof {
            before.domain.destroy_session_keeps_wf(session);
            cut.lemma_drop_windows(windows@);
            assert(self@.frames.dom() =~= self@.domain.windows.dom()) by {
                assert forall|w: u64| #[trigger]
                    self@.frames.contains_key(w) <==> self@.domain.windows.contains_key(w) by {
                    if before.domain.windows.contains_key(w) {
                        assert(before.domain.sessions.contains_key(
                            before.domain.windows[w].session,
                        ));
                    }
                    if windows@.contains(w) {
                        assert(before.domain.sessions[session].windows.contains(w));
                    }
                    assert(before.frames.dom().contains(w) <==> before.domain.windows.contains_key(w));
                }
            }
            assert forall|w: u64| #[trigger] self@.frames.contains_key(w) implies self@.frames[w].bounds.window_id
                == w && relists(
                pane_ids(self@.frames[w].geometry),
                self@.domain.windows[w].layout.leaves(),
            ) by {
                assert(before.frames.contains_key(w));
                assert(self@.domain.windows.contains_key(w));
            }
            assert forall|c: u64| #[trigger] self@.clients.contains_key(c) implies 0 < c
                < self@.domain.next_client by {
                assert(before.clients.dom().contains(c));
            }
            assert(!self@.clients.dom().contains(self@.doorbell));
        }
        self.drop_panes(&panes);
        self.unreference(Gone::Session(session));
        let _ = self.publish(Event::SessionDestroyed { session_id: session, name });
        Ok(self.ack())
    }

    pub fn destroy_window(&mut self, window: u64) -> (r: Result<ControlResponseData, ControlError>)
        requires
            old(self)@.wf(),
        ensures
            (final(self)@, reply_view(r)) == old(self)@.destroy_window(window),
            final(self)@.wf(),
    {
        self.ensure_sequence_capacity()?;
        self.require_window(window)?;
        let ghost before = self@;
        let session: u64 = match self.domain.windows.get(window) {
            Some(w) => w.session,
            None => 0,
        };
        let panes: Vec<u64> = self.leaves_of(window);
        proof {
            before.domain.destroy_window_keeps_wf(window);
        }
        self.domain.destroy_window(window);
        let _ = self.frames.remove(window);
        proof {
            assert(self@.frames.dom() =~= self@.domain.windows.dom());
            assert forall|w: u64| #[trigger] self@.frames.contains_key(w) implies self@.frames[w].bounds.window_id
                == w && relists(
                pane_ids(self@.frames[w].geometry),
                self@.domain.windows[w].layout.leaves(),
            ) by {
                assert(before.frames.contains_key(w));
            }
        }
        self.drop_panes(&panes);
        self.unreference(Gone::Window(window));
        let session_destroyed: bool = !self.domain.has_session(session);
        let _ = self.publish(
            Event::WindowDestroyed { session_id: session, window_id: window, session_destroyed },
        );
        Ok(self.ack())
    }

    fn revoke_controllers(&mut self, panes: &Vec<u64>)
        requires
            old(self)@.wf(),
            forall|p: u64| #[trigger] panes@.contains(p) ==> old(self)@.domain.panes.contains_key(p),
        ensures
            final(self)@ == old(self)@.revoke_controllers(panes@),
            final(self)@.wf(),
    {
        let mut i: usize = 0;
        let ghost before = self@;
        assert(panes@.take(0) =~= Seq::empty());
        while i < panes.len()
            invariant
                i <= panes@.len(),
                before == old(self)@,
                self@ == before.revoke_controllers(panes@.take(i as int)),
                self@.wf(),
                self@.domain.panes.dom() == before.domain.panes.dom(),
                forall|p: u64| #[trigger]
                    panes@.contains(p) ==> before.domain.panes.contains_key(p),
            decreases panes@.len() - i,
        {
            proof {
                assert(panes@.take(i + 1).drop_last() =~= panes@.take(i as int));
                assert(panes@.contains(panes@[i as int]));
                assert(before.domain.panes.dom().contains(panes@[i as int]));
            }
            let ghost at = self@;
            self.revoke_space_controller(panes[i]);
            assert(self@.domain.panes.dom() =~= at.domain.panes.dom());
            i = i + 1;
        }
        assert(panes@.take(i as int) =~= panes@);
    }

    pub fn transfer_space_sessions(
        &mut self,
        session_ids: &Vec<u64>,
        from: &Option<String>,
        to: &Option<String>,
    ) -> (r: Result<ControlResponseData, ControlError>)
        requires
            old(self)@.wf(),
        ensures
            (final(self)@, reply_view(r)) == old(self)@.transfer_sessions(
                session_ids@,
                option_text(*from),
                option_text(*to),
            ),
            final(self)@.wf(),
    {
        self.ensure_sequence_capacity()?;
        if contains_id(session_ids, 0) {
            return Err(stale_id("session", 0));
        }
        let ghost before = self@;
        match self.domain.transfer_space_sessions(session_ids, from, to) {
            Ok(()) => {},
            Err(error) => {
                return Err(control_domain_error(error));
            },
        }
        proof {
            before.domain.labels_keep_wf(
                0,
                0,
                0,
                Seq::empty(),
                option_text(*to),
                false,
                session_ids@,
            );
        }
        let panes: Vec<u64> = self.sessions_panes(session_ids, Ghost(before.domain), Ghost(option_text(*from)));
        self.revoke_controllers(&panes);
        let _ = self.publish(
            Event::SpaceOwnershipChanged {
                session_ids: clone_ids(session_ids),
                from: clone_option_text(from),
                to: clone_option_text(to),
            },
        );
        Ok(self.ack())
    }

    /// The panes of sessions that just changed their Space.
    fn sessions_panes(
        &self,
        ids: &Vec<u64>,
        Ghost(before): Ghost<DomainView>,
        Ghost(from): Ghost<Option<Seq<char>>>,
    ) -> (v: Vec<u64>)
        requires
            self@.domain.wf(),
            before.same_shape(self@.domain),
            before.transfer_fault(ids@, from) is None,
        ensures
            v@ == before.sessions_panes(ids@),
            forall|p: u64| #[trigger] v@.contains(p) ==> self@.domain.panes.contains_key(p),
    {
        let mut v: Vec<u64> = Vec::new();
        let mut i: usize = 0;
        assert(ids@.take(0) =~= Seq::empty());
        while i < ids.len()
            invariant
                i <= ids@.len(),
                self@.domain.wf(),
                before.same_shape(self@.domain),
                before.transfer_fault(ids@, from) is None,
                v@ == before.sessions_panes(ids@.take(i as int)),
                forall|p: u64| #[trigger] v@.contains(p) ==> self@.domain.panes.contains_key(p),
            decreases ids@.len() - i,
        {
            proof {
                before.lemma_transfer_known(ids@, from, i as int);
                assert(ids@.take(i + 1).drop_last() =~= ids@.take(i as int));
                before.lemma_same_panes(self@.domain, ids@[i as int], self@.domain.sessions[ids@[i as int]].windows);
            }
            let ghost head = v@;
            let mut more: Vec<u64> = self.domain.session_panes(ids[i]);
            let ghost added = more@;
            v.append(&mut more);
            proof {
                assert forall|p: u64| #[trigger]
                    v@.contains(p) implies self@.domain.panes.contains_key(p) by {
                    let k = choose|k: int| 0 <= k < v@.len() && v@[k] == p;
                    if k < head.len() {
                        assert(head[k] == p);
                        assert(head.contains(p));
                    } else {
                        assert(added[k - head.len()] == p);
                        assert(added.contains(p));
                    }
                }
            }
            i = i + 1;
        }
        assert(ids@.take(i as int) =~= ids@);
        v
    }
}

impl DomainView {
    /// Domains of the same shape list the same panes.
    proof fn lemma_same_panes(self, other: DomainView, session: u64, windows: Seq<u64>)
        requires
            other.wf(),
            self.same_shape(other),
            other.sessions.contains_key(session),
            forall|w: u64| #[trigger]
                windows.contains(w) ==> other.sessions[session].windows.contains(w),
        ensures
            self.windows_panes(windows) == other.windows_panes(windows),
            self.sessions[session].windows == other.sessions[session].windows,
        decreases windows.len(),
    {
        assert(self.sessions.contains_key(session));
        if windows.len() > 0 {
            let head = windows.drop_last();
            lemma_last_contained(windows);
            assert(other.windows.contains_key(windows.last()));
            assert(self.windows.contains_key(windows.last()));
            self.lemma_same_panes(other, session, head);
        }
    }
}

} // verus!
