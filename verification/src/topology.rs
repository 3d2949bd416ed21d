//! Sessions, windows and panes, and the controller leases on panes.
//!
//! The layout engine outside this crate computes split trees; this module owns
//! which panes exist, where each one lives and who controls it.
use vstd::prelude::*;
use vstd::string::*;

use crate::error::DomainError;
use crate::event::{clone_ids, clone_option_text, option_text};
use crate::idmap::{group_views, lists_ids, views, IdMap};
use crate::model::lemma_last_contained;
use crate::text::{byte_count, byte_len, same_text, text_contains, trim, trimmed};
use crate::wire::AxisWire;

verus! {

broadcast use group_views;

/// Split tree of a window.
#[derive(Debug, PartialEq)]
pub enum PaneLayout {
    Leaf { pane_id: u64 },
    Split {
        axis: AxisWire,
        ratio_bits: u64,
        first: Box<PaneLayout>,
        second: Box<PaneLayout>,
    },
}

impl PaneLayout {
    /// The panes of a tree, in order.
    pub open spec fn leaves(self) -> Seq<u64>
        decreases self,
    {
        match self {
            PaneLayout::Leaf { pane_id } => seq![pane_id],
            PaneLayout::Split { first, second, .. } => first.leaves() + second.leaves(),
        }
    }

    pub fn panes(&self) -> (v: Vec<u64>)
        ensures
            v@ == self.leaves(),
        decreases self,
    {
        match self {
            PaneLayout::Leaf { pane_id } => {
                let mut v: Vec<u64> = Vec::new();
                v.push(*pane_id);
                assert(v@ =~= seq![*pane_id]);
                v
            },
            PaneLayout::Split { first, second, .. } => {
                let mut v: Vec<u64> = first.panes();
                let mut w: Vec<u64> = second.panes();
                v.append(&mut w);
                v
            },
        }
    }

    /// A tree always has a first pane.
    pub fn first_pane(&self) -> (pane: u64)
        ensures
            self.leaves().len() > 0,
            pane == self.leaves()[0],
        decreases self,
    {
        match self {
            PaneLayout::Leaf { pane_id } => *pane_id,
            PaneLayout::Split { first, .. } => first.first_pane(),
        }
    }

    pub fn copy(&self) -> (r: Self)
        ensures
            r == *self,
        decreases self,
    {
        match self {
            PaneLayout::Leaf { pane_id } => PaneLayout::Leaf { pane_id: *pane_id },
            PaneLayout::Split { axis, ratio_bits, first, second } => PaneLayout::Split {
                axis: *axis,
                ratio_bits: *ratio_bits,
                first: Box::new(first.copy()),
                second: Box::new(second.copy()),
            },
        }
    }
}

pub fn contains_id(v: &Vec<u64>, id: u64) -> (r: bool)
    ensures
        r == v@.contains(id),
{
    let mut i: usize = 0;
    while i < v.len()
        invariant
            i <= v@.len(),
            forall|k: int| 0 <= k < i ==> v@[k] != id,
        decreases v@.len() - i,
    {
        if v[i] == id {
            return true;
        }
        i = i + 1;
    }
    false
}

/// `s` without the occurrences of `id`.
pub open spec fn without_id(s: Seq<u64>, id: u64) -> Seq<u64> {
    s.filter(|x: u64| x != id)
}

pub fn drop_id(v: &Vec<u64>, id: u64) -> (r: Vec<u64>)
    ensures
        r@ == without_id(v@, id),
{
    let mut r: Vec<u64> = Vec::new();
    let mut i: usize = 0;
    assert(without_id(v@.take(0), id) =~= Seq::<u64>::empty()) by {
        reveal(Seq::filter);
    }
    while i < v.len()
        invariant
            i <= v@.len(),
            r@ == without_id(v@.take(i as int), id),
        decreases v@.len() - i,
    {
        proof {
            reveal(Seq::filter);
            assert(v@.take(i + 1).drop_last() =~= v@.take(i as int));
        }
        if v[i] != id {
            r.push(v[i]);
        }
        i = i + 1;
    }
    assert(v@.take(i as int) =~= v@);
    r
}

/// A named group of windows.
#[derive(Debug, PartialEq)]
pub struct Session {
    pub name: String,
    /// Mailbox address of the session.
    pub agent_id: Option<String>,
    /// Space that owns the session.
    pub space_id: Option<String>,
    pub windows: Vec<u64>,
}

pub struct SessionView {
    pub name: Seq<char>,
    pub agent_id: Option<Seq<char>>,
    pub space_id: Option<Seq<char>>,
    pub windows: Seq<u64>,
}

impl View for Session {
    type V = SessionView;

    open spec fn view(&self) -> SessionView {
        SessionView {
            name: self.name@,
            agent_id: option_text(self.agent_id),
            space_id: option_text(self.space_id),
            windows: self.windows@,
        }
    }
}

/// A tab: one split tree of panes.
#[derive(Debug, PartialEq)]
pub struct Window {
    pub session: u64,
    pub title: String,
    pub layout: PaneLayout,
    pub sync_input: bool,
}

pub struct WindowView {
    pub session: u64,
    pub title: Seq<char>,
    pub layout: PaneLayout,
    pub sync_input: bool,
}

impl View for Window {
    type V = WindowView;

    open spec fn view(&self) -> WindowView {
        WindowView {
            session: self.session,
            title: self.title@,
            layout: self.layout,
            sync_input: self.sync_input,
        }
    }
}

/// One terminal.
#[derive(Debug, PartialEq)]
pub struct Pane {
    pub window: u64,
    pub title: String,
    /// Set by a rename with a non-empty title.
    pub title_pinned: bool,
    /// Client that holds the writable lease.
    pub controller: Option<u64>,
}

pub struct PaneView {
    pub window: u64,
    pub title: Seq<char>,
    pub title_pinned: bool,
    pub controller: Option<u64>,
}

impl View for Pane {
    type V = PaneView;

    open spec fn view(&self) -> PaneView {
        PaneView {
            window: self.window,
            title: self.title@,
            title_pinned: self.title_pinned,
            controller: self.controller,
        }
    }
}

/// Everything that exists, by id. Ids are never reused.
#[derive(Debug, PartialEq)]
pub struct Domain {
    pub sessions: IdMap<Session>,
    pub windows: IdMap<Window>,
    pub panes: IdMap<Pane>,
    pub next_session: u64,
    pub next_window: u64,
    pub next_pane: u64,
    pub next_client: u64,
}

pub struct DomainView {
    pub sessions: Map<u64, SessionView>,
    pub windows: Map<u64, WindowView>,
    pub panes: Map<u64, PaneView>,
    pub next_session: u64,
    pub next_window: u64,
    pub next_pane: u64,
    pub next_client: u64,
}

impl View for Domain {
    type V = DomainView;

    open spec fn view(&self) -> DomainView {
        DomainView {
            sessions: views(self.sessions@),
            windows: views(self.windows@),
            panes: views(self.panes@),
            next_session: self.next_session,
            next_window: self.next_window,
            next_pane: self.next_pane,
            next_client: self.next_client,
        }
    }
}

impl DomainView {
    /// The session of a window, the panes of a window and the window of a pane
    /// agree; ids are positive and below the next one to be minted.
    pub open spec fn wf(self) -> bool {
        &&& forall|s: u64| #[trigger]
            self.sessions.contains_key(s) ==> 0 < s < self.next_session
                && self.sessions[s].windows.no_duplicates()
        &&& forall|w: u64| #[trigger]
            self.windows.contains_key(w) ==> 0 < w < self.next_window
                && self.windows[w].layout.leaves().no_duplicates() && self.sessions.contains_key(
                self.windows[w].session,
            ) && self.sessions[self.windows[w].session].windows.contains(w)
        &&& forall|s: u64, w: u64|
            #![trigger self.sessions[s].windows.contains(w)]
            self.sessions.contains_key(s) && self.sessions[s].windows.contains(w)
                ==> self.windows.contains_key(w) && self.windows[w].session == s
        &&& forall|p: u64| #[trigger]
            self.panes.contains_key(p) ==> 0 < p < self.next_pane && self.windows.contains_key(
                self.panes[p].window,
            ) && self.windows[self.panes[p].window].layout.leaves().contains(p)
        &&& forall|w: u64, p: u64|
            #![trigger self.windows[w].layout.leaves().contains(p)]
            self.windows.contains_key(w) && self.windows[w].layout.leaves().contains(p)
                ==> self.panes.contains_key(p) && self.panes[p].window == w
        &&& 0 < self.next_client
        &&& 0 < self.next_session
        &&& 0 < self.next_window
        &&& 0 < self.next_pane
    }

    /// Panes whose lease a client holds.
    pub open spec fn held_by(self, client: u64) -> Set<u64> {
        Set::new(|p: u64| self.panes.contains_key(p) && self.panes[p].controller == Some(client))
    }

    pub open spec fn with_controller(self, pane: u64, controller: Option<u64>) -> DomainView {
        DomainView {
            panes: self.panes.insert(pane, PaneView { controller, ..self.panes[pane] }),
            ..self
        }
    }

    pub open spec fn acquire_fault(self, pane: u64, client: u64) -> Option<DomainError> {
        if !self.panes.contains_key(pane) {
            Some(DomainError::UnknownPane(pane))
        } else {
            match self.panes[pane].controller {
                Some(holder) => if holder != client {
                    Some(DomainError::LeaseHeld { holder })
                } else {
                    None
                },
                None => None,
            }
        }
    }

    /// Why a client does not hold the lease of a pane.
    pub open spec fn holder_fault(self, pane: u64, client: u64) -> Option<DomainError> {
        if !self.panes.contains_key(pane) {
            Some(DomainError::UnknownPane(pane))
        } else if self.panes[pane].controller != Some(client) {
            Some(DomainError::NotController { holder: self.panes[pane].controller })
        } else {
            None
        }
    }

    /// Why a client may not write: somebody else holds the lease.
    pub open spec fn write_fault(self, pane: u64, client: u64) -> Option<DomainError> {
        if !self.panes.contains_key(pane) {
            Some(DomainError::UnknownPane(pane))
        } else if self.panes[pane].controller is Some && self.panes[pane].controller != Some(
            client,
        ) {
            Some(DomainError::NotController { holder: self.panes[pane].controller })
        } else {
            None
        }
    }

    pub open spec fn release_all(self, client: u64) -> DomainView {
        DomainView {
            panes: Map::new(
                |p: u64| self.panes.contains_key(p),
                |p: u64|
                    if self.panes[p].controller == Some(client) {
                        PaneView { controller: None, ..self.panes[p] }
                    } else {
                        self.panes[p]
                    },
            ),
            ..self
        }
    }
}

/// Outcome of an operation that may be refused without effect.
pub open spec fn refused(fault: Option<DomainError>, r: Result<(), DomainError>) -> bool {
    match fault {
        Some(error) => r == Err::<(), DomainError>(error),
        None => r is Ok,
    }
}

impl Domain {
    pub fn has_pane(&self, pane: u64) -> (r: bool)
        ensures
            r == self@.panes.contains_key(pane),
    {
        self.panes.contains_key(pane)
    }

    pub fn has_window(&self, window: u64) -> (r: bool)
        ensures
            r == self@.windows.contains_key(window),
    {
        self.windows.contains_key(window)
    }

    pub fn has_session(&self, session: u64) -> (r: bool)
        ensures
            r == self@.sessions.contains_key(session),
    {
        self.sessions.contains_key(session)
    }

    pub fn controller(&self, pane: u64) -> (r: Result<Option<u64>, DomainError>)
        ensures
            match r {
                Ok(controller) => self@.panes.contains_key(pane) && controller
                    == self@.panes[pane].controller,
                Err(error) => !self@.panes.contains_key(pane) && error == DomainError::UnknownPane(
                    pane,
                ),
            },
    {
        match self.panes.get(pane) {
            Some(p) => Ok(p.controller),
            None => Err(DomainError::UnknownPane(pane)),
        }
    }

    /// Sets the lease holder of an existing pane.
    fn put_controller(&mut self, pane: u64, controller: Option<u64>)
        requires
            old(self)@.panes.contains_key(pane),
        ensures
            final(self)@ == old(self)@.with_controller(pane, controller),
    {
        if let Some(mut p) = self.panes.remove(pane) {
            p.controller = controller;
            let _ = self.panes.insert(pane, p);
            assert(self@.panes =~= old(self)@.with_controller(pane, controller).panes);
        }
    }

    /// Takes a free lease; the holder may ask again.
    pub fn acquire_controller(&mut self, pane: u64, client: u64) -> (r: Result<(), DomainError>)
        ensures
            refused(old(self)@.acquire_fault(pane, client), r),
            r is Err ==> final(self)@ == old(self)@,
            r is Ok ==> final(self)@ == old(self)@.with_controller(pane, Some(client)),
    {
        match self.controller(pane) {
            Err(error) => Err(error),
            Ok(Some(holder)) => {
                if holder != client {
                    Err(DomainError::LeaseHeld { holder })
                } else {
                    self.put_controller(pane, Some(client));
                    Ok(())
                }
            },
            Ok(None) => {
                self.put_controller(pane, Some(client));
                Ok(())
            },
        }
    }

    /// Gives up a lease that the client holds.
    pub fn release_controller(&mut self, pane: u64, client: u64) -> (r: Result<(), DomainError>)
        ensures
            refused(old(self)@.holder_fault(pane, client), r),
            r is Err ==> final(self)@ == old(self)@,
            r is Ok ==> final(self)@ == old(self)@.with_controller(pane, None),
    {
        match self.require_controller(pane, client) {
            Err(error) => Err(error),
            Ok(()) => {
                self.put_controller(pane, None);
                Ok(())
            },
        }
    }

    /// Takes a lease whoever holds it, and returns the former holder.
    pub fn takeover_controller(&mut self, pane: u64, client: u64) -> (r: Result<
        Option<u64>,
        DomainError,
    >)
        ensures
            match r {
                Ok(previous) => old(self)@.panes.contains_key(pane) && previous
                    == old(self)@.panes[pane].controller && final(self)@
                    == old(self)@.with_controller(pane, Some(client)),
                Err(error) => !old(self)@.panes.contains_key(pane) && error
                    == DomainError::UnknownPane(pane) && final(self)@ == old(self)@,
            },
    {
        match self.controller(pane) {
            Err(error) => Err(error),
            Ok(previous) => {
                self.put_controller(pane, Some(client));
                Ok(previous)
            },
        }
    }

    pub fn require_controller(&self, pane: u64, client: u64) -> (r: Result<(), DomainError>)
        ensures
            refused(self@.holder_fault(pane, client), r),
    {
        match self.controller(pane) {
            Err(error) => Err(error),
            Ok(Some(holder)) => {
                if holder == client {
                    Ok(())
                } else {
                    Err(DomainError::NotController { holder: Some(holder) })
                }
            },
            Ok(None) => Err(DomainError::NotController { holder: None }),
        }
    }

    /// The holder may write, and anybody may while there is no holder.
    pub fn allow_write(&self, pane: u64, client: u64) -> (r: Result<(), DomainError>)
        ensures
            refused(self@.write_fault(pane, client), r),
    {
        match self.controller(pane) {
            Err(error) => Err(error),
            Ok(Some(holder)) => {
                if holder == client {
                    Ok(())
                } else {
                    Err(DomainError::NotController { holder: Some(holder) })
                }
            },
            Ok(None) => Ok(()),
        }
    }

    /// Gives up every lease of a client and returns the panes, by ascending id.
    pub fn release_all_controller_leases(&mut self, client: u64) -> (released: Vec<u64>)
        ensures
            final(self)@ == old(self)@.release_all(client),
            lists_ids(released@, old(self)@.held_by(client)),
    {
        let ids: Vec<u64> = self.panes.keys();
        let mut released: Vec<u64> = Vec::new();
        let mut i: usize = 0;
        let ghost before = self@;
        assert(before.panes.dom() == self.panes@.dom());
        while i < ids.len()
            invariant
                i <= ids@.len(),
                lists_ids(ids@, before.panes.dom()),
                before == old(self)@,
                self@ == (DomainView { panes: self@.panes, ..before }),
                self@.panes.dom() == before.panes.dom(),
                forall|k: int|
                    #![trigger ids@[k]]
                    0 <= k < ids@.len() ==> self@.panes[ids@[k]] == if k < i {
                        before.release_all(client).panes[ids@[k]]
                    } else {
                        before.panes[ids@[k]]
                    },
                crate::idmap::ascending(released@),
                forall|x: int|
                    0 <= x < released@.len() ==> before.held_by(client).contains(
                        #[trigger] released@[x],
                    ) && (exists|k: int| 0 <= k < i && ids@[k] == released@[x]),
                forall|k: int|
                    0 <= k < i && before.panes[#[trigger] ids@[k]].controller == Some(client)
                        ==> released@.contains(ids@[k]),
            decreases ids@.len() - i,
        {
            let pane: u64 = ids[i];
            assert(ids@.contains(pane));
            assert(self@.panes.contains_key(pane));
            let ghost listed = released@;
            match self.controller(pane) {
                Ok(Some(holder)) => {
                    if holder == client {
                        self.put_controller(pane, None);
                        released.push(pane);
                        proof {
                            assert(self@.panes.dom() =~= before.panes.dom());
                            assert forall|a: int, b: int|
                                0 <= a < b < released@.len() implies released@[a]
                                < released@[b] by {
                                if b == listed.len() {
                                    assert(released@[a] == listed[a]);
                                    let k = choose|k: int| 0 <= k < i && ids@[k] == listed[a];
                                    assert(ids@[k] < ids@[i as int]);
                                }
                            }
                            assert forall|x: int|
                                0 <= x < released@.len() implies before.held_by(client).contains(
                                #[trigger] released@[x],
                            ) && (exists|k: int| 0 <= k < i + 1 && ids@[k] == released@[x]) by {
                                if x < listed.len() {
                                    assert(released@[x] == listed[x]);
                                    let k = choose|k: int| 0 <= k < i && ids@[k] == listed[x];
                                    assert(ids@[k] == released@[x]);
                                } else {
                                    assert(ids@[i as int] == released@[x]);
                                }
                            }
                            assert forall|k: int|
                                0 <= k < i + 1 && before.panes[#[trigger] ids@[k]].controller
                                    == Some(client) implies released@.contains(ids@[k]) by {
                                if k < i {
                                    assert(listed.contains(ids@[k]));
                                    let x = choose|x: int|
                                        0 <= x < listed.len() && listed[x] == ids@[k];
                                    assert(released@[x] == ids@[k]);
                                } else {
                                    assert(released@[listed.len() as int] == ids@[k]);
                                }
                            }
                        }
                    }
                },
                _ => {},
            }
            proof {
                assert forall|k: int|
                    #![trigger ids@[k]]
                    0 <= k < ids@.len() implies self@.panes[ids@[k]] == if k < i + 1 {
                    before.release_all(client).panes[ids@[k]]
                } else {
                    before.panes[ids@[k]]
                } by {
                    if k != i {
                        assert(ids@[k] != ids@[i as int]) by {
                            if k < i {
                                assert(ids@[k] < ids@[i as int]);
                            } else {
                                assert(ids@[i as int] < ids@[k]);
                            }
                        }
                    }
                    assert(before.panes.dom().contains(ids@[k])) by {
                        assert(ids@.contains(ids@[k]));
                    }
                }
                if released@ == listed {
                    assert forall|x: int|
                        0 <= x < released@.len() implies before.held_by(client).contains(
                        #[trigger] released@[x],
                    ) && (exists|k: int| 0 <= k < i + 1 && ids@[k] == released@[x]) by {
                        let k = choose|k: int| 0 <= k < i && ids@[k] == listed[x];
                        assert(ids@[k] == released@[x]);
                    }
                }
            }
            i = i + 1;
        }
        proof {
            assert(self@.panes =~= before.release_all(client).panes) by {
                assert forall|p: u64| #[trigger]
                    before.panes.contains_key(p) implies self@.panes[p] == before.release_all(
                    client,
                ).panes[p] by {
                    assert(before.panes.dom().contains(p));
                    assert(ids@.contains(p));
                    let k = choose|k: int| 0 <= k < ids@.len() && ids@[k] == p;
                    assert(self@.panes[ids@[k]] == before.release_all(client).panes[ids@[k]]);
                }
            }
            assert forall|p: u64| #[trigger]
                before.held_by(client).contains(p) <==> released@.contains(p) by {
                if before.held_by(client).contains(p) {
                    assert(before.panes.dom().contains(p));
                    let k = choose|k: int| 0 <= k < ids@.len() && ids@[k] == p;
                    assert(before.panes[ids@[k]].controller == Some(client));
                }
                if released@.contains(p) {
                    let x = choose|x: int| 0 <= x < released@.len() && released@[x] == p;
                    assert(before.held_by(client).contains(released@[x]));
                }
            }
        }
        released
    }

    /// A fresh client identity.
    pub fn mint_client(&mut self) -> (r: Result<u64, DomainError>)
        ensures
            old(self)@.next_client == u64::MAX ==> r == Err::<u64, DomainError>(
                DomainError::IdSpaceExhausted,
            ) && final(self)@ == old(self)@,
            old(self)@.next_client < u64::MAX ==> r == Ok::<u64, DomainError>(
                old(self)@.next_client,
            ) && final(self)@ == (DomainView {
                next_client: (old(self)@.next_client + 1) as u64,
                ..old(self)@
            }),
    {
        if self.next_client == u64::MAX {
            return Err(DomainError::IdSpaceExhausted);
        }
        let client: u64 = self.next_client;
        self.next_client = self.next_client + 1;
        Ok(client)
    }
}

/// `a` holds the ids of `b`, each once, in any order.
pub open spec fn relists(a: Seq<u64>, b: Seq<u64>) -> bool {
    &&& a.no_duplicates()
    &&& forall|x: u64| a.contains(x) <==> b.contains(x)
}

pub fn relists_ids(a: &Vec<u64>, b: &Vec<u64>) -> (r: bool)
    ensures
        r == relists(a@, b@),
{
    let mut i: usize = 0;
    while i < a.len()
        invariant
            i <= a@.len(),
            forall|x: int, y: int| 0 <= x < y < i ==> a@[x] != a@[y],
            forall|x: int| 0 <= x < i ==> b@.contains(#[trigger] a@[x]),
        decreases a@.len() - i,
    {
        if !contains_id(b, a[i]) {
            assert(a@.contains(a@[i as int]));
            return false;
        }
        let mut j: usize = 0;
        while j < i
            invariant
                j <= i < a@.len(),
                forall|x: int| 0 <= x < j ==> a@[x] != a@[i as int],
            decreases i - j,
        {
            if a[j] == a[i] {
                return false;
            }
            j = j + 1;
        }
        i = i + 1;
    }
    let mut k: usize = 0;
    while k < b.len()
        invariant
            k <= b@.len(),
            forall|x: int| 0 <= x < k ==> a@.contains(#[trigger] b@[x]),
        decreases b@.len() - k,
    {
        if !contains_id(a, b[k]) {
            assert(b@.contains(b@[k as int]));
            return false;
        }
        k = k + 1;
    }
    assert forall|x: u64| a@.contains(x) <==> b@.contains(x) by {
        if a@.contains(x) {
            let n = choose|n: int| 0 <= n < a@.len() && a@[n] == x;
            assert(b@.contains(a@[n]));
        }
        if b@.contains(x) {
            let n = choose|n: int| 0 <= n < b@.len() && b@[n] == x;
            assert(a@.contains(b@[n]));
        }
    }
    true
}

impl DomainView {
    /// Whether a session other than `except` is bound to an agent.
    pub open spec fn agent_taken(self, agent: Seq<char>, except: u64) -> bool {
        exists|s: u64|
            #![trigger self.sessions.contains_key(s)]
            self.sessions.contains_key(s) && s != except && self.sessions[s].agent_id == Some(agent)
    }

    pub open spec fn name_taken(self, name: Seq<char>, except: u64) -> bool {
        exists|s: u64|
            #![trigger self.sessions.contains_key(s)]
            self.sessions.contains_key(s) && s != except && self.sessions[s].name == name
    }

    /// No two sessions share a name, and no two are bound to one agent.
    pub open spec fn names_apart(self) -> bool {
        forall|s: u64, t: u64|
            #![trigger self.sessions.contains_key(s), self.sessions.contains_key(t)]
            self.sessions.contains_key(s) && self.sessions.contains_key(t) && s != t
                ==> self.sessions[s].name != self.sessions[t].name && (self.sessions[s].agent_id
                is None || self.sessions[s].agent_id != self.sessions[t].agent_id)
    }

    pub open spec fn create_session_fault(self, agent: Option<Seq<char>>) -> Option<DomainError> {
        if self.next_session == u64::MAX {
            Some(DomainError::IdSpaceExhausted)
        } else if agent is Some && self.agent_taken(agent->0, 0) {
            Some(DomainError::AgentIdInUse)
        } else {
            None
        }
    }

    /// A new session without windows.
    pub open spec fn create_session(
        self,
        name: Seq<char>,
        agent_id: Option<Seq<char>>,
    ) -> DomainView {
        DomainView {
            sessions: self.sessions.insert(
                self.next_session,
                SessionView { name, agent_id, space_id: None, windows: Seq::empty() },
            ),
            next_session: (self.next_session + 1) as u64,
            ..self
        }
    }

    pub open spec fn create_window_fault(self, session: u64) -> Option<DomainError> {
        if !self.sessions.contains_key(session) {
            Some(DomainError::UnknownSession(session))
        } else if self.next_window == u64::MAX || self.next_pane == u64::MAX {
            Some(DomainError::IdSpaceExhausted)
        } else {
            None
        }
    }

    pub open spec fn with_windows(self, session: u64, windows: Seq<u64>) -> DomainView {
        DomainView {
            sessions: self.sessions.insert(
                session,
                SessionView { windows, ..self.sessions[session] },
            ),
            ..self
        }
    }

    pub open spec fn with_layout(self, window: u64, layout: PaneLayout) -> DomainView {
        DomainView {
            windows: self.windows.insert(window, WindowView { layout, ..self.windows[window] }),
            ..self
        }
    }

    /// A new window at the end of its session, with one new pane.
    pub open spec fn create_window(self, session: u64, title: Seq<char>) -> DomainView {
        let window = self.next_window;
        let pane = self.next_pane;
        DomainView {
            windows: self.windows.insert(
                window,
                WindowView {
                    session,
                    title,
                    layout: PaneLayout::Leaf { pane_id: pane },
                    sync_input: false,
                },
            ),
            panes: self.panes.insert(
                pane,
                PaneView { window, title: Seq::empty(), title_pinned: false, controller: None },
            ),
            next_window: (window + 1) as u64,
            next_pane: (pane + 1) as u64,
            ..self
        }.with_windows(session, self.sessions[session].windows.push(window))
    }

    /// Without a session, its windows and their panes.
    pub open spec fn destroy_session(self, session: u64) -> DomainView {
        DomainView {
            sessions: self.sessions.remove(session),
            windows: Map::new(
                |w: u64| self.windows.contains_key(w) && self.windows[w].session != session,
                |w: u64| self.windows[w],
            ),
            panes: Map::new(
                |p: u64|
                    self.panes.contains_key(p) && self.windows[self.panes[p].window].session
                        != session,
                |p: u64| self.panes[p],
            ),
            ..self
        }
    }

    /// Takes a window out of its session; a session without windows goes too.
    pub open spec fn detach_window(self, window: u64) -> DomainView {
        let session = self.windows[window].session;
        let rest = without_id(self.sessions[session].windows, window);
        let base = DomainView { windows: self.windows.remove(window), ..self };
        if rest.len() == 0 {
            DomainView { sessions: self.sessions.remove(session), ..base }
        } else {
            base.with_windows(session, rest)
        }
    }

    /// Without a window and its panes.
    pub open spec fn destroy_window(self, window: u64) -> DomainView {
        DomainView {
            panes: Map::new(
                |p: u64| self.panes.contains_key(p) && self.panes[p].window != window,
                |p: u64| self.panes[p],
            ),
            ..self.detach_window(window)
        }
    }

    /// After a pane was added and taken back: its number is used up.
    pub open spec fn pane_undone(self) -> DomainView {
        DomainView { next_pane: (self.next_pane + 1) as u64, ..self }
    }

    /// After a window was created and taken back: the numbers are used up. Its session
    /// stays, also where it has no other window.
    pub open spec fn window_undone(self) -> DomainView {
        DomainView {
            next_window: (self.next_window + 1) as u64,
            next_pane: (self.next_pane + 1) as u64,
            ..self
        }
    }

    /// After a session was created and destroyed again.
    pub open spec fn session_undone(self) -> DomainView {
        DomainView { next_session: (self.next_session + 1) as u64, ..self }
    }

    /// A new pane in a window, whose tree becomes `layout`.
    pub open spec fn add_pane(self, window: u64, layout: PaneLayout) -> DomainView {
        DomainView {
            panes: self.panes.insert(
                self.next_pane,
                PaneView { window, title: Seq::empty(), title_pinned: false, controller: None },
            ),
            next_pane: (self.next_pane + 1) as u64,
            ..self.with_layout(window, layout)
        }
    }

    pub open spec fn remove_pane(self, pane: u64, layout: PaneLayout) -> DomainView {
        DomainView {
            panes: self.panes.remove(pane),
            ..self.with_layout(self.panes[pane].window, layout)
        }
    }

    /// The source window after a pane left: its tree, or no window at all.
    pub open spec fn shrink_window(self, window: u64, rest: Option<PaneLayout>) -> DomainView {
        match rest {
            Some(layout) => self.with_layout(window, layout),
            None => self.detach_window(window),
        }
    }

    /// A pane goes over to another window.
    pub open spec fn move_pane(
        self,
        pane: u64,
        to: u64,
        rest: Option<PaneLayout>,
        layout: PaneLayout,
    ) -> DomainView {
        DomainView {
            panes: self.panes.insert(pane, PaneView { window: to, ..self.panes[pane] }),
            ..self.with_layout(to, layout)
        }.shrink_window(self.panes[pane].window, rest)
    }

    /// A new window of `session` that takes a pane over.
    pub open spec fn open_window_with_pane(
        self,
        session: u64,
        title: Seq<char>,
        pane: u64,
        rest: Option<PaneLayout>,
    ) -> DomainView {
        let window = self.next_window;
        let from = self.panes[pane].window;
        DomainView {
            windows: self.windows.insert(
                window,
                WindowView {
                    session,
                    title,
                    layout: PaneLayout::Leaf { pane_id: pane },
                    sync_input: false,
                },
            ),
            panes: self.panes.insert(pane, PaneView { window, ..self.panes[pane] }),
            next_window: (window + 1) as u64,
            ..self
        }.with_windows(session, self.sessions[session].windows.push(window)).shrink_window(
            from,
            rest,
        )
    }

    pub open spec fn with_agent(self, session: u64, agent_id: Option<Seq<char>>) -> DomainView {
        DomainView {
            sessions: self.sessions.insert(
                session,
                SessionView { agent_id, ..self.sessions[session] },
            ),
            ..self
        }
    }

    pub open spec fn name_session_fault(self, session: u64, name: Seq<char>) -> Option<
        DomainError,
    > {
        if !self.sessions.contains_key(session) {
            Some(DomainError::UnknownSession(session))
        } else if self.agent_taken(name, session) {
            Some(DomainError::AgentIdInUse)
        } else if self.name_taken(name, session) {
            Some(DomainError::InvalidName)
        } else {
            None
        }
    }

    /// A session takes a name and is bound to the agent of that name.
    pub open spec fn name_session(self, session: u64, name: Seq<char>) -> DomainView {
        DomainView {
            sessions: self.sessions.insert(
                session,
                SessionView { name, agent_id: Some(name), ..self.sessions[session] },
            ),
            ..self
        }
    }

    pub open spec fn rename_window_fault(self, window: u64, title: Seq<char>) -> Option<
        DomainError,
    > {
        if !self.windows.contains_key(window) {
            Some(DomainError::UnknownWindow(window))
        } else if trimmed(title).len() == 0 {
            Some(DomainError::EmptyName)
        } else if byte_count(trimmed(title)) > 64 || trimmed(title).contains('\0') {
            Some(DomainError::InvalidName)
        } else {
            None
        }
    }

    pub open spec fn rename_window(self, window: u64, title: Seq<char>) -> DomainView {
        DomainView {
            windows: self.windows.insert(
                window,
                WindowView { title: trimmed(title), ..self.windows[window] },
            ),
            ..self
        }
    }

    pub open spec fn with_sync_input(self, window: u64, sync_input: bool) -> DomainView {
        DomainView {
            windows: self.windows.insert(window, WindowView { sync_input, ..self.windows[window] }),
            ..self
        }
    }

    /// A non-empty title pins; an empty one clears.
    pub open spec fn rename_pane(self, pane: u64, title: Seq<char>) -> DomainView {
        DomainView {
            panes: self.panes.insert(
                pane,
                PaneView { title, title_pinned: title.len() > 0, ..self.panes[pane] },
            ),
            ..self
        }
    }

    /// First reason that keeps sessions from changing their Space.
    pub open spec fn transfer_fault(self, ids: Seq<u64>, from: Option<Seq<char>>) -> Option<
        DomainError,
    >
        decreases ids.len(),
    {
        if ids.len() == 0 {
            None
        } else {
            match self.transfer_fault(ids.drop_last(), from) {
                Some(error) => Some(error),
                None => if !self.sessions.contains_key(ids.last()) {
                    Some(DomainError::UnknownSession(ids.last()))
                } else if self.sessions[ids.last()].space_id != from {
                    Some(DomainError::SpaceOwnerMismatch)
                } else {
                    None
                },
            }
        }
    }

    pub open spec fn transfer_sessions(self, ids: Seq<u64>, to: Option<Seq<char>>) -> DomainView {
        DomainView {
            sessions: Map::new(
                |s: u64| self.sessions.contains_key(s),
                |s: u64|
                    if ids.contains(s) {
                        SessionView { space_id: to, ..self.sessions[s] }
                    } else {
                        self.sessions[s]
                    },
            ),
            ..self
        }
    }
}

impl Domain {
    /// An empty domain.
    pub fn new() -> (d: Self)
        ensures
            d@ == (DomainView {
                sessions: Map::empty(),
                windows: Map::empty(),
                panes: Map::empty(),
                next_session: 1,
                next_window: 1,
                next_pane: 1,
                next_client: 1,
            }),
            d@.wf(),
    {
        Domain {
            sessions: IdMap::new(),
            windows: IdMap::new(),
            panes: IdMap::new(),
            next_session: 1,
            next_window: 1,
            next_pane: 1,
            next_client: 1,
        }
    }

    /// Whether a session other than `except` is bound to an agent.
    pub fn agent_taken(&self, agent: &str, except: u64) -> (r: bool)
        ensures
            r == self@.agent_taken(agent@, except),
    {
        let ids: Vec<u64> = self.sessions.keys();
        let mut i: usize = 0;
        while i < ids.len()
            invariant
                i <= ids@.len(),
                lists_ids(ids@, self.sessions@.dom()),
                forall|k: int|
                    0 <= k < i ==> !(ids@[k] != except && self@.sessions[#[trigger] ids@[k]].agent_id
                        == Some(agent@)),
            decreases ids@.len() - i,
        {
            let id: u64 = ids[i];
            assert(ids@.contains(id));
            if id != except {
                if let Some(session) = self.sessions.get(id) {
                    if let Some(bound) = &session.agent_id {
                        if same_text(bound.as_str(), agent) {
                            assert(self@.sessions.contains_key(id));
                            return true;
                        }
                    }
                }
            }
            i = i + 1;
        }
        assert forall|s: u64| #[trigger]
            self@.sessions.contains_key(s) && s != except implies self@.sessions[s].agent_id
            != Some(agent@) by {
            assert(self.sessions@.dom().contains(s));
            let k = choose|k: int| 0 <= k < ids@.len() && ids@[k] == s;
            assert(ids@[k] == s);
        }
        false
    }

    pub fn name_taken(&self, name: &str, except: u64) -> (r: bool)
        ensures
            r == self@.name_taken(name@, except),
    {
        let ids: Vec<u64> = self.sessions.keys();
        let mut i: usize = 0;
        while i < ids.len()
            invariant
                i <= ids@.len(),
                lists_ids(ids@, self.sessions@.dom()),
                forall|k: int|
                    0 <= k < i ==> !(ids@[k] != except && self@.sessions[#[trigger] ids@[k]].name
                        == name@),
            decreases ids@.len() - i,
        {
            let id: u64 = ids[i];
            assert(ids@.contains(id));
            if id != except {
                if let Some(session) = self.sessions.get(id) {
                    if same_text(session.name.as_str(), name) {
                        assert(self@.sessions.contains_key(id));
                        return true;
                    }
                }
            }
            i = i + 1;
        }
        assert forall|s: u64| #[trigger]
            self@.sessions.contains_key(s) && s != except implies self@.sessions[s].name
            != name@ by {
            assert(self.sessions@.dom().contains(s));
            let k = choose|k: int| 0 <= k < ids@.len() && ids@[k] == s;
            assert(ids@[k] == s);
        }
        false
    }

    pub fn check_create_session(&self, agent: &Option<String>) -> (r: Result<(), DomainError>)
        ensures
            refused(self@.create_session_fault(option_text(*agent)), r),
    {
        if self.next_session == u64::MAX {
            return Err(DomainError::IdSpaceExhausted);
        }
        if let Some(name) = agent {
            if self.agent_taken(name.as_str(), 0) {
                return Err(DomainError::AgentIdInUse);
            }
        }
        Ok(())
    }

    pub fn create_session(&mut self, name: &str, agent_id: &Option<String>) -> (id: u64)
        requires
            old(self)@.next_session < u64::MAX,
        ensures
            id == old(self)@.next_session,
            final(self)@ == old(self)@.create_session(name@, option_text(*agent_id)),
    {
        let id: u64 = self.next_session;
        let session = Session {
            name: String::from_str(name),
            agent_id: clone_option_text(agent_id),
            space_id: None,
            windows: Vec::new(),
        };
        let _ = self.sessions.insert(id, session);
        self.next_session = id + 1;
        id
    }

    /// Uses up the number of a pane.
    pub fn undo_pane(&mut self)
        requires
            old(self)@.next_pane < u64::MAX,
        ensures
            final(self)@ == old(self)@.pane_undone(),
    {
        self.next_pane = self.next_pane + 1;
    }

    /// Uses up the numbers of a window and its pane.
    pub fn undo_window(&mut self)
        requires
            old(self)@.next_window < u64::MAX,
            old(self)@.next_pane < u64::MAX,
        ensures
            final(self)@ == old(self)@.window_undone(),
    {
        self.next_window = self.next_window + 1;
        self.next_pane = self.next_pane + 1;
    }

    /// Uses up the number of a session.
    pub fn undo_session(&mut self)
        requires
            old(self)@.next_session < u64::MAX,
        ensures
            final(self)@ == old(self)@.session_undone(),
    {
        self.next_session = self.next_session + 1;
    }

    pub fn check_create_window(&self, session: u64) -> (r: Result<(), DomainError>)
        ensures
            refused(self@.create_window_fault(session), r),
    {
        if !self.sessions.contains_key(session) {
            return Err(DomainError::UnknownSession(session));
        }
        if self.next_window == u64::MAX || self.next_pane == u64::MAX {
            return Err(DomainError::IdSpaceExhausted);
        }
        Ok(())
    }

    fn put_windows(&mut self, session: u64, windows: Vec<u64>)
        requires
            old(self)@.sessions.contains_key(session),
        ensures
            final(self)@ == old(self)@.with_windows(session, windows@),
    {
        if let Some(mut s) = self.sessions.remove(session) {
            s.windows = windows;
            let _ = self.sessions.insert(session, s);
            assert(self@.sessions =~= old(self)@.with_windows(session, windows@).sessions);
        }
    }

    fn put_layout(&mut self, window: u64, layout: PaneLayout)
        requires
            old(self)@.windows.contains_key(window),
        ensures
            final(self)@ == old(self)@.with_layout(window, layout),
    {
        if let Some(mut w) = self.windows.remove(window) {
            w.layout = layout;
            let _ = self.windows.insert(window, w);
            assert(self@.windows =~= old(self)@.with_layout(window, layout).windows);
        }
    }

    pub fn set_layout(&mut self, window: u64, layout: PaneLayout)
        requires
            old(self)@.windows.contains_key(window),
        ensures
            final(self)@ == old(self)@.with_layout(window, layout),
    {
        self.put_layout(window, layout);
    }

    pub fn create_window(&mut self, session: u64, title: &str) -> (r: (u64, u64))
        requires
            old(self)@.create_window_fault(session) is None,
        ensures
            r == (old(self)@.next_window, old(self)@.next_pane),
            final(self)@ == old(self)@.create_window(session, title@),
    {
        let window: u64 = self.next_window;
        let pane: u64 = self.next_pane;
        let ghost before = self@;
        let mut windows: Vec<u64> = match self.sessions.get(session) {
            Some(s) => clone_ids(&s.windows),
            None => Vec::new(),
        };
        windows.push(window);
        let _ = self.windows.insert(
            window,
            Window {
                session,
                title: String::from_str(title),
                layout: PaneLayout::Leaf { pane_id: pane },
                sync_input: false,
            },
        );
        let _ = self.panes.insert(pane, fresh_pane(window));
        self.next_window = window + 1;
        self.next_pane = pane + 1;
        self.put_windows(session, windows);
        (window, pane)
    }

    fn drop_panes_of_window(&mut self, window: u64)
        ensures
            final(self)@ == (DomainView {
                panes: Map::new(
                    |p: u64| old(self)@.panes.contains_key(p) && old(self)@.panes[p].window != window,
                    |p: u64| old(self)@.panes[p],
                ),
                ..old(self)@
            }),
    {
        let ids: Vec<u64> = self.panes.keys();
        let mut i: usize = 0;
        let ghost before = self@;
        assert(before.panes.dom() == self.panes@.dom());
        while i < ids.len()
            invariant
                i <= ids@.len(),
                lists_ids(ids@, before.panes.dom()),
                before == old(self)@,
                self@ == (DomainView { panes: self@.panes, ..before }),
                forall|p: u64| #[trigger]
                    self@.panes.contains_key(p) ==> before.panes.contains_key(p) && self@.panes[p]
                        == before.panes[p],
                forall|p: u64| #[trigger]
                    before.panes.contains_key(p) && before.panes[p].window != window
                        ==> self@.panes.contains_key(p),
                forall|k: int|
                    0 <= k < i && before.panes[#[trigger] ids@[k]].window == window
                        ==> !self@.panes.contains_key(ids@[k]),
            decreases ids@.len() - i,
        {
            let id: u64 = ids[i];
            let doomed: bool = match self.panes.get(id) {
                Some(p) => p.window == window,
                None => false,
            };
            assert(ids@.contains(id));
            assert(before.panes.contains_key(id));
            if doomed {
                let _ = self.panes.remove(id);
            }
            i = i + 1;
        }
        proof {
            let goal = Map::new(
                |p: u64| before.panes.contains_key(p) && before.panes[p].window != window,
                |p: u64| before.panes[p],
            );
            assert forall|p: u64| #[trigger]
                before.panes.contains_key(p) && before.panes[p].window
                    == window implies !self@.panes.contains_key(p) by {
                assert(before.panes.dom().contains(p));
                let k = choose|k: int| 0 <= k < ids@.len() && ids@[k] == p;
                assert(before.panes[ids@[k]].window == window);
            }
            assert(self@.panes =~= goal);
        }
    }

    /// Takes a window out of its session; a session without windows goes too.
    fn detach_window(&mut self, window: u64)
        requires
            old(self)@.windows.contains_key(window),
            old(self)@.sessions.contains_key(old(self)@.windows[window].session),
        ensures
            final(self)@ == old(self)@.detach_window(window),
    {
        let ghost before = self@;
        if let Some(w) = self.windows.remove(window) {
            let session: u64 = w.session;
            let rest: Vec<u64> = match self.sessions.get(session) {
                Some(s) => drop_id(&s.windows, window),
                None => Vec::new(),
            };
            if rest.len() == 0 {
                let _ = self.sessions.remove(session);
            } else {
                self.put_windows(session, rest);
            }
        }
    }

    pub fn destroy_window(&mut self, window: u64)
        requires
            old(self)@.windows.contains_key(window),
            old(self)@.sessions.contains_key(old(self)@.windows[window].session),
        ensures
            final(self)@ == old(self)@.destroy_window(window),
    {
        self.detach_window(window);
        self.drop_panes_of_window(window);
    }

    pub fn destroy_session(&mut self, session: u64)
        requires
            old(self)@.wf(),
        ensures
            final(self)@ == old(self)@.destroy_session(session),
    {
        let ids: Vec<u64> = self.panes.keys();
        let mut i: usize = 0;
        let ghost before = self@;
        assert(before.panes.dom() == self.panes@.dom());
        while i < ids.len()
            invariant
                i <= ids@.len(),
                lists_ids(ids@, before.panes.dom()),
                before == old(self)@,
                before.wf(),
                self@ == (DomainView { panes: self@.panes, ..before }),
                forall|p: u64| #[trigger]
                    self@.panes.contains_key(p) ==> before.panes.contains_key(p) && self@.panes[p]
                        == before.panes[p],
                forall|p: u64| #[trigger]
                    before.panes.contains_key(p) && before.windows[before.panes[p].window].session
                        != session ==> self@.panes.contains_key(p),
                forall|k: int|
                    0 <= k < i && before.windows[before.panes[#[trigger] ids@[k]].window].session
                        == session ==> !self@.panes.contains_key(ids@[k]),
            decreases ids@.len() - i,
        {
            let id: u64 = ids[i];
            assert(ids@.contains(id));
            assert(before.panes.contains_key(id));
            let doomed: bool = match self.panes.get(id) {
                Some(p) => match self.windows.get(p.window) {
                    Some(w) => w.session == session,
                    None => false,
                },
                None => false,
            };
            if doomed {
                let _ = self.panes.remove(id);
            }
            i = i + 1;
        }
        proof {
            assert forall|p: u64| #[trigger]
                before.panes.contains_key(p) && before.windows[before.panes[p].window].session
                    == session implies !self@.panes.contains_key(p) by {
                assert(before.panes.dom().contains(p));
                let k = choose|k: int| 0 <= k < ids@.len() && ids@[k] == p;
                assert(before.windows[before.panes[ids@[k]].window].session == session);
            }
            assert(self@.panes =~= before.destroy_session(session).panes);
        }
        let wids: Vec<u64> = self.windows.keys();
        let mut j: usize = 0;
        assert(before.windows.dom() == self.windows@.dom());
        while j < wids.len()
            invariant
                j <= wids@.len(),
                lists_ids(wids@, before.windows.dom()),
                before == old(self)@,
                self@ == (DomainView {
                    panes: before.destroy_session(session).panes,
                    windows: self@.windows,
                    ..before
                }),
                forall|w: u64| #[trigger]
                    self@.windows.contains_key(w) ==> before.windows.contains_key(w)
                        && self@.windows[w] == before.windows[w],
                forall|w: u64| #[trigger]
                    before.windows.contains_key(w) && before.windows[w].session != session
                        ==> self@.windows.contains_key(w),
                forall|k: int|
                    0 <= k < j && before.windows[#[trigger] wids@[k]].session == session
                        ==> !self@.windows.contains_key(wids@[k]),
            decreases wids@.len() - j,
        {
            let id: u64 = wids[j];
            assert(wids@.contains(id));
            assert(before.windows.contains_key(id));
            let doomed: bool = match self.windows.get(id) {
                Some(w) => w.session == session,
                None => false,
            };
            if doomed {
                let _ = self.windows.remove(id);
            }
            j = j + 1;
        }
        proof {
            assert forall|w: u64| #[trigger]
                before.windows.contains_key(w) && before.windows[w].session
                    == session implies !self@.windows.contains_key(w) by {
                assert(before.windows.dom().contains(w));
                let k = choose|k: int| 0 <= k < wids@.len() && wids@[k] == w;
                assert(before.windows[wids@[k]].session == session);
            }
            assert(self@.windows =~= before.destroy_session(session).windows);
        }
        let _ = self.sessions.remove(session);
    }

    /// Adds the pane that `layout` makes room for, and returns its id.
    pub fn add_pane(&mut self, window: u64, layout: PaneLayout) -> (pane: u64)
        requires
            old(self)@.windows.contains_key(window),
            old(self)@.next_pane < u64::MAX,
        ensures
            pane == old(self)@.next_pane,
            final(self)@ == old(self)@.add_pane(window, layout),
    {
        let pane: u64 = self.next_pane;
        self.put_layout(window, layout);
        let _ = self.panes.insert(pane, fresh_pane(window));
        self.next_pane = pane + 1;
        pane
    }

    pub fn remove_pane(&mut self, pane: u64, layout: PaneLayout)
        requires
            old(self)@.wf(),
            old(self)@.panes.contains_key(pane),
        ensures
            final(self)@ == old(self)@.remove_pane(pane, layout),
    {
        if let Some(p) = self.panes.remove(pane) {
            self.put_layout(p.window, layout);
        }
    }

    fn put_pane_window(&mut self, pane: u64, window: u64)
        requires
            old(self)@.panes.contains_key(pane),
        ensures
            final(self)@ == (DomainView {
                panes: old(self)@.panes.insert(
                    pane,
                    PaneView { window, ..old(self)@.panes[pane] },
                ),
                ..old(self)@
            }),
    {
        if let Some(mut p) = self.panes.remove(pane) {
            p.window = window;
            let _ = self.panes.insert(pane, p);
            assert(self@.panes =~= old(self)@.panes.insert(
                pane,
                PaneView { window, ..old(self)@.panes[pane] },
            ));
        }
    }

    fn shrink_window(&mut self, window: u64, rest: Option<PaneLayout>)
        requires
            old(self)@.windows.contains_key(window),
            old(self)@.sessions.contains_key(old(self)@.windows[window].session),
        ensures
            final(self)@ == old(self)@.shrink_window(window, rest),
    {
        match rest {
            Some(layout) => self.put_layout(window, layout),
            None => self.detach_window(window),
        }
    }

    pub fn move_pane(
        &mut self,
        pane: u64,
        to: u64,
        rest: Option<PaneLayout>,
        layout: PaneLayout,
    )
        requires
            old(self)@.wf(),
            old(self)@.panes.contains_key(pane),
            old(self)@.windows.contains_key(to),
            old(self)@.panes[pane].window != to,
        ensures
            final(self)@ == old(self)@.move_pane(pane, to, rest, layout),
    {
        let from: u64 = match self.panes.get(pane) {
            Some(p) => p.window,
            None => to,
        };
        self.put_layout(to, layout);
        self.put_pane_window(pane, to);
        self.shrink_window(from, rest);
    }

    pub fn open_window_with_pane(
        &mut self,
        session: u64,
        title: &str,
        pane: u64,
        rest: Option<PaneLayout>,
    ) -> (window: u64)
        requires
            old(self)@.wf(),
            old(self)@.panes.contains_key(pane),
            old(self)@.sessions.contains_key(session),
            old(self)@.next_window < u64::MAX,
        ensures
            window == old(self)@.next_window,
            final(self)@ == old(self)@.open_window_with_pane(session, title@, pane, rest),
    {
        let window: u64 = self.next_window;
        let from: u64 = match self.panes.get(pane) {
            Some(p) => p.window,
            None => window,
        };
        let mut windows: Vec<u64> = match self.sessions.get(session) {
            Some(s) => clone_ids(&s.windows),
            None => Vec::new(),
        };
        windows.push(window);
        let _ = self.windows.insert(
            window,
            Window {
                session,
                title: String::from_str(title),
                layout: PaneLayout::Leaf { pane_id: pane },
                sync_input: false,
            },
        );
        self.put_pane_window(pane, window);
        self.next_window = window + 1;
        self.put_windows(session, windows);
        self.shrink_window(from, rest);
        window
    }

    pub fn set_agent_id(&mut self, session: u64, agent_id: &Option<String>)
        requires
            old(self)@.sessions.contains_key(session),
        ensures
            final(self)@ == old(self)@.with_agent(session, option_text(*agent_id)),
    {
        if let Some(mut s) = self.sessions.remove(session) {
            s.agent_id = clone_option_text(agent_id);
            let _ = self.sessions.insert(session, s);
            assert(self@.sessions =~= old(self)@.with_agent(
                session,
                option_text(*agent_id),
            ).sessions);
        }
    }

    pub fn check_name_session(&self, session: u64, name: &str) -> (r: Result<(), DomainError>)
        ensures
            refused(self@.name_session_fault(session, name@), r),
    {
        if !self.sessions.contains_key(session) {
            return Err(DomainError::UnknownSession(session));
        }
        if self.agent_taken(name, session) {
            return Err(DomainError::AgentIdInUse);
        }
        if self.name_taken(name, session) {
            return Err(DomainError::InvalidName);
        }
        Ok(())
    }

    pub fn name_session(&mut self, session: u64, name: &str)
        requires
            old(self)@.sessions.contains_key(session),
        ensures
            final(self)@ == old(self)@.name_session(session, name@),
    {
        if let Some(mut s) = self.sessions.remove(session) {
            s.name = String::from_str(name);
            s.agent_id = Some(String::from_str(name));
            let _ = self.sessions.insert(session, s);
            assert(self@.sessions =~= old(self)@.name_session(session, name@).sessions);
        }
    }

    pub fn rename_window(&mut self, window: u64, title: &str) -> (r: Result<(), DomainError>)
        ensures
            refused(old(self)@.rename_window_fault(window, title@), r),
            r is Err ==> final(self)@ == old(self)@,
            r is Ok ==> final(self)@ == old(self)@.rename_window(window, title@),
    {
        if !self.windows.contains_key(window) {
            return Err(DomainError::UnknownWindow(window));
        }
        let title: String = trim(title);
        if title.as_str().is_empty() {
            return Err(DomainError::EmptyName);
        }
        if byte_len(title.as_str()) > 64 || text_contains(title.as_str(), '\0') {
            return Err(DomainError::InvalidName);
        }
        if let Some(mut w) = self.windows.remove(window) {
            w.title = title;
            let _ = self.windows.insert(window, w);
            assert(self@.windows =~= old(self)@.windows.insert(
                window,
                WindowView { title: title@, ..old(self)@.windows[window] },
            ));
        }
        Ok(())
    }

    pub fn set_sync_input(&mut self, window: u64, enabled: bool) -> (r: Result<(), DomainError>)
        ensures
            !old(self)@.windows.contains_key(window) ==> r == Err::<(), DomainError>(
                DomainError::UnknownWindow(window),
            ) && final(self)@ == old(self)@,
            old(self)@.windows.contains_key(window) ==> r is Ok && final(self)@
                == old(self)@.with_sync_input(window, enabled),
    {
        match self.windows.remove(window) {
            None => {
                assert(self@.windows =~= old(self)@.windows);
                Err(DomainError::UnknownWindow(window))
            },
            Some(mut w) => {
                w.sync_input = enabled;
                let _ = self.windows.insert(window, w);
                assert(self@.windows =~= old(self)@.with_sync_input(window, enabled).windows);
                Ok(())
            },
        }
    }

    pub fn rename_pane(&mut self, pane: u64, title: &str)
        requires
            old(self)@.panes.contains_key(pane),
        ensures
            final(self)@ == old(self)@.rename_pane(pane, title@),
    {
        if let Some(mut p) = self.panes.remove(pane) {
            p.title = String::from_str(title);
            p.title_pinned = !title.is_empty();
            let _ = self.panes.insert(pane, p);
            assert(self@.panes =~= old(self)@.rename_pane(pane, title@).panes);
        }
    }

    fn check_transfer(&self, ids: &Vec<u64>, from: &Option<String>) -> (r: Result<
        (),
        DomainError,
    >)
        ensures
            refused(self@.transfer_fault(ids@, option_text(*from)), r),
    {
        let mut i: usize = 0;
        while i < ids.len()
            invariant
                i <= ids@.len(),
                self@.transfer_fault(ids@.take(i as int), option_text(*from)) is None,
            decreases ids@.len() - i,
        {
            let ghost head = ids@.take(i + 1);
            assert(head.drop_last() =~= ids@.take(i as int));
            let fault: Option<DomainError> = match self.sessions.get(ids[i]) {
                None => Some(DomainError::UnknownSession(ids[i])),
                Some(s) => if same_option_text(&s.space_id, from) {
                    None
                } else {
                    Some(DomainError::SpaceOwnerMismatch)
                },
            };
            if let Some(error) = fault {
                proof {
                    self@.lemma_transfer_prefix(ids@, option_text(*from), i + 1);
                }
                return Err(error);
            }
            i = i + 1;
        }
        assert(ids@.take(i as int) =~= ids@);
        Ok(())
    }

    /// Gives sessions to another Space: all of them, or none.
    pub fn transfer_space_sessions(
        &mut self,
        ids: &Vec<u64>,
        from: &Option<String>,
        to: &Option<String>,
    ) -> (r: Result<(), DomainError>)
        ensures
            refused(old(self)@.transfer_fault(ids@, option_text(*from)), r),
            r is Err ==> final(self)@ == old(self)@,
            r is Ok ==> final(self)@ == old(self)@.transfer_sessions(ids@, option_text(*to)),
    {
        self.check_transfer(ids, from)?;
        let mut i: usize = 0;
        let ghost before = self@;
        assert(self@.sessions =~= before.transfer_sessions(
            ids@.take(0),
            option_text(*to),
        ).sessions);
        while i < ids.len()
            invariant
                i <= ids@.len(),
                before == old(self)@,
                before.transfer_fault(ids@, option_text(*from)) is None,
                self@ == before.transfer_sessions(ids@.take(i as int), option_text(*to)),
            decreases ids@.len() - i,
        {
            let id: u64 = ids[i];
            let ghost at = self@;
            proof {
                before.lemma_transfer_known(ids@, option_text(*from), i as int);
            }
            if let Some(mut s) = self.sessions.remove(id) {
                s.space_id = clone_option_text(to);
                let _ = self.sessions.insert(id, s);
            }
            proof {
                let head = ids@.take(i as int);
                let next = ids@.take(i + 1);
                assert(next.drop_last() =~= head);
                lemma_last_contained(next);
                let goal = before.transfer_sessions(next, option_text(*to)).sessions;
                assert(at.sessions.contains_key(id));
                assert(self@.sessions == at.sessions.insert(id, self@.sessions[id]));
                assert(self@.sessions[id] == (SessionView {
                    space_id: option_text(*to),
                    ..at.sessions[id]
                }));
                assert(self@.sessions[id] == goal[id]);
                assert(self@.sessions =~= goal);
            }
            i = i + 1;
        }
        assert(ids@.take(i as int) =~= ids@);
        Ok(())
    }
}

pub fn same_option_text(a: &Option<String>, b: &Option<String>) -> (r: bool)
    ensures
        r == (option_text(*a) == option_text(*b)),
{
    match (a, b) {
        (Some(x), Some(y)) => same_text(x.as_str(), y.as_str()),
        (None, None) => true,
        _ => false,
    }
}

fn fresh_pane(window: u64) -> (p: Pane)
    ensures
        p@ == (PaneView { window, title: Seq::empty(), title_pinned: false, controller: None }),
{
    let title = String::new();
    assert(title@ =~= Seq::<char>::empty());
    Pane { window, title, title_pinned: false, controller: None }
}

impl DomainView {
    /// A fault in a prefix is the fault of the whole list.
    proof fn lemma_transfer_prefix(self, ids: Seq<u64>, from: Option<Seq<char>>, n: int)
        requires
            0 <= n <= ids.len(),
            self.transfer_fault(ids.take(n), from) is Some,
        ensures
            self.transfer_fault(ids, from) == self.transfer_fault(ids.take(n), from),
        decreases ids.len() - n,
    {
        if n == ids.len() {
            assert(ids.take(n) =~= ids);
        } else {
            assert(ids.take(n + 1).drop_last() =~= ids.take(n));
            self.lemma_transfer_prefix(ids, from, n + 1);
        }
    }

    /// A list without a fault names existing sessions.
    pub proof fn lemma_transfer_known(self, ids: Seq<u64>, from: Option<Seq<char>>, i: int)
        requires
            self.transfer_fault(ids, from) is None,
            0 <= i < ids.len(),
        ensures
            self.sessions.contains_key(ids[i]),
        decreases ids.len(),
    {
        if i < ids.len() - 1 {
            self.lemma_transfer_known(ids.drop_last(), from, i);
        }
    }
}

proof fn lemma_without_absent(s: Seq<u64>, id: u64)
    requires
        !s.contains(id),
    ensures
        without_id(s, id) == s,
    decreases s.len(),
{
    reveal(Seq::filter);
    if s.len() > 0 {
        let head = s.drop_last();
        lemma_last_contained(s);
        lemma_without_absent(head, id);
        assert(s[s.len() - 1] != id);
        assert(s =~= head.push(s.last()));
    }
}

/// An entry that was pushed and dropped leaves no trace.
proof fn lemma_without_new(s: Seq<u64>, id: u64)
    requires
        !s.contains(id),
    ensures
        without_id(s.push(id), id) == s,
{
    reveal(Seq::filter);
    lemma_without_absent(s, id);
    assert(s.push(id).drop_last() =~= s);
}

/// What is left after an id is taken out.
pub proof fn lemma_without_id(s: Seq<u64>, id: u64)
    ensures
        forall|x: u64| #[trigger] without_id(s, id).contains(x) <==> s.contains(x) && x != id,
        s.no_duplicates() ==> without_id(s, id).no_duplicates(),
    decreases s.len(),
{
    reveal(Seq::filter);
    if s.len() > 0 {
        let head = s.drop_last();
        let last = s.last();
        lemma_without_id(head, id);
        assert(s =~= head.push(last));
        let kept = without_id(head, id);
        assert(without_id(s, id) == if last != id {
            kept.push(last)
        } else {
            kept
        });
        lemma_last_contained(s);
        assert forall|x: u64| #[trigger]
            without_id(s, id).contains(x) <==> s.contains(x) && x != id by {
            if last != id {
                if kept.contains(x) {
                    let k = choose|k: int| 0 <= k < kept.len() && kept[k] == x;
                    assert(kept.push(last)[k] == x);
                }
                if x == last {
                    assert(kept.push(last)[kept.len() as int] == x);
                }
            }
        }
        if s.no_duplicates() {
            assert(head.no_duplicates());
            assert(!head.contains(last)) by {
                if head.contains(last) {
                    let k = choose|k: int| 0 <= k < head.len() && head[k] == last;
                    assert(s[k] == s[s.len() - 1]);
                }
            }
            assert(!kept.contains(last));
        }
    }
}

proof fn lemma_push_id(s: Seq<u64>, id: u64)
    ensures
        forall|x: u64| #[trigger] s.push(id).contains(x) <==> s.contains(x) || x == id,
        s.no_duplicates() && !s.contains(id) ==> s.push(id).no_duplicates(),
{
    assert forall|x: u64| #[trigger] s.push(id).contains(x) <==> s.contains(x) || x == id by {
        if s.contains(x) {
            let k = choose|k: int| 0 <= k < s.len() && s[k] == x;
            assert(s.push(id)[k] == x);
        }
        if x == id {
            assert(s.push(id)[s.len() as int] == x);
        }
    }
}

/// The tree of a window from which a pane left: the other panes, or nothing
/// when it was the last one.
pub open spec fn leaves_rest(before: Seq<u64>, pane: u64, rest: Option<PaneLayout>) -> bool {
    match rest {
        Some(layout) => relists(layout.leaves(), without_id(before, pane)),
        None => without_id(before, pane).len() == 0,
    }
}

impl DomainView {
    /// Lease changes never touch the topology.
    pub proof fn leases_keep_topology(self, pane: u64, controller: Option<u64>, client: u64)
        requires
            self.wf(),
            self.panes.contains_key(pane),
        ensures
            self.with_controller(pane, controller).wf(),
            self.release_all(client).wf(),
    {
    }

    /// A lease has one holder: whoever acquires it, nobody else can acquire,
    /// write or release until it is given up.
    pub proof fn leases_are_exclusive(self, pane: u64, client: u64, other: u64)
        requires
            self.acquire_fault(pane, client) is None,
            client != other,
        ensures
            ({
                let held = self.with_controller(pane, Some(client));
                &&& held.acquire_fault(pane, other) == Some(
                    DomainError::LeaseHeld { holder: client },
                )
                &&& held.write_fault(pane, other) == Some(
                    DomainError::NotController { holder: Some(client) },
                )
                &&& held.holder_fault(pane, other) == Some(
                    DomainError::NotController { holder: Some(client) },
                )
                &&& held.write_fault(pane, client) is None
                &&& held.release_all(client).acquire_fault(pane, other) is None
            }),
    {
    }

    /// After a client is gone it holds nothing, and other leases stand.
    pub proof fn release_all_frees_exactly_the_clients_leases(self, client: u64, other: u64)
        ensures
            self.release_all(client).held_by(client) =~= Set::<u64>::empty(),
            other != client ==> self.release_all(client).held_by(other) =~= self.held_by(other),
    {
    }

    pub proof fn create_session_keeps_wf(self, name: Seq<char>, agent: Option<Seq<char>>)
        requires
            self.wf(),
            self.next_session < u64::MAX,
        ensures
            self.create_session(name, agent).wf(),
    {
        let after = self.create_session(name, agent);
        assert forall|s: u64, w: u64|
            #![trigger after.sessions[s].windows.contains(w)]
            after.sessions.contains_key(s) && after.sessions[s].windows.contains(
                w,
            ) implies after.windows.contains_key(w) && after.windows[w].session == s by {
            assert(s != self.next_session);
            assert(self.sessions[s].windows.contains(w));
        }
    }

    pub proof fn create_window_keeps_wf(self, session: u64, title: Seq<char>)
        requires
            self.wf(),
            self.create_window_fault(session) is None,
        ensures
            self.create_window(session, title).wf(),
    {
        let after = self.create_window(session, title);
        let window = self.next_window;
        let pane = self.next_pane;
        let windows = self.sessions[session].windows;
        lemma_push_id(windows, window);
        assert(!windows.contains(window));
        let leaf = PaneLayout::Leaf { pane_id: pane };
        assert(leaf.leaves() =~= seq![pane]);
        assert(leaf.leaves()[0] == pane);
        assert forall|w: u64| #[trigger] after.windows.contains_key(w) implies 0 < w
            < after.next_window && after.windows[w].layout.leaves().no_duplicates()
            && after.sessions.contains_key(after.windows[w].session)
            && after.sessions[after.windows[w].session].windows.contains(w) by {
            if w != window {
                assert(self.windows.contains_key(w));
                assert(self.sessions[self.windows[w].session].windows.contains(w));
            }
        }
        assert forall|s: u64, w: u64|
            #![trigger after.sessions[s].windows.contains(w)]
            after.sessions.contains_key(s) && after.sessions[s].windows.contains(
                w,
            ) implies after.windows.contains_key(w) && after.windows[w].session == s by {
            if w != window {
                assert(self.sessions[s].windows.contains(w));
            } else if s != session {
                assert(self.sessions[s].windows.contains(w));
                assert(self.windows.contains_key(w));
            }
        }
        assert forall|w: u64, p: u64|
            #![trigger after.windows[w].layout.leaves().contains(p)]
            after.windows.contains_key(w) && after.windows[w].layout.leaves().contains(
                p,
            ) implies after.panes.contains_key(p) && after.panes[p].window == w by {
            if w != window {
                assert(self.windows[w].layout.leaves().contains(p));
                assert(self.panes.contains_key(p));
            }
        }
        assert forall|p: u64| #[trigger] after.panes.contains_key(p) implies 0 < p
            < after.next_pane && after.windows.contains_key(after.panes[p].window)
            && after.windows[after.panes[p].window].layout.leaves().contains(p) by {
            if p != pane {
                assert(self.panes.contains_key(p));
                assert(self.windows.contains_key(self.panes[p].window));
                assert(self.windows[self.panes[p].window].layout.leaves().contains(p));
            }
        }
    }

    /// To create a window and destroy it again changes nothing but the numbers that
    /// come next, as long as its session has another window.
    pub proof fn an_undone_window_was_made_and_destroyed(self, session: u64, title: Seq<char>)
        requires
            self.wf(),
            self.create_window_fault(session) is None,
            self.sessions[session].windows.len() > 0,
        ensures
            self.create_window(session, title).destroy_window(self.next_window)
                == self.window_undone(),
    {
        let made = self.create_window(session, title);
        let back = made.destroy_window(self.next_window);
        let rest = without_id(made.sessions[session].windows, self.next_window);
        if self.sessions[session].windows.contains(self.next_window) {
            assert(self.windows.contains_key(self.next_window));
        }
        lemma_without_new(self.sessions[session].windows, self.next_window);
        assert(rest == self.sessions[session].windows);
        assert(!self.panes.contains_key(self.next_pane));
        assert(back.panes =~= self.panes) by {
            assert forall|p: u64| self.panes.contains_key(p) implies self.panes[p].window
                != self.next_window by {
                assert(self.windows.contains_key(self.panes[p].window));
            }
        }
        assert(back.windows =~= self.windows);
        assert(back.sessions =~= self.sessions);
    }

    pub proof fn destroy_session_keeps_wf(self, session: u64)
        requires
            self.wf(),
        ensures
            self.destroy_session(session).wf(),
    {
        let after = self.destroy_session(session);
        assert forall|s: u64, w: u64|
            #![trigger after.sessions[s].windows.contains(w)]
            after.sessions.contains_key(s) && after.sessions[s].windows.contains(
                w,
            ) implies after.windows.contains_key(w) && after.windows[w].session == s by {
            assert(self.sessions[s].windows.contains(w));
        }
        assert forall|w: u64, p: u64|
            #![trigger after.windows[w].layout.leaves().contains(p)]
            after.windows.contains_key(w) && after.windows[w].layout.leaves().contains(
                p,
            ) implies after.panes.contains_key(p) && after.panes[p].window == w by {
            assert(self.windows[w].layout.leaves().contains(p));
        }
        assert forall|w: u64| #[trigger] after.windows.contains_key(w) implies 0 < w
            < after.next_window && after.windows[w].layout.leaves().no_duplicates()
            && after.sessions.contains_key(after.windows[w].session)
            && after.sessions[after.windows[w].session].windows.contains(w) by {
            assert(self.windows.contains_key(w));
        }
        assert forall|p: u64| #[trigger] after.panes.contains_key(p) implies 0 < p
            < after.next_pane && after.windows.contains_key(after.panes[p].window)
            && after.windows[after.panes[p].window].layout.leaves().contains(p) by {
            assert(self.panes.contains_key(p));
            assert(self.windows.contains_key(self.panes[p].window));
        }
    }

    pub proof fn destroy_window_keeps_wf(self, window: u64)
        requires
            self.wf(),
            self.windows.contains_key(window),
        ensures
            self.destroy_window(window).wf(),
    {
        let after = self.destroy_window(window);
        let session = self.windows[window].session;
        let windows = self.sessions[session].windows;
        lemma_without_id(windows, window);
        assert forall|w: u64| #[trigger] after.windows.contains_key(w) implies 0 < w
            < after.next_window && after.windows[w].layout.leaves().no_duplicates()
            && after.sessions.contains_key(after.windows[w].session)
            && after.sessions[after.windows[w].session].windows.contains(w) by {
            assert(self.windows.contains_key(w));
            assert(self.sessions[self.windows[w].session].windows.contains(w));
            if self.windows[w].session == session {
                assert(without_id(windows, window).contains(w));
            }
        }
        assert forall|s: u64, w: u64|
            #![trigger after.sessions[s].windows.contains(w)]
            after.sessions.contains_key(s) && after.sessions[s].windows.contains(
                w,
            ) implies after.windows.contains_key(w) && after.windows[w].session == s by {
            assert(self.sessions[s].windows.contains(w));
        }
        assert forall|w: u64, p: u64|
            #![trigger after.windows[w].layout.leaves().contains(p)]
            after.windows.contains_key(w) && after.windows[w].layout.leaves().contains(
                p,
            ) implies after.panes.contains_key(p) && after.panes[p].window == w by {
            assert(self.windows[w].layout.leaves().contains(p));
        }
        assert forall|p: u64| #[trigger] after.panes.contains_key(p) implies 0 < p
            < after.next_pane && after.windows.contains_key(after.panes[p].window)
            && after.windows[after.panes[p].window].layout.leaves().contains(p) by {
            assert(self.panes.contains_key(p));
            assert(self.windows.contains_key(self.panes[p].window));
        }
    }

    pub proof fn add_pane_keeps_wf(self, window: u64, layout: PaneLayout)
        requires
            self.wf(),
            self.windows.contains_key(window),
            self.next_pane < u64::MAX,
            relists(layout.leaves(), self.windows[window].layout.leaves().push(self.next_pane)),
        ensures
            self.add_pane(window, layout).wf(),
    {
        let after = self.add_pane(window, layout);
        let pane = self.next_pane;
        lemma_push_id(self.windows[window].layout.leaves(), pane);
        assert(layout.leaves().contains(pane));
        assert forall|s: u64, w: u64|
            #![trigger after.sessions[s].windows.contains(w)]
            after.sessions.contains_key(s) && after.sessions[s].windows.contains(
                w,
            ) implies after.windows.contains_key(w) && after.windows[w].session == s by {
            assert(self.sessions[s].windows.contains(w));
        }
        assert forall|w: u64, p: u64|
            #![trigger after.windows[w].layout.leaves().contains(p)]
            after.windows.contains_key(w) && after.windows[w].layout.leaves().contains(
                p,
            ) implies after.panes.contains_key(p) && after.panes[p].window == w by {
            if p != pane {
                assert(self.windows[w].layout.leaves().contains(p));
            } else if w != window {
                assert(self.windows[w].layout.leaves().contains(p));
                assert(self.panes.contains_key(p));
            }
        }
        assert forall|p: u64| #[trigger] after.panes.contains_key(p) implies 0 < p
            < after.next_pane && after.windows.contains_key(after.panes[p].window)
            && after.windows[after.panes[p].window].layout.leaves().contains(p) by {
            if p != pane {
                assert(self.panes.contains_key(p));
            }
        }
    }

    pub proof fn remove_pane_keeps_wf(self, pane: u64, layout: PaneLayout)
        requires
            self.wf(),
            self.panes.contains_key(pane),
            relists(
                layout.leaves(),
                without_id(self.windows[self.panes[pane].window].layout.leaves(), pane),
            ),
        ensures
            self.remove_pane(pane, layout).wf(),
    {
        let after = self.remove_pane(pane, layout);
        let window = self.panes[pane].window;
        lemma_without_id(self.windows[window].layout.leaves(), pane);
        assert forall|s: u64, w: u64|
            #![trigger after.sessions[s].windows.contains(w)]
            after.sessions.contains_key(s) && after.sessions[s].windows.contains(
                w,
            ) implies after.windows.contains_key(w) && after.windows[w].session == s by {
            assert(self.sessions[s].windows.contains(w));
        }
        assert forall|w: u64, p: u64|
            #![trigger after.windows[w].layout.leaves().contains(p)]
            after.windows.contains_key(w) && after.windows[w].layout.leaves().contains(
                p,
            ) implies after.panes.contains_key(p) && after.panes[p].window == w by {
            assert(self.windows[w].layout.leaves().contains(p));
        }
        assert forall|p: u64| #[trigger] after.panes.contains_key(p) implies 0 < p
            < after.next_pane && after.windows.contains_key(after.panes[p].window)
            && after.windows[after.panes[p].window].layout.leaves().contains(p) by {
            assert(self.panes.contains_key(p));
            assert(self.windows[self.panes[p].window].layout.leaves().contains(p));
            if self.panes[p].window == window {
                assert(layout.leaves().contains(p));
            }
        }
    }

    /// A tree over the same panes keeps the topology.
    pub proof fn with_layout_keeps_wf(self, window: u64, layout: PaneLayout)
        requires
            self.wf(),
            self.windows.contains_key(window),
            relists(layout.leaves(), self.windows[window].layout.leaves()),
        ensures
            self.with_layout(window, layout).wf(),
    {
        let after = self.with_layout(window, layout);
        assert forall|s: u64, w: u64|
            #![trigger after.sessions[s].windows.contains(w)]
            after.sessions.contains_key(s) && after.sessions[s].windows.contains(
                w,
            ) implies after.windows.contains_key(w) && after.windows[w].session == s by {
            assert(self.sessions[s].windows.contains(w));
        }
        assert forall|w: u64, p: u64|
            #![trigger after.windows[w].layout.leaves().contains(p)]
            after.windows.contains_key(w) && after.windows[w].layout.leaves().contains(
                p,
            ) implies after.panes.contains_key(p) && after.panes[p].window == w by {
            assert(self.windows[w].layout.leaves().contains(p));
        }
        assert forall|p: u64| #[trigger] after.panes.contains_key(p) implies 0 < p
            < after.next_pane && after.windows.contains_key(after.panes[p].window)
            && after.windows[after.panes[p].window].layout.leaves().contains(p) by {
            assert(self.panes.contains_key(p));
            assert(self.windows[self.panes[p].window].layout.leaves().contains(p));
        }
    }

    /// Moving a pane keeps the topology, whether or not its window survives.
    pub proof fn move_pane_keeps_wf(
        self,
        pane: u64,
        to: u64,
        rest: Option<PaneLayout>,
        layout: PaneLayout,
    )
        requires
            self.wf(),
            self.panes.contains_key(pane),
            self.windows.contains_key(to),
            self.panes[pane].window != to,
            relists(layout.leaves(), self.windows[to].layout.leaves().push(pane)),
            leaves_rest(self.windows[self.panes[pane].window].layout.leaves(), pane, rest),
        ensures
            self.move_pane(pane, to, rest, layout).wf(),
    {
        let after = self.move_pane(pane, to, rest, layout);
        let from = self.panes[pane].window;
        let session = self.windows[from].session;
        let windows = self.sessions[session].windows;
        let gone = rest is None;
        lemma_without_id(windows, from);
        lemma_without_id(self.windows[from].layout.leaves(), pane);
        lemma_push_id(self.windows[to].layout.leaves(), pane);
        assert(self.windows[from].layout.leaves().contains(pane));
        assert(after.windows =~= if gone {
            self.with_layout(to, layout).windows.remove(from)
        } else {
            self.with_layout(to, layout).windows.insert(
                from,
                WindowView { layout: rest->0, ..self.windows[from] },
            )
        });
        assert forall|w: u64| #[trigger] after.windows.contains_key(w) implies 0 < w
            < after.next_window && after.windows[w].layout.leaves().no_duplicates()
            && after.sessions.contains_key(after.windows[w].session)
            && after.sessions[after.windows[w].session].windows.contains(w) by {
            assert(self.windows.contains_key(w));
            assert(self.sessions[self.windows[w].session].windows.contains(w));
            if gone && self.windows[w].session == session {
                assert(without_id(windows, from).contains(w));
            }
        }
        assert forall|s: u64, w: u64|
            #![trigger after.sessions[s].windows.contains(w)]
            after.sessions.contains_key(s) && after.sessions[s].windows.contains(
                w,
            ) implies after.windows.contains_key(w) && after.windows[w].session == s by {
            assert(self.sessions[s].windows.contains(w));
        }
        assert forall|w: u64, p: u64|
            #![trigger after.windows[w].layout.leaves().contains(p)]
            after.windows.contains_key(w) && after.windows[w].layout.leaves().contains(
                p,
            ) implies after.panes.contains_key(p) && after.panes[p].window == w by {
            if p == pane {
                if w != to && w != from {
                    assert(self.windows[w].layout.leaves().contains(p));
                }
            } else {
                assert(self.windows[w].layout.leaves().contains(p));
            }
        }
        assert forall|p: u64| #[trigger] after.panes.contains_key(p) implies 0 < p
            < after.next_pane && after.windows.contains_key(after.panes[p].window)
            && after.windows[after.panes[p].window].layout.leaves().contains(p) by {
            assert(self.panes.contains_key(p));
            assert(self.windows[self.panes[p].window].layout.leaves().contains(p));
            if p != pane && self.panes[p].window == from {
                assert(without_id(self.windows[from].layout.leaves(), pane).contains(p));
            }
        }
    }

    /// Giving a pane a window of its own keeps the topology.
    pub proof fn open_window_keeps_wf(
        self,
        session: u64,
        title: Seq<char>,
        pane: u64,
        rest: Option<PaneLayout>,
    )
        requires
            self.wf(),
            self.panes.contains_key(pane),
            self.sessions.contains_key(session),
            self.next_window < u64::MAX,
            leaves_rest(self.windows[self.panes[pane].window].layout.leaves(), pane, rest),
        ensures
            self.open_window_with_pane(session, title, pane, rest).wf(),
    {
        let window = self.next_window;
        let from = self.panes[pane].window;
        let after = self.open_window_with_pane(session, title, pane, rest);
        let from_session = self.windows[from].session;
        let leaf = PaneLayout::Leaf { pane_id: pane };
        assert(leaf.leaves() =~= seq![pane]);
        assert(leaf.leaves()[0] == pane);
        lemma_push_id(self.sessions[session].windows, window);
        assert(!self.sessions[session].windows.contains(window));
        let listed = if from_session == session {
            self.sessions[session].windows.push(window)
        } else {
            self.sessions[from_session].windows
        };
        lemma_without_id(listed, from);
        lemma_without_id(self.windows[from].layout.leaves(), pane);
        assert(self.windows[from].layout.leaves().contains(pane));
        let gone = rest is None;
        assert forall|w: u64| #[trigger] after.windows.contains_key(w) implies 0 < w
            < after.next_window && after.windows[w].layout.leaves().no_duplicates()
            && after.sessions.contains_key(after.windows[w].session)
            && after.sessions[after.windows[w].session].windows.contains(w) by {
            if w != window {
                assert(self.windows.contains_key(w));
                assert(self.sessions[self.windows[w].session].windows.contains(w));
                if gone && self.windows[w].session == from_session {
                    assert(without_id(listed, from).contains(w));
                }
            } else if gone && from_session == session {
                assert(without_id(listed, from).contains(w));
            }
        }
        assert forall|s: u64, w: u64|
            #![trigger after.sessions[s].windows.contains(w)]
            after.sessions.contains_key(s) && after.sessions[s].windows.contains(
                w,
            ) implies after.windows.contains_key(w) && after.windows[w].session == s by {
            if w == window {
                if s != session {
                    assert(self.sessions[s].windows.contains(w));
                    assert(self.windows.contains_key(w));
                }
            } else {
                assert(self.sessions[s].windows.contains(w));
            }
        }
        assert forall|w: u64, p: u64|
            #![trigger after.windows[w].layout.leaves().contains(p)]
            after.windows.contains_key(w) && after.windows[w].layout.leaves().contains(
                p,
            ) implies after.panes.contains_key(p) && after.panes[p].window == w by {
            if w != window {
                assert(self.windows[w].layout.leaves().contains(p));
            }
        }
        assert forall|p: u64| #[trigger] after.panes.contains_key(p) implies 0 < p
            < after.next_pane && after.windows.contains_key(after.panes[p].window)
            && after.windows[after.panes[p].window].layout.leaves().contains(p) by {
            assert(self.panes.contains_key(p));
            assert(self.windows.contains_key(self.panes[p].window));
            assert(self.windows[self.panes[p].window].layout.leaves().contains(p));
            if p != pane && self.panes[p].window == from {
                assert(without_id(self.windows[from].layout.leaves(), pane).contains(p));
            }
        }
    }

    /// Names, titles, flags and owners are no part of the topology.
    pub proof fn labels_keep_wf(
        self,
        session: u64,
        window: u64,
        pane: u64,
        text: Seq<char>,
        agent: Option<Seq<char>>,
        flag: bool,
        ids: Seq<u64>,
    )
        requires
            self.wf(),
        ensures
            self.sessions.contains_key(session) ==> self.with_agent(session, agent).wf(),
            self.sessions.contains_key(session) ==> self.name_session(session, text).wf(),
            self.windows.contains_key(window) ==> self.rename_window(window, text).wf(),
            self.windows.contains_key(window) ==> self.with_sync_input(window, flag).wf(),
            self.panes.contains_key(pane) ==> self.rename_pane(pane, text).wf(),
            self.transfer_sessions(ids, agent).wf(),
    {
        self.lemma_relabel(self.with_agent(session, agent));
        self.lemma_relabel(self.name_session(session, text));
        self.lemma_relabel(self.rename_window(window, text));
        self.lemma_relabel(self.with_sync_input(window, flag));
        self.lemma_relabel(self.rename_pane(pane, text));
        self.lemma_relabel(self.transfer_sessions(ids, agent));
    }

    /// Whether two domains have the same ids, trees and places.
    pub open spec fn same_shape(self, other: DomainView) -> bool {
        &&& self.sessions.dom() =~= other.sessions.dom()
        &&& self.windows.dom() =~= other.windows.dom()
        &&& self.panes.dom() =~= other.panes.dom()
        &&& forall|s: u64| #[trigger]
            self.sessions.contains_key(s) ==> self.sessions[s].windows
                == other.sessions[s].windows
        &&& forall|w: u64| #[trigger]
            self.windows.contains_key(w) ==> self.windows[w].session == other.windows[w].session
                && self.windows[w].layout == other.windows[w].layout
        &&& forall|p: u64| #[trigger]
            self.panes.contains_key(p) ==> self.panes[p].window == other.panes[p].window
        &&& self.next_session == other.next_session
        &&& self.next_window == other.next_window
        &&& self.next_pane == other.next_pane
        &&& other.next_client > 0
    }

    pub proof fn lemma_relabel(self, other: DomainView)
        requires
            self.wf(),
        ensures
            self.same_shape(other) ==> other.wf(),
    {
        if self.same_shape(other) {
            assert forall|s: u64, w: u64|
                #![trigger other.sessions[s].windows.contains(w)]
                other.sessions.contains_key(s) && other.sessions[s].windows.contains(
                    w,
                ) implies other.windows.contains_key(w) && other.windows[w].session == s by {
                assert(self.sessions.contains_key(s));
                assert(self.sessions[s].windows.contains(w));
                assert(self.windows.contains_key(w));
            }
            assert forall|w: u64, p: u64|
                #![trigger other.windows[w].layout.leaves().contains(p)]
                other.windows.contains_key(w) && other.windows[w].layout.leaves().contains(
                    p,
                ) implies other.panes.contains_key(p) && other.panes[p].window == w by {
                assert(self.windows.contains_key(w));
                assert(self.windows[w].layout.leaves().contains(p));
                assert(self.panes.contains_key(p));
            }
            assert forall|s: u64| #[trigger]
                other.sessions.contains_key(s) implies 0 < s < other.next_session
                && other.sessions[s].windows.no_duplicates() by {
                assert(self.sessions.contains_key(s));
            }
            assert forall|w: u64| #[trigger] other.windows.contains_key(w) implies 0 < w
                < other.next_window && other.windows[w].layout.leaves().no_duplicates()
                && other.sessions.contains_key(other.windows[w].session)
                && other.sessions[other.windows[w].session].windows.contains(w) by {
                assert(self.windows.contains_key(w));
                assert(self.sessions.contains_key(self.windows[w].session));
            }
            assert forall|p: u64| #[trigger] other.panes.contains_key(p) implies 0 < p
                < other.next_pane && other.windows.contains_key(other.panes[p].window)
                && other.windows[other.panes[p].window].layout.leaves().contains(p) by {
                assert(self.panes.contains_key(p));
                assert(self.windows.contains_key(self.panes[p].window));
            }
        }
    }
}

impl DomainView {
    /// The panes of some windows, in order.
    pub open spec fn windows_panes(self, windows: Seq<u64>) -> Seq<u64>
        decreases windows.len(),
    {
        if windows.len() == 0 {
            Seq::empty()
        } else {
            self.windows_panes(windows.drop_last()) + self.windows[windows.last()].layout.leaves()
        }
    }

    /// The panes of a session, in order.
    pub open spec fn session_panes(self, session: u64) -> Seq<u64> {
        self.windows_panes(self.sessions[session].windows)
    }

    /// The panes of some sessions, in order.
    pub open spec fn sessions_panes(self, sessions: Seq<u64>) -> Seq<u64>
        decreases sessions.len(),
    {
        if sessions.len() == 0 {
            Seq::empty()
        } else {
            self.sessions_panes(sessions.drop_last()) + self.session_panes(sessions.last())
        }
    }

    pub proof fn lemma_windows_panes(self, session: u64, windows: Seq<u64>)
        requires
            self.wf(),
            self.sessions.contains_key(session),
            forall|w: u64| #[trigger]
                windows.contains(w) ==> self.sessions[session].windows.contains(w),
        ensures
            forall|p: u64| #[trigger]
                self.windows_panes(windows).contains(p) ==> self.panes.contains_key(p)
                    && self.windows[self.panes[p].window].session == session,
        decreases windows.len(),
    {
        if windows.len() > 0 {
            let head = windows.drop_last();
            let last = windows.last();
            lemma_last_contained(windows);
            self.lemma_windows_panes(session, head);
            let a = self.windows_panes(head);
            let b = self.windows[last].layout.leaves();
            assert forall|p: u64| #[trigger]
                self.windows_panes(windows).contains(p) implies self.panes.contains_key(p)
                && self.windows[self.panes[p].window].session == session by {
                let k = choose|k: int| 0 <= k < (a + b).len() && (a + b)[k] == p;
                if k < a.len() {
                    assert(a[k] == p);
                    assert(a.contains(p));
                } else {
                    assert(b[k - a.len()] == p);
                    assert(b.contains(p));
                    assert(self.windows[last].layout.leaves().contains(p));
                }
            }
        }
    }
}

impl Domain {
    /// The panes of a session, in order.
    pub fn session_panes(&self, session: u64) -> (v: Vec<u64>)
        requires
            self@.wf(),
            self@.sessions.contains_key(session),
        ensures
            v@ == self@.session_panes(session),
            forall|p: u64| #[trigger] v@.contains(p) ==> self@.panes.contains_key(p),
    {
        proof {
            self@.lemma_windows_panes(session, self@.sessions[session].windows);
        }
        let windows: Vec<u64> = match self.sessions.get(session) {
            Some(s) => clone_ids(&s.windows),
            None => Vec::new(),
        };
        let mut v: Vec<u64> = Vec::new();
        let mut i: usize = 0;
        assert(windows@.take(0) =~= Seq::empty());
        while i < windows.len()
            invariant
                i <= windows@.len(),
                self@.wf(),
                self@.sessions.contains_key(session),
                windows@ == self@.sessions[session].windows,
                v@ == self@.windows_panes(windows@.take(i as int)),
            decreases windows@.len() - i,
        {
            proof {
                assert(windows@.take(i + 1).drop_last() =~= windows@.take(i as int));
                assert(self@.sessions[session].windows.contains(windows@[i as int]));
            }
            if let Some(w) = self.windows.get(windows[i]) {
                let mut more: Vec<u64> = w.layout.panes();
                v.append(&mut more);
            }
            i = i + 1;
        }
        assert(windows@.take(i as int) =~= windows@);
        v
    }
}

} // verus!
