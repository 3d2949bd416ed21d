//! How a control plane comes to be.
use vstd::prelude::*;
use vstd::string::*;

use crate::alias::AliasTable;
use crate::error::{
    control_domain_error, control_geometry_error, domain_error_view, geometry_error_view,
    plain_error, stale_error, stale_id, ControlError, ControlErrorCode, DomainError, ErrorView,
    GeometryError,
};
use crate::event::{EventRing, RingView, DEFAULT_EVENT_CAPACITY, MAX_EVENT_CAPACITY};
use crate::idmap::{group_views, lists_ids, sorted_ids, views, IdMap};
use crate::model::{group_seq_views, lemma_last_contained};
use crate::panes::spawn_fault;
use crate::place::{
    bounds_fault, check_placed, placed, validate_bounds,
};
use crate::plane::{checked, first_fault, pane_ids, ControlPlane, PlaneView};
use crate::state::{group_pane_states, Frame, FrameView, PaneState, PaneStateView};
use crate::text::{concat2, decimal, decimal_text};
use crate::topology::{relists, Domain, DomainView};
use crate::wire::{
    is_utf8, CellRect, PaneGeometry, RemoteSizePolicy, SpawnSpec, SpawnView, Viewport,
    WindowBounds,
};

verus! {

broadcast use {group_views, group_seq_views, group_pane_states};

/// Bounds of a window, and how its tree fits into them.
#[derive(Debug, PartialEq)]
pub struct WindowFit {
    pub bounds: WindowBounds,
    pub fit: Result<Vec<(u64, CellRect)>, GeometryError>,
}

/// The first entry for a window.
pub open spec fn fit_of(fits: Seq<WindowFit>, window: u64) -> Option<WindowFit>
    decreases fits.len(),
{
    if fits.len() == 0 {
        None
    } else if fits[0].bounds.window_id == window {
        Some(fits[0])
    } else {
        fit_of(fits.drop_first(), window)
    }
}

fn find_fit(fits: &Vec<WindowFit>, window: u64) -> (r: Option<&WindowFit>)
    ensures
        match r {
            Some(f) => fit_of(fits@, window) == Some(*f),
            None => fit_of(fits@, window) is None,
        },
        r matches Some(f) ==> f.bounds.window_id == window,
{
    let mut i: usize = 0;
    assert(fits@.skip(0) =~= fits@);
    while i < fits.len()
        invariant
            i <= fits@.len(),
            fit_of(fits@, window) == fit_of(fits@.skip(i as int), window),
        decreases fits@.len() - i,
    {
        assert(fits@.skip(i as int).drop_first() =~= fits@.skip(i + 1));
        if fits[i].bounds.window_id == window {
            return Some(&fits[i]);
        }
        i = i + 1;
    }
    None
}

pub open spec fn duplicate_view(what: Seq<char>, id: u64) -> ErrorView {
    plain_error(ControlErrorCode::InvalidRequest, what + decimal(id as nat))
}

fn duplicate_error(what: &str, id: u64) -> (e: ControlError)
    ensures
        e@ == duplicate_view(what@, id),
{
    let number: String = decimal_text(id);
    let message: String = concat2(what, number.as_str());
    ControlError::new(ControlErrorCode::InvalidRequest, message.as_str())
}

/// Bounds must be usable, name a window, and name it once.
pub open spec fn fit_fault(domain: DomainView, before: Seq<WindowFit>, f: WindowFit) -> Option<
    ErrorView,
> {
    let window = f.bounds.window_id;
    if bounds_fault(f.bounds) is Some {
        bounds_fault(f.bounds)
    } else if !domain.windows.contains_key(window) {
        Some(stale_error("window"@, window))
    } else if fit_of(before, window) is Some {
        Some(duplicate_view("duplicate bounds for window "@, window))
    } else {
        None
    }
}

pub open spec fn fits_fault(domain: DomainView, fits: Seq<WindowFit>) -> Option<ErrorView>
    decreases fits.len(),
{
    if fits.len() == 0 {
        None
    } else {
        first_fault(
            fits_fault(domain, fits.drop_last()),
            fit_fault(domain, fits.drop_last(), fits.last()),
        )
    }
}

/// The geometry of a window at the start.
pub open spec fn start_geometry(domain: DomainView, fits: Seq<WindowFit>, window: u64) -> Result<
    Seq<PaneGeometry>,
    ErrorView,
> {
    match fit_of(fits, window) {
        None => Err(stale_error("window geometry"@, window)),
        Some(f) => match f.fit {
            Err(error) => Err(geometry_error_view(error)),
            Ok(rects) => placed(
                domain.windows[window].layout,
                rects@,
                domain.windows[window].layout.leaves(),
            ),
        },
    }
}

/// The windows of some sessions, in order.
pub open spec fn session_windows(domain: DomainView, sessions: Seq<u64>) -> Seq<u64>
    decreases sessions.len(),
{
    if sessions.len() == 0 {
        Seq::empty()
    } else {
        session_windows(domain, sessions.drop_last()) + domain.sessions[sessions.last()].windows
    }
}

/// Every window, oldest session first.
pub open spec fn window_order(domain: DomainView) -> Seq<u64> {
    session_windows(domain, sorted_ids(domain.sessions.dom()))
}

pub open spec fn geometry_fault(domain: DomainView, fits: Seq<WindowFit>, windows: Seq<u64>) -> Option<
    ErrorView,
>
    decreases windows.len(),
{
    if windows.len() == 0 {
        None
    } else {
        first_fault(
            geometry_fault(domain, fits, windows.drop_last()),
            match start_geometry(domain, fits, windows.last()) {
                Ok(_) => None,
                Err(fault) => Some(fault),
            },
        )
    }
}

pub open spec fn capacity_of(capacity: Option<usize>) -> usize {
    match capacity {
        Some(n) => n,
        None => DEFAULT_EVENT_CAPACITY,
    }
}

/// Why no plane comes to be.
pub open spec fn new_fault(domain: DomainView, fits: Seq<WindowFit>, capacity: Option<usize>) -> Option<
    ErrorView,
> {
    first_fault(
        if !(1 <= capacity_of(capacity) <= MAX_EVENT_CAPACITY) {
            Some(
                plain_error(
                    ControlErrorCode::InvalidRequest,
                    "event capacity must be in 1..=4096"@,
                ),
            )
        } else {
            None
        },
        first_fault(
            fits_fault(domain, fits),
            first_fault(
                geometry_fault(domain, fits, window_order(domain)),
                if domain.next_client == u64::MAX {
                    Some(domain_error_view(DomainError::IdSpaceExhausted))
                } else {
                    None
                },
            ),
        ),
    )
}

/// The plane as it starts: every window framed, nothing remembered, and one
/// client id taken for the doorbell.
pub open spec fn new_plane(domain: DomainView, fits: Seq<WindowFit>, capacity: Option<usize>) -> PlaneView {
    PlaneView {
        domain: DomainView { next_client: (domain.next_client + 1) as u64, ..domain },
        ring: RingView {
            sequence: 0,
            capacity: capacity_of(capacity) as nat,
            events: Seq::empty(),
        },
        clients: Map::empty(),
        panes: Map::new(|p: u64| true, |p: u64| PaneStateView::blank()),
        frames: Map::new(
            |w: u64| domain.windows.contains_key(w),
            |w: u64|
                FrameView {
                    bounds: fit_of(fits, w)->0.bounds,
                    geometry: start_geometry(domain, fits, w)->Ok_0,
                },
        ),
        host_viewports: Map::new(
            |w: u64| domain.windows.contains_key(w),
            |w: u64|
                Viewport {
                    cols: fit_of(fits, w)->0.bounds.cols,
                    rows: fit_of(fits, w)->0.bounds.rows,
                    cell_width_px: None,
                    cell_height_px: None,
                },
        ),
        latest: Map::empty(),
        aliases: Map::empty(),
        effects: Seq::empty(),
        remote_size: RemoteSizePolicy::Latest,
        live: false,
        shutdown_pending: false,
        doorbell: domain.next_client,
    }
}

fn check_fits(domain: &Domain, fits: &Vec<WindowFit>) -> (r: Result<(), ControlError>)
    ensures
        checked(fits_fault(domain@, fits@), r),
{
    let mut i: usize = 0;
    assert(fits@.take(0) =~= Seq::empty());
    while i < fits.len()
        invariant
            i <= fits@.len(),
            fits_fault(domain@, fits@.take(i as int)) is None,
        decreases fits@.len() - i,
    {
        let ghost head = fits@.take(i as int);
        let ghost next = fits@.take(i + 1);
        proof {
            assert(next.drop_last() =~= head);
            assert(next.last() == fits@[i as int]);
        }
        let bounds: WindowBounds = fits[i].bounds;
        let mut fault: Option<ControlError> = None;
        if let Err(error) = validate_bounds(bounds) {
            fault = Some(error);
        } else if !domain.has_window(bounds.window_id) {
            fault = Some(stale_id("window", bounds.window_id));
        } else if seen_before(fits, i, bounds.window_id) {
            fault = Some(duplicate_error("duplicate bounds for window ", bounds.window_id));
        }
        if let Some(error) = fault {
            proof {
                lemma_fits_prefix(domain@, fits@, i + 1);
            }
            return Err(error);
        }
        i = i + 1;
    }
    assert(fits@.take(i as int) =~= fits@);
    Ok(())
}

fn seen_before(fits: &Vec<WindowFit>, n: usize, window: u64) -> (r: bool)
    requires
        n <= fits@.len(),
    ensures
        r == (fit_of(fits@.take(n as int), window) is Some),
{
    let mut i: usize = 0;
    let ghost head = fits@.take(n as int);
    assert(head.skip(0) =~= head);
    while i < n
        invariant
            i <= n <= fits@.len(),
            head == fits@.take(n as int),
            fit_of(head, window) == fit_of(head.skip(i as int), window),
        decreases n - i,
    {
        assert(head.skip(i as int).drop_first() =~= head.skip(i + 1));
        assert(head.skip(i as int)[0] == fits@[i as int]);
        if fits[i].bounds.window_id == window {
            return true;
        }
        i = i + 1;
    }
    false
}

proof fn lemma_fits_prefix(domain: DomainView, fits: Seq<WindowFit>, n: int)
    requires
        0 <= n <= fits.len(),
        fits_fault(domain, fits.take(n)) is Some,
    ensures
        fits_fault(domain, fits) == fits_fault(domain, fits.take(n)),
    decreases fits.len() - n,
{
    if n == fits.len() {
        assert(fits.take(n) =~= fits);
    } else {
        assert(fits.take(n + 1).drop_last() =~= fits.take(n));
        lemma_fits_prefix(domain, fits, n + 1);
    }
}

proof fn lemma_geometry_prefix(domain: DomainView, fits: Seq<WindowFit>, windows: Seq<u64>, n: int)
    requires
        0 <= n <= windows.len(),
        geometry_fault(domain, fits, windows.take(n)) is Some,
    ensures
        geometry_fault(domain, fits, windows) == geometry_fault(domain, fits, windows.take(n)),
    decreases windows.len() - n,
{
    if n == windows.len() {
        assert(windows.take(n) =~= windows);
    } else {
        assert(windows.take(n + 1).drop_last() =~= windows.take(n));
        lemma_geometry_prefix(domain, fits, windows, n + 1);
    }
}

pub proof fn lemma_session_windows(domain: DomainView, sessions: Seq<u64>)
    requires
        domain.wf(),
        forall|s: u64| #[trigger] sessions.contains(s) ==> domain.sessions.contains_key(s),
    ensures
        forall|w: u64| #[trigger]
            session_windows(domain, sessions).contains(w) <==> domain.windows.contains_key(w)
                && sessions.contains(domain.windows[w].session),
    decreases sessions.len(),
{
    if sessions.len() > 0 {
        let head = sessions.drop_last();
        let last = sessions.last();
        lemma_last_contained(sessions);
        lemma_session_windows(domain, head);
        let a = session_windows(domain, head);
        let b = domain.sessions[last].windows;
        assert forall|w: u64| #[trigger]
            session_windows(domain, sessions).contains(w) <==> domain.windows.contains_key(w)
                && sessions.contains(domain.windows[w].session) by {
            if (a + b).contains(w) {
                let k = choose|k: int| 0 <= k < (a + b).len() && (a + b)[k] == w;
                if k < a.len() {
                    assert(a[k] == w);
                    assert(a.contains(w));
                } else {
                    assert(b[k - a.len()] == w);
                    assert(domain.sessions[last].windows.contains(w));
                }
            }
            if domain.windows.contains_key(w) && sessions.contains(domain.windows[w].session) {
                if domain.windows[w].session == last {
                    assert(b.contains(w));
                    let k = choose|k: int| 0 <= k < b.len() && b[k] == w;
                    assert((a + b)[a.len() + k] == w);
                } else {
                    assert(a.contains(w));
                    let k = choose|k: int| 0 <= k < a.len() && a[k] == w;
                    assert((a + b)[k] == w);
                }
            }
        }
    } else {
        assert forall|w: u64| !(#[trigger] session_windows(domain, sessions).contains(w)) by {}
    }
}

/// Every window, oldest session first.
fn all_windows(domain: &Domain) -> (v: Vec<u64>)
    requires
        domain@.wf(),
    ensures
        v@ == window_order(domain@),
        forall|w: u64| #[trigger] v@.contains(w) <==> domain@.windows.contains_key(w),
{
    let ids: Vec<u64> = domain.sessions.keys();
    let mut v: Vec<u64> = Vec::new();
    let mut i: usize = 0;
    assert(ids@.take(0) =~= Seq::empty());
    while i < ids.len()
        invariant
            i <= ids@.len(),
            lists_ids(ids@, domain.sessions@.dom()),
            v@ == session_windows(domain@, ids@.take(i as int)),
        decreases ids@.len() - i,
    {
        proof {
            assert(ids@.contains(ids@[i as int]));
            assert(ids@.take(i + 1).drop_last() =~= ids@.take(i as int));
        }
        if let Some(s) = domain.sessions.get(ids[i]) {
            let mut more: Vec<u64> = crate::event::clone_ids(&s.windows);
            v.append(&mut more);
        }
        i = i + 1;
    }
    proof {
        assert(ids@.take(i as int) =~= ids@);
        assert forall|s: u64| #[trigger]
            ids@.contains(s) implies domain@.sessions.contains_key(s) by {
            assert(domain.sessions@.dom().contains(s));
        }
        lemma_session_windows(domain@, ids@);
        assert forall|w: u64| #[trigger] v@.contains(w) <==> domain@.windows.contains_key(w) by {
            if domain@.windows.contains_key(w) {
                assert(domain@.sessions.contains_key(domain@.windows[w].session));
                assert(domain.sessions@.dom().contains(domain@.windows[w].session));
            }
        }
    }
    v
}

impl ControlPlane {
    /// A plane over a topology, with the bounds of every window. `fits` tells how
    /// the layout engine fits each window.
    pub fn new(domain: Domain, fits: &Vec<WindowFit>, event_capacity: Option<usize>) -> (r: Result<
        Self,
        ControlError,
    >)
        requires
            domain@.wf(),
        ensures
            match new_fault(domain@, fits@, event_capacity) {
                Some(fault) => r matches Err(e) && e@ == fault,
                None => r matches Ok(plane) && plane@ == new_plane(domain@, fits@, event_capacity)
                    && plane@.wf(),
            },
    {
        let capacity: usize = match event_capacity {
            Some(n) => n,
            None => DEFAULT_EVENT_CAPACITY,
        };
        let ring: EventRing = EventRing::new(capacity)?;
        check_fits(&domain, fits)?;
        let ghost start = domain@;
        let windows: Vec<u64> = all_windows(&domain);
        let mut frames: IdMap<Frame> = IdMap::new();
        let mut host_viewports: IdMap<Viewport> = IdMap::new();
        let mut i: usize = 0;
        assert(windows@.take(0) =~= Seq::empty());
        while i < windows.len()
            invariant
                i <= windows@.len(),
                start == domain@,
                start.wf(),
                1 <= capacity_of(event_capacity) <= MAX_EVENT_CAPACITY,
                fits_fault(start, fits@) is None,
                windows@ == window_order(start),
                forall|w: u64| #[trigger] windows@.contains(w) <==> start.windows.contains_key(w),
                geometry_fault(start, fits@, windows@.take(i as int)) is None,
                forall|w: u64| #[trigger]
                    views(frames@).contains_key(w) <==> windows@.take(i as int).contains(w),
                forall|w: u64| #[trigger]
                    views(frames@).contains_key(w) ==> views(frames@)[w]
                        == new_plane(start, fits@, event_capacity).frames[w] && fit_of(
                        fits@,
                        w,
                    ) is Some && fit_of(fits@, w)->0.bounds.window_id == w && relists(
                        pane_ids(views(frames@)[w].geometry),
                        start.windows[w].layout.leaves(),
                    ),
                forall|w: u64| #[trigger]
                    host_viewports@.contains_key(w) <==> windows@.take(i as int).contains(w),
                forall|w: u64| #[trigger]
                    host_viewports@.contains_key(w) ==> host_viewports@[w]
                        == new_plane(start, fits@, event_capacity).host_viewports[w],
            decreases windows@.len() - i,
        {
            let window: u64 = windows[i];
            let ghost head = windows@.take(i as int);
            let ghost next = windows@.take(i + 1);
            proof {
                assert(windows@.contains(windows@[i as int]));
                assert(start.windows.contains_key(window));
                assert(next.drop_last() =~= head);
                assert(next.last() == window);
                lemma_last_contained(next);
            }
            let result: Result<(WindowBounds, Vec<PaneGeometry>), ControlError> = start_frame(
                &domain,
                fits,
                window,
            );
            match result {
                Err(error) => {
                    proof {
                        lemma_geometry_prefix(start, fits@, windows@, i + 1);
                    }
                    return Err(error);
                },
                Ok((bounds, geometry)) => {
                    let _ = frames.insert(window, Frame { bounds, geometry });
                    let _ = host_viewports.insert(
                        window,
                        Viewport {
                            cols: bounds.cols,
                            rows: bounds.rows,
                            cell_width_px: None,
                            cell_height_px: None,
                        },
                    );
                },
            }
            i = i + 1;
        }
        assert(windows@.take(i as int) =~= windows@);
        let mut domain = domain;
        let doorbell: u64 = match domain.mint_client() {
            Ok(client) => client,
            Err(error) => {
                return Err(control_domain_error(error));
            },
        };
        let plane = ControlPlane {
            domain,
            ring,
            clients: IdMap::new(),
            panes: IdMap::new(),
            frames,
            host_viewports,
            latest: IdMap::new(),
            aliases: AliasTable::new(),
            effects: Vec::new(),
            remote_size: RemoteSizePolicy::Latest,
            live: false,
            shutdown_pending: false,
            doorbell,
        };
        proof {
            let goal = new_plane(start, fits@, event_capacity);
            assert(plane@.frames =~= goal.frames);
            assert(plane@.host_viewports =~= goal.host_viewports);
            assert(plane@.panes =~= goal.panes);
            assert(plane@.effects =~= Seq::empty());
            assert(plane@.ring.events =~= Seq::empty());
            start.lemma_relabel(plane@.domain);
            assert(plane@.frames.dom() =~= plane@.domain.windows.dom());
            assert(plane@.panes.dom() =~= Set::<u64>::full());
        }
        Ok(plane)
    }
}

fn start_frame(domain: &Domain, fits: &Vec<WindowFit>, window: u64) -> (r: Result<
    (WindowBounds, Vec<PaneGeometry>),
    ControlError,
>)
    requires
        domain@.windows.contains_key(window),
    ensures
        match start_geometry(domain@, fits@, window) {
            Err(fault) => r matches Err(e) && e@ == fault,
            Ok(geometry) => r matches Ok((bounds, g)) && g@ == geometry && Some(bounds) == (
            match fit_of(fits@, window) {
                Some(f) => Some(f.bounds),
                None => None,
            }) && bounds.window_id == window && relists(
                pane_ids(g@),
                domain@.windows[window].layout.leaves(),
            ),
        },
{
    match find_fit(fits, window) {
        None => Err(stale_id("window geometry", window)),
        Some(f) => match &f.fit {
            Err(error) => Err(control_geometry_error(*error)),
            Ok(rects) => match domain.windows.get(window) {
                Some(w) => {
                    let leaves: Vec<u64> = w.layout.panes();
                    let geometry: Vec<PaneGeometry> = check_placed(&w.layout, rects, &leaves)?;
                    Ok((f.bounds, geometry))
                },
                None => Err(stale_id("window geometry", window)),
            },
        },
    }
}

/// Why the path that guests will find the server at cannot be used.
pub open spec fn socket_fault(path: Option<Seq<u8>>) -> Option<ErrorView> {
    match path {
        None => None,
        Some(bytes) => if !(bytes.len() > 0 && bytes[0] == 0x2f) {
            Some(
                plain_error(
                    ControlErrorCode::InvalidRequest,
                    "mux socket must be an absolute path"@,
                ),
            )
        } else if !vstd::utf8::valid_utf8(bytes) {
            Some(plain_error(ControlErrorCode::InvalidRequest, "mux socket must be UTF-8"@))
        } else {
            None
        },
    }
}

fn check_socket(path: &Option<Vec<u8>>) -> (r: Result<(), ControlError>)
    ensures
        checked(
            socket_fault(
                match path {
                    Some(bytes) => Some(bytes@),
                    None => None,
                },
            ),
            r,
        ),
{
    if let Some(bytes) = path {
        if bytes.len() == 0 || bytes[0] != 0x2f {
            return Err(
                ControlError::new(
                    ControlErrorCode::InvalidRequest,
                    "mux socket must be an absolute path",
                ),
            );
        }
        if !is_utf8(bytes.as_slice()) {
            return Err(
                ControlError::new(ControlErrorCode::InvalidRequest, "mux socket must be UTF-8"),
            );
        }
    }
    Ok(())
}

impl PlaneView {
    /// Why a pane cannot be given this child.
    pub open spec fn child_fault(self, pane: u64, spawn: SpawnView) -> Option<ErrorView> {
        if spawn_fault(spawn) is Some {
            spawn_fault(spawn)
        } else if !self.domain.panes.contains_key(pane) {
            Some(stale_error("pane"@, pane))
        } else if self.panes[pane].spawn is Some {
            Some(duplicate_view("duplicate spawn spec for pane "@, pane))
        } else {
            None
        }
    }

    pub open spec fn with_child(self, pane: u64, spawn: SpawnView) -> PlaneView {
        self.with_pane(pane, PaneStateView { spawn: Some(spawn), ..self.panes[pane] })
    }

    /// The plane with a child for each listed pane, or the first fault.
    pub open spec fn with_children(self, spawns: Seq<(u64, SpawnSpec)>) -> Result<
        PlaneView,
        ErrorView,
    >
        decreases spawns.len(),
    {
        if spawns.len() == 0 {
            Ok(self)
        } else {
            match self.child_fault(spawns[0].0, spawns[0].1@) {
                Some(fault) => Err(fault),
                None => self.with_child(spawns[0].0, spawns[0].1@).with_children(
                    spawns.drop_first(),
                ),
            }
        }
    }

    pub open spec fn has_every_child(self) -> bool {
        forall|p: u64|
            self.domain.panes.contains_key(p) ==> (#[trigger] self.panes[p]).spawn is Some
    }

    /// The plane as it is once every pane has its child.
    pub open spec fn live_start(self, spawns: Seq<(u64, SpawnSpec)>, socket: Option<Seq<u8>>) -> Result<
        PlaneView,
        ErrorView,
    > {
        match socket_fault(socket) {
            Some(fault) => Err(fault),
            None => match self.with_children(spawns) {
                Err(fault) => Err(fault),
                Ok(seated) => if !seated.has_every_child() {
                    Err(
                        plain_error(
                            ControlErrorCode::InvalidRequest,
                            "every live pane requires one spawn spec"@,
                        ),
                    )
                } else {
                    Ok(PlaneView { live: true, ..seated })
                },
            },
        }
    }

    /// Where the panes of some windows are.
    pub open spec fn geometry_of(self, windows: Seq<u64>) -> Seq<PaneGeometry>
        decreases windows.len(),
    {
        if windows.len() == 0 {
            Seq::empty()
        } else {
            self.geometry_of(windows.drop_last()) + self.frames[windows.last()].geometry
        }
    }
}

impl ControlPlane {
    /// A plane whose panes all run a child. The host starts the children, by
    /// [`ControlPlane::all_geometry`] and each pane's spawn specification, before
    /// it serves the plane. `mux_socket` is the path that guests are told.
    pub fn new_live(
        domain: Domain,
        fits: &Vec<WindowFit>,
        event_capacity: Option<usize>,
        pane_spawns: Vec<(u64, SpawnSpec)>,
        mux_socket: &Option<Vec<u8>>,
    ) -> (r: Result<Self, ControlError>)
        requires
            domain@.wf(),
        ensures
            match new_fault(domain@, fits@, event_capacity) {
                Some(fault) => r matches Err(e) && e@ == fault,
                None => match new_plane(domain@, fits@, event_capacity).live_start(
                    pane_spawns@,
                    match mux_socket {
                        Some(bytes) => Some(bytes@),
                        None => None,
                    },
                ) {
                    Err(fault) => r matches Err(e) && e@ == fault,
                    Ok(after) => r matches Ok(plane) && plane@ == after && plane@.wf(),
                },
            },
    {
        let ghost start = new_plane(domain@, fits@, event_capacity);
        let ghost fault = new_fault(domain@, fits@, event_capacity);
        let mut plane = ControlPlane::new(domain, fits, event_capacity)?;
        check_socket(mux_socket)?;
        plane.seat_children(pane_spawns)?;
        let ids: Vec<u64> = plane.domain.panes.keys();
        let mut i: usize = 0;
        while i < ids.len()
            invariant
                i <= ids@.len(),
                lists_ids(ids@, plane.domain.panes@.dom()),
                fault == new_fault(domain@, fits@, event_capacity),
                fault is None,
                start == new_plane(domain@, fits@, event_capacity),
                start.with_children(pane_spawns@) == Ok::<PlaneView, ErrorView>(plane@),
                socket_fault(
                    match mux_socket {
                        Some(bytes) => Some(bytes@),
                        None => None,
                    },
                ) is None,
                forall|k: int|
                    0 <= k < i ==> (#[trigger] plane@.panes[ids@[k]]).spawn is Some,
            decreases ids@.len() - i,
        {
            let bare: bool = match plane.panes.get(ids[i]) {
                Some(state) => state.spawn.is_none(),
                None => true,
            };
            if bare {
                proof {
                    assert(ids@.contains(ids@[i as int]));
                    assert(plane@.domain.panes.contains_key(ids@[i as int]));
                    assert(plane@.panes[ids@[i as int]].spawn is None);
                    assert(!plane@.has_every_child());
                }
                return Err(
                    ControlError::new(
                        ControlErrorCode::InvalidRequest,
                        "every live pane requires one spawn spec",
                    ),
                );
            }
            i = i + 1;
        }
        proof {
            assert forall|p: u64| plane@.domain.panes.contains_key(p) implies (
            #[trigger] plane@.panes[p]).spawn is Some by {
                assert(plane.domain.panes@.dom().contains(p));
                assert(ids@.contains(p));
                let k = choose|k: int| 0 <= k < ids@.len() && ids@[k] == p;
                assert(plane@.panes[ids@[k]].spawn is Some);
            }
        }
        plane.live = true;
        Ok(plane)
    }

    fn seat_children(&mut self, spawns: Vec<(u64, SpawnSpec)>) -> (r: Result<(), ControlError>)
        requires
            old(self)@.wf(),
        ensures
            match old(self)@.with_children(spawns@) {
                Err(fault) => r matches Err(e) && e@ == fault,
                Ok(after) => r is Ok && final(self)@ == after && final(self)@.wf(),
            },
    {
        let mut i: usize = 0;
        let ghost before = self@;
        assert(spawns@.skip(0) =~= spawns@);
        while i < spawns.len()
            invariant
                i <= spawns@.len(),
                before == old(self)@,
                self@.wf(),
                before.with_children(spawns@) == self@.with_children(spawns@.skip(i as int)),
            decreases spawns@.len() - i,
        {
            let pane: u64 = spawns[i].0;
            proof {
                assert(spawns@.skip(i as int)[0] == spawns@[i as int]);
                assert(spawns@.skip(i as int).drop_first() =~= spawns@.skip(i + 1));
            }
            spawns[i].1.validate()?;
            if !self.domain.has_pane(pane) {
                return Err(stale_id("pane", pane));
            }
            let ghost here = self@;
            let mut state: PaneState = self.take_pane(pane);
            if state.spawn.is_some() {
                return Err(duplicate_error("duplicate spawn spec for pane ", pane));
            }
            state.spawn = Some(spawns[i].1.clone());
            self.put_pane(pane, state);
            proof {
                assert(self@ =~= here.with_child(pane, spawns@[i as int].1@));
                assert(self@.panes.dom() =~= Set::<u64>::full());
            }
            i = i + 1;
        }
        Ok(())
    }

    /// Where every pane is, oldest session first.
    pub fn all_geometry(&self) -> (v: Vec<PaneGeometry>)
        requires
            self@.wf(),
        ensures
            v@ == self@.geometry_of(window_order(self@.domain)),
    {
        let windows: Vec<u64> = all_windows(&self.domain);
        let mut v: Vec<PaneGeometry> = Vec::new();
        let mut i: usize = 0;
        assert(windows@.take(0) =~= Seq::empty());
        while i < windows.len()
            invariant
                i <= windows@.len(),
                self@.wf(),
                forall|w: u64| #[trigger]
                    windows@.contains(w) <==> self@.domain.windows.contains_key(w),
                v@ == self@.geometry_of(windows@.take(i as int)),
            decreases windows@.len() - i,
        {
            proof {
                assert(windows@.contains(windows@[i as int]));
                assert(self@.frames.contains_key(windows@[i as int]));
                assert(windows@.take(i + 1).drop_last() =~= windows@.take(i as int));
            }
            if let Some(frame) = self.frames.get(windows[i]) {
                let mut more: Vec<PaneGeometry> = crate::event::clone_geometry(&frame.geometry);
                v.append(&mut more);
            }
            i = i + 1;
        }
        assert(windows@.take(i as int) =~= windows@);
        v
    }
}

} // verus!
