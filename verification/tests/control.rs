//! The control plane, driven by a host that keeps everything in memory: a small
//! layout engine, a mailbox, and children that are only counted.
use std::collections::BTreeMap;

use prismattyc_mux::conn::{frame_too_large_response, Afterwards, ClientConnState, Route};
use prismattyc_mux::discovery::{
    probe_socket_liveness, ConnectFault, SocketLiveness, SocketProbe,
};
use prismattyc_mux::dispatch::{Answers, Facts, Handled};
use prismattyc_mux::doorbell::{inject_wait, InjectPlan, InjectStep, InjectWait, PaneFacts};
use prismattyc_mux::error::{
    ControlError, ControlErrorCode, DomainError, GeometryError, LiveWriteError,
};
use prismattyc_mux::event::{Event, EventBatch};
use prismattyc_mux::frame::{read_frame, FrameStep, IoFault, ReadEvent, MAX_REQUEST_BYTES};
use prismattyc_mux::hive::PaneTree;
use prismattyc_mux::idmap::IdMap;
use prismattyc_mux::ledger::{
    MAIL_INJECT_BUSY_BYTES, MAIL_INJECT_DIRTY_IDLE_MS, MAIL_INJECT_INPUT_IDLE_MS,
    MAIL_INJECT_QUIET_MS,
};
use prismattyc_mux::mailbox::Address;
use prismattyc_mux::pane_write::ChunkQueue;
use prismattyc_mux::place::{rect_for, Placement};
use prismattyc_mux::plane::ControlPlane;
use prismattyc_mux::request::ControlRequest;
use prismattyc_mux::response::{
    ControlResponse, ControlResponseBody, ControlResponseData, PaneContent, PaneStyled, Snapshot,
};
use prismattyc_mux::server::{prepare_socket_path, SocketPlan};
use prismattyc_mux::sessions::Resolved;
use prismattyc_mux::setup::WindowFit;
use prismattyc_mux::snapshot::Tick;
use prismattyc_mux::state::{Ask, Effect, MailNudge, PaneState};
use prismattyc_mux::step::Step;
use prismattyc_mux::subscribe::{
    mail_arrived, mail_wait_response, CatchUp, PaneFeed, StreamStep, StreamWait, Subscription,
};
use prismattyc_mux::topology::{Domain, PaneLayout};
use prismattyc_mux::wire::{
    ArrangementWire, AttentionAction, AttentionRequest, AxisWire, CellRect, ClientRole, InjectAgent, Letter,
    MailAttentionState, MailInjectOutcome, MailWake, PaneEvent, PaneGeometry, PaneInputLedger,
    PaneLogFrame, PaneWriteSubmit, RemoteSizePolicy, RichInputKind, SizeOwner, SizeOwnerKind,
    SpawnSpec, ViewerId, WindowBounds, MAIL_ATTENTION_CELL, MAIL_INJECT_PAYLOAD, PMUX_MAIL_NOTIFICATION,
    MAX_SPAWN_BYTES, PROTOCOL_VERSION,
};
use prismattyc_mux::writes::{content_reply, copy_reply, rich_focus_reply, styled_reply, ChunkReport};

fn ratio(value: f64) -> u64 {
    value.to_bits()
}

/// Fits a tree into a rectangle. A pane needs two columns and one row.
fn place(layout: &PaneLayout, area: CellRect, out: &mut Vec<(u64, CellRect)>) -> Result<(), GeometryError> {
    match layout {
        PaneLayout::Leaf { pane_id } => {
            if area.cols < 2 || area.rows < 1 {
                return Err(GeometryError::TooSmall);
            }
            out.push((*pane_id, area));
            Ok(())
        }
        PaneLayout::Split { axis, ratio_bits, first, second } => {
            let share = f64::from_bits(*ratio_bits);
            let (a, b) = match axis {
                AxisWire::Horizontal => {
                    let cols = (area.cols as f64 * share) as usize;
                    (
                        CellRect { cols, ..area },
                        CellRect { col: area.col + cols, cols: area.cols - cols, ..area },
                    )
                }
                AxisWire::Vertical => {
                    let rows = (area.rows as f64 * share) as usize;
                    (
                        CellRect { rows, ..area },
                        CellRect { row: area.row + rows, rows: area.rows - rows, ..area },
                    )
                }
            };
            place(first, a, out)?;
            place(second, b, out)
        }
    }
}

fn fit(layout: &PaneLayout, bounds: WindowBounds) -> Result<Vec<(u64, CellRect)>, GeometryError> {
    let mut out = Vec::new();
    place(layout, rect_for(bounds), &mut out)?;
    Ok(out)
}

fn split_leaf(layout: &PaneLayout, target: u64, pane: u64, axis: AxisWire, ratio_bits: u64) -> PaneLayout {
    match layout {
        PaneLayout::Leaf { pane_id } if *pane_id == target => PaneLayout::Split {
            axis,
            ratio_bits,
            first: Box::new(PaneLayout::Leaf { pane_id: target }),
            second: Box::new(PaneLayout::Leaf { pane_id: pane }),
        },
        PaneLayout::Leaf { pane_id } => PaneLayout::Leaf { pane_id: *pane_id },
        PaneLayout::Split { axis: a, ratio_bits: r, first, second } => PaneLayout::Split {
            axis: *a,
            ratio_bits: *r,
            first: Box::new(split_leaf(first, target, pane, axis, ratio_bits)),
            second: Box::new(split_leaf(second, target, pane, axis, ratio_bits)),
        },
    }
}

fn without_leaf(layout: &PaneLayout, pane: u64) -> Option<PaneLayout> {
    match layout {
        PaneLayout::Leaf { pane_id } if *pane_id == pane => None,
        PaneLayout::Leaf { pane_id } => Some(PaneLayout::Leaf { pane_id: *pane_id }),
        PaneLayout::Split { axis, ratio_bits, first, second } => {
            match (without_leaf(first, pane), without_leaf(second, pane)) {
                (Some(a), Some(b)) => Some(PaneLayout::Split {
                    axis: *axis,
                    ratio_bits: *ratio_bits,
                    first: Box::new(a),
                    second: Box::new(b),
                }),
                (a, b) => a.or(b),
            }
        }
    }
}

fn row_of(leaves: &[u64], axis: AxisWire) -> PaneLayout {
    if leaves.len() == 1 {
        return PaneLayout::Leaf { pane_id: leaves[0] };
    }
    PaneLayout::Split {
        axis,
        ratio_bits: ratio(1.0 / leaves.len() as f64),
        first: Box::new(PaneLayout::Leaf { pane_id: leaves[0] }),
        second: Box::new(row_of(&leaves[1..], axis)),
    }
}

fn placement(layout: PaneLayout, bounds: WindowBounds) -> Result<Placement, DomainError> {
    let rects = fit(&layout, bounds).map_err(DomainError::Geometry)?;
    Ok(Placement { layout, rects, rest: None, rest_rects: Vec::new(), focus: None })
}

/// A letter in the mailbox; a held one was claimed.
struct Stored {
    letter: Letter,
    held: bool,
}

#[derive(Default)]
struct Store {
    letters: Vec<Stored>,
    next: u64,
    names: Vec<String>,
}

impl Store {
    fn depth(&self, agent: &str) -> (u32, u32) {
        let mine = self.letters.iter().filter(|s| s.letter.to == agent);
        let held = mine.clone().filter(|s| s.held).count() as u32;
        (mine.count() as u32 - held, held)
    }

    fn send(&mut self, from: &str, to: &str, summary: &str, body: &str) -> (String, u32) {
        self.next += 1;
        let id = format!("letter-{}", self.next);
        self.letters.push(Stored {
            letter: Letter {
                id: id.clone(),
                from: from.into(),
                to: to.into(),
                summary: summary.into(),
                body: body.into(),
            },
            held: false,
        });
        for name in [from, to] {
            if !self.names.contains(&name.to_string()) {
                self.names.push(name.into());
            }
        }
        (id, self.depth(to).0)
    }
}

fn letter_copy(letter: &Letter) -> Letter {
    Letter {
        id: letter.id.clone(),
        from: letter.from.clone(),
        to: letter.to.clone(),
        summary: letter.summary.clone(),
        body: letter.body.clone(),
    }
}

fn name_check(name: &str) -> Result<(), String> {
    if name.is_empty() || name.contains(char::is_whitespace) {
        Err("agent id must be a single word".into())
    } else {
        Ok(())
    }
}

struct Child {
    pid: u32,
    revision: u64,
    input: Vec<u8>,
    /// How many more writes the child reacts to.
    reacts: u32,
    refuses: bool,
    cols: u32,
    rows: u32,
    /// How much of its input the child has echoed, once it has greeted.
    echoed: Option<usize>,
}

/// A control plane and its host.
struct Mux {
    plane: ControlPlane,
    now: u64,
    agent: InjectAgent,
    store: Store,
    children: BTreeMap<u64, Child>,
    next_pid: u32,
    reacts: u32,
    logs: BTreeMap<u64, Vec<PaneLogFrame>>,
    log_start: BTreeMap<u64, u64>,
    /// Copies that clients asked for, oldest first.
    wanted: Vec<(u64, u64)>,
    /// Copies that are there: number, pane and client.
    copies: Vec<(u64, u64, u64)>,
    last_copy: u64,
    /// Panes with a structured surface, and the viewer that it listens to.
    rich: BTreeMap<u64, Option<ViewerId>>,
    tokens: u64,
    /// Children do not start.
    no_children: bool,
}

const COPIED: &str = "crates/foo.rs:10:1";

impl Mux {
    fn new(plane: ControlPlane, reacts: u32) -> Mux {
        let mut mux = Mux {
            plane,
            now: 10_000_000,
            agent: InjectAgent::Claude,
            store: Store::default(),
            children: BTreeMap::new(),
            next_pid: 4_000,
            reacts,
            logs: BTreeMap::new(),
            log_start: BTreeMap::new(),
            wanted: Vec::new(),
            copies: Vec::new(),
            last_copy: 0,
            rich: BTreeMap::new(),
            tokens: 0,
            no_children: false,
        };
        if mux.plane.is_live() {
            for geometry in mux.plane.all_geometry() {
                mux.start(&geometry);
            }
        }
        mux
    }

    fn start(&mut self, geometry: &PaneGeometry) {
        self.next_pid += 1;
        self.children.insert(
            geometry.pane_id,
            Child {
                pid: self.next_pid,
                revision: 1,
                input: Vec::new(),
                reacts: self.reacts,
                refuses: false,
                cols: geometry.cols,
                rows: geometry.rows,
                echoed: None,
            },
        );
    }

    /// Every child greets, then echoes each line that it read.
    fn run_children(&mut self) {
        let mut said: Vec<(u64, Vec<u8>)> = Vec::new();
        for (pane, child) in &mut self.children {
            let mut text = Vec::new();
            if child.echoed.is_none() {
                let spawn = self.plane.panes.get(*pane).and_then(|state| state.spawn.as_ref());
                let script = spawn.map_or("", |spawn| spawn.argv[1].as_str());
                let greeting = script.trim_start_matches("printf '").split('\\').next().unwrap();
                text.extend_from_slice(greeting.as_bytes());
                text.push(b'\n');
            }
            let fresh = &child.input[child.echoed.unwrap_or(0)..];
            let lines = fresh.iter().rposition(|byte| *byte == b'\n').map_or(0, |at| at + 1);
            for line in fresh[..lines].split_inclusive(|byte| *byte == b'\n') {
                text.extend_from_slice(b"ECHO:");
                text.extend_from_slice(line);
            }
            child.echoed = Some(child.echoed.unwrap_or(0) + lines);
            if !text.is_empty() {
                child.revision += 1;
                said.push((*pane, text));
            }
        }
        let mut ticks = Vec::new();
        for (pane, bytes) in said {
            let (revision, nbytes) = (self.children[&pane].revision, bytes.len());
            ticks.push(Tick { pane, revision, child_alive: true, nbytes, attention: None });
            self.log(pane, PaneEvent::Output { bytes });
        }
        self.plane.drain_live(&ticks, self.now);
        self.settle_effects();
    }

    /// The surface of a pane hands out a copy, to who asked first.
    fn feed_copy(&mut self, pane: u64) {
        if let Some(at) = self.wanted.iter().position(|wanted| wanted.0 == pane) {
            let (pane, client) = self.wanted.remove(at);
            self.last_copy += 1;
            self.copies.push((self.last_copy, pane, client));
        }
    }

    fn facts(&self) -> Facts {
        let mut pids = IdMap::new();
        for (pane, child) in &self.children {
            let _ = pids.insert(*pane, child.pid);
        }
        Facts {
            now: self.now,
            pid: 77,
            package_version: "0.1.0".into(),
            pids,
            modifier_mask: 0x0f,
            cursor_submit: b"\x1b[27u".to_vec(),
        }
    }

    fn write(&mut self, pane: u64, bytes: &[u8]) -> Result<(), LiveWriteError> {
        let child = self.children.get_mut(&pane).ok_or(LiveWriteError::UnknownPane)?;
        if child.refuses {
            return Err(LiveWriteError::Backpressure);
        }
        child.input.extend_from_slice(bytes);
        if child.reacts > 0 {
            child.reacts -= 1;
            child.revision += 1;
        }
        Ok(())
    }

    fn input(&self, pane: u64) -> String {
        String::from_utf8(self.children[&pane].input.clone()).unwrap()
    }

    fn log(&mut self, pane: u64, event: PaneEvent) {
        let log = self.logs.entry(pane).or_default();
        let seq = log.last().map_or(0, |frame| frame.seq) + 1;
        log.push(PaneLogFrame { seq, event });
    }

    fn settle_effects(&mut self) {
        for effect in self.plane.take_effects() {
            match effect {
                Effect::RemovePane { pane } => {
                    self.children.remove(&pane);
                }
                Effect::LogMailDepth { pane, depth } => self.log(pane, PaneEvent::MailDepth { depth }),
                Effect::LogStatus { pane, status } => self.log(pane, PaneEvent::Status { text: status }),
                Effect::QueueCopy { pane, client, count } => {
                    self.wanted.extend((0..count).map(|_| (pane, client)));
                }
                Effect::RevokeViewer { pane, viewer } => {
                    if self.rich.get(&pane) == Some(&Some(viewer)) {
                        self.rich.insert(pane, None);
                    }
                }
                Effect::NoteController { pane, .. } => {
                    if self.rich.contains_key(&pane) {
                        self.rich.insert(pane, None);
                    }
                }
                _ => {}
            }
        }
    }

    fn handle(&mut self, request: ControlRequest) -> ControlResponse {
        let (_, request_id) = request.header();
        let mut answers = Answers::blank();
        loop {
            let facts = self.facts();
            let handled = self.plane.handle(&request, &answers, &facts);
            self.settle_effects();
            let step = match handled {
                Handled::Respond(response) => return response,
                Handled::Work(step) => step,
            };
            let result = match step {
                Step::Reply(result) => result,
                Step::Wait(ask) => match self.answer(ask, &request, &mut answers) {
                    Some(result) => result,
                    None => continue,
                },
                Step::Bells { rings, reply } => {
                    for ring in rings {
                        let doorbell = self.plane.doorbell;
                        if let Some((pane, rev)) =
                            self.plane.on_mail_stored(&ring.agent, ring.depth, self.now)
                        {
                            let _ = self.inject(doorbell, pane, rev, 1, false);
                        }
                    }
                    Ok(reply)
                }
                Step::Inject { client, pane, queue_rev, attempts } => {
                    self.inject(client, pane, queue_rev, attempts, false)
                }
                Step::Refit { client, windows, reply } => {
                    for window in windows {
                        self.refit(client, window);
                    }
                    Ok(reply)
                }
            };
            self.settle_effects();
            return ControlResponse::from_result(request_id, result);
        }
    }

    fn refit(&mut self, client: u64, window: u64) {
        let mut answers = Answers::blank();
        while let Step::Wait(ask) =
            self.plane.refit_window(client, window, answers.size, &answers.placed, &answers.lived)
        {
            let ping = ControlRequest::Ping { version: PROTOCOL_VERSION, request_id: 1 };
            assert!(self.answer(ask, &ping, &mut answers).is_none());
        }
    }

    fn pane_facts(&self, pane: u64) -> PaneFacts {
        PaneFacts { agent: self.agent, revision: self.children.get(&pane).map(|c| c.revision) }
    }

    fn inject(
        &mut self,
        client: u64,
        pane: u64,
        queue_rev: u64,
        attempts: u32,
        verification: bool,
    ) -> Result<ControlResponseData, ControlError> {
        let facts = self.pane_facts(pane);
        let plan: InjectPlan = match self.plane.inject_begin(
            client,
            pane,
            queue_rev,
            attempts,
            verification,
            facts,
            self.now,
        ) {
            InjectStep::Done(result) => return result,
            InjectStep::Write(plan) => plan,
        };
        let written = if self.plane.is_live() {
            self.write(pane, MAIL_INJECT_PAYLOAD.as_bytes())
        } else {
            Err(LiveWriteError::Disconnected)
        };
        self.plane.inject_written(plan, written, self.now)?;
        let mut elapsed = 0;
        let mut pause = 1;
        let bumped = loop {
            match inject_wait(facts.revision, self.pane_facts(pane).revision, elapsed, pause) {
                InjectWait::Bumped => break true,
                InjectWait::TimedOut => break false,
                InjectWait::Pause { sleep_ms, next_ms } => {
                    elapsed += sleep_ms;
                    pause = next_ms;
                }
            }
        };
        let facts = self.pane_facts(pane);
        let data = self.plane.inject_finish(plan, MAIL_INJECT_PAYLOAD.len(), bumped, facts, self.now);
        self.settle_effects();
        Ok(data)
    }

    fn retry_mail_nudges(&mut self) {
        for (pane, nudge) in self.plane.due_nudges(self.now) {
            if self.plane.nudge_begin(pane, nudge) {
                let doorbell = self.plane.doorbell;
                let result = self.inject(doorbell, pane, nudge.queue_rev, 1, nudge.verification);
                self.plane.nudge_end(pane, nudge, &result, self.now);
            }
        }
        self.settle_effects();
    }

    /// Does what the plane asks for. A reply settles the request.
    fn answer(
        &mut self,
        ask: Ask,
        request: &ControlRequest,
        answers: &mut Answers,
    ) -> Option<Result<ControlResponseData, ControlError>> {
        match ask {
            Ask::Split { layout, target, new_pane, axis, ratio_bits, bounds } => {
                let share = f64::from_bits(ratio_bits);
                answers.placed = Some(if share <= 0.0 || share >= 1.0 {
                    Err(DomainError::Geometry(GeometryError::InvalidRatio))
                } else {
                    placement(split_leaf(&layout, target, new_pane, axis, ratio_bits), bounds)
                });
            }
            Ask::Close { layout, pane, prior_focus, bounds } => {
                answers.placed = Some(match without_leaf(&layout, pane) {
                    None => Err(DomainError::Geometry(GeometryError::LastPane)),
                    Some(rest) => {
                        let focus = if prior_focus != pane { prior_focus } else { rest.first_pane() };
                        placement(rest, bounds).map(|p| Placement { focus: Some(focus), ..p })
                    }
                });
            }
            Ask::Move { source, source_bounds, layout, bounds, pane, target, axis, ratio_bits } => {
                let rest = without_leaf(&source, pane);
                let rest_rects = rest.as_ref().map(|tree| fit(tree, source_bounds).unwrap());
                let focus = rest.as_ref().map(|tree| tree.first_pane());
                answers.placed = Some(
                    placement(split_leaf(&layout, target, pane, axis, ratio_bits), bounds).map(|p| {
                        Placement { rest, rest_rects: rest_rects.unwrap_or_default(), focus, ..p }
                    }),
                );
            }
            Ask::Open { source, source_bounds, pane, bounds } => {
                let rest = without_leaf(&source, pane);
                let rest_rects = rest.as_ref().map(|tree| fit(tree, source_bounds).unwrap());
                let focus = rest.as_ref().map(|tree| tree.first_pane());
                answers.placed = Some(placement(PaneLayout::Leaf { pane_id: pane }, bounds).map(|p| {
                    Placement { rest, rest_rects: rest_rects.unwrap_or_default(), focus, ..p }
                }));
            }
            Ask::Arrange { leaves, bounds, .. } => {
                answers.placed = Some(placement(row_of(&leaves, AxisWire::Horizontal), bounds));
            }
            Ask::Fit { layout, bounds } => answers.placed = Some(placement(layout, bounds)),
            Ask::Spawn { .. } if self.no_children => {
                answers.lived = Some(Err("no such program".into()));
            }
            Ask::Spawn { pane, geometry, .. } => {
                self.start(&pane);
                self.apply(&geometry);
                answers.lived = Some(Ok(()));
            }
            Ask::Apply { geometry, .. } => {
                self.apply(&geometry);
                answers.lived = Some(Ok(()));
            }
            Ask::Write { pane, bytes, siblings } => {
                let written = self.write(pane, &bytes);
                if written.is_ok() {
                    for sibling in siblings {
                        let _ = self.write(sibling, &bytes);
                    }
                }
                answers.written = Some(written);
            }
            Ask::ForegroundAgent { .. } => answers.agent = Some(self.agent),
            Ask::WriteChunks { pane, chunks } => {
                let mut queue = ChunkQueue::new(chunks);
                while let Some(chunk) = queue.next_chunk() {
                    let written = self.write(pane, &chunk);
                    queue.record(written);
                }
                answers.chunks = Some(queue.report());
            }
            Ask::Content { pane } => {
                return Some(content_reply(self.children.get(&pane).map(|c| screen(pane, c))));
            }
            Ask::Styled { pane, view_offset, client, viewer } => {
                let copy = self.copies.iter().find(|copy| copy.1 == pane && copy.2 == client);
                let copy = copy.map(|copy| (copy.0, COPIED.to_string()));
                let focused = self.rich.get(&pane) == Some(&Some(viewer));
                let content = self.children.get(&pane).map(|c| PaneStyled {
                    structured_focus: focused,
                    rich_focus_id: focused.then_some(1),
                    ..styled(pane, c, view_offset)
                });
                return Some(styled_reply(content, copy));
            }
            Ask::RichFocus { pane, viewer, revoke } => {
                let answer = match self.rich.get_mut(&pane) {
                    Some(focus) if !revoke => {
                        *focus = Some(viewer);
                        (true, Some(1), true)
                    }
                    _ => (false, None, false),
                };
                return Some(rich_focus_reply(pane, Ok(answer)));
            }
            Ask::RichKey { pane, viewer, .. }
            | Ask::RichPointer { pane, viewer, .. }
            | Ask::RichScroll { pane, viewer, .. } => {
                let ControlRequest::RichInput { client_id, input, .. } = request else {
                    panic!("rich input for another request")
                };
                let focused = self.rich.get(&pane) == Some(&Some(viewer));
                let routed = Ok(focused.then_some(true));
                return Some(self.plane.rich_routed(*client_id, pane, input, routed));
            }
            Ask::CopySemantic { pane, client, seq } => {
                let mine = |copy: &(u64, u64, u64)| copy.1 == pane && copy.2 == client;
                let at = self.copies.iter().position(|copy| mine(copy) && seq == Some(copy.0));
                let text = self.copies.iter().find(|copy| mine(copy)).map(|_| COPIED.to_string());
                let acked = at.map(|at| self.copies.remove(at).0);
                return Some(Ok(copy_reply(pane, text, acked)));
            }
            Ask::Token => {
                self.tokens += 1;
                answers.token = Some(Ok(format!("{:032x}", u128::MAX / (7 + self.tokens as u128))));
            }
            Ask::RecordHost { cols, rows, current, latest_is_remote } => {
                answers.record_host = Some(!(latest_is_remote && current == Some((cols, rows))));
            }
            Ask::DecideSize { policy, role, reported, fit, current, .. } => {
                let wanted = fit || role == ClientRole::Host || policy == RemoteSizePolicy::Latest;
                let same = current == Some((reported.cols, reported.rows));
                answers.size = Some(if wanted && !same { Some(reported) } else { None });
            }
            Ask::DecideRefit { host, remaining } => answers.size = Some(host.or(remaining)),
            Ask::SpaceIdValid { space } => {
                answers.space_valid = Some(space.len() == 32 && space.chars().all(|c| c.is_ascii_hexdigit()));
            }
            Ask::Resolve { name } => {
                answers.resolved = Some(Resolved {
                    address: Ok(name.clone()),
                    open: Some(self.store.depth(&name).0),
                });
                answers.sender = Some(Ok(name));
            }
            Ask::Seat { name } | Ask::Recipient { name } => {
                answers.address = Some(match name_check(&name) {
                    Ok(()) => Address::Found { name: name.clone(), resolved: name },
                    Err(error) => Address::Invalid { error },
                });
            }
            Ask::StoreSend { from, to, summary, body } => {
                answers.stored = Some(Ok(self.store.send(&from, &to, &summary, &body)));
            }
            Ask::StoreClaim { agent } => {
                let mut letters = Vec::new();
                for stored in &mut self.store.letters {
                    if stored.letter.to == agent {
                        stored.held = true;
                        letters.push(letter_copy(&stored.letter));
                    }
                }
                let open = Some(self.store.depth(&agent).0);
                return Some(self.plane.mail_claimed(&agent, Ok(letters), open, self.now));
            }
            Ask::StoreCommit { agent, ids } => {
                let before = self.store.letters.len();
                self.store.letters.retain(|s| !(s.letter.to == agent && ids.contains(&s.letter.id)));
                let n = (before - self.store.letters.len()) as u32;
                let open = Some(self.store.depth(&agent).0);
                return Some(self.plane.mail_committed(&agent, Ok(n), open, self.now));
            }
            Ask::StoreRelease { agent, ids } => {
                let mut n = 0;
                for stored in &mut self.store.letters {
                    if stored.letter.to == agent && stored.held && ids.contains(&stored.letter.id) {
                        stored.held = false;
                        n += 1;
                    }
                }
                let open = Some(self.store.depth(&agent).0);
                return Some(self.plane.mail_released(&agent, Ok(n), open, self.now));
            }
            Ask::StoreDepth { agent } => {
                return Some(self.plane.mail_peeked(&agent, Ok(self.store.depth(&agent))));
            }
            Ask::StoreForwards { agents } => {
                let none = agents.iter().map(|_| Vec::new()).collect();
                return Some(self.plane.mail_present(&Ok(none), &self.facts().pids));
            }
            Ask::StoreReserved => {
                answers.reserved = Some(Ok(self.store.names.clone()));
            }
            Ask::StoreRename { old_agent, agent } => {
                for stored in &mut self.store.letters {
                    if stored.letter.to == old_agent {
                        stored.letter.to = agent.clone();
                    }
                }
                answers.renamed = Some(Ok(Some(self.store.depth(&agent).0)));
            }
            Ask::StoreBroadcast { from, recipients, summary, body } => {
                let depths: Vec<u32> = recipients
                    .iter()
                    .map(|to| self.store.send(&from, to, &summary, &body).1)
                    .collect();
                answers.sent = Some(Ok((depths.len() as u32, depths)));
            }
        }
        None
    }

    fn apply(&mut self, geometry: &[PaneGeometry]) {
        for place in geometry {
            if let Some(child) = self.children.get_mut(&place.pane_id) {
                child.cols = place.cols;
                child.rows = place.rows;
            }
        }
    }

    fn hive_drain(&mut self, pane: u64) -> bool {
        let cleared = self.plane.clear_mail_after_hive_drain(pane);
        self.settle_effects();
        cleared
    }

    fn snapshot(&self) -> Result<Snapshot, ControlError> {
        self.plane.snapshot(&self.facts().pids, self.now)
    }

    fn sequence(&self) -> u64 {
        self.plane.sequence()
    }

    fn events_after(&self, after: u64, limit: Option<usize>) -> Result<EventBatch, ControlError> {
        self.plane.ring.events_after(after, limit)
    }

    fn bounds(&self, window: u64) -> WindowBounds {
        self.plane.frames.get(window).unwrap().bounds
    }

    fn pane_state(&self, pane: u64) -> Option<&PaneState> {
        self.plane.panes.get(pane)
    }

    fn edit_pane(&mut self, pane: u64, edit: impl FnOnce(&mut PaneState)) {
        let mut state = self.plane.panes.remove(pane).unwrap_or_else(PaneState::blank);
        edit(&mut state);
        let _ = self.plane.panes.insert(pane, state);
    }

    fn mail_attention(&self, pane: u64) -> Option<&MailAttentionState> {
        self.pane_state(pane).and_then(|state| state.mail.as_ref())
    }

    fn lit(&self) -> Vec<u64> {
        self.plane.panes.keys().into_iter().filter(|pane| self.mail_attention(*pane).is_some()).collect()
    }

    fn nudge(&self, pane: u64) -> Option<MailNudge> {
        self.pane_state(pane).and_then(|state| state.nudge)
    }

    fn team_attention(&self, pane: u64) -> Option<&AttentionRequest> {
        self.pane_state(pane).and_then(|state| state.team.as_ref())
    }

    fn attention(&self, pane: u64) -> Option<&str> {
        self.pane_state(pane).and_then(|state| state.attention.as_deref())
    }

    fn mail_inject_writes(&self, pane: u64) -> u32 {
        self.pane_state(pane).and_then(|state| state.inject).map_or(0, |record| record.writes)
    }

    fn mail_depths(&self, pane: u64) -> Vec<u32> {
        let log = self.logs.get(&pane).map_or(&[][..], |log| log.as_slice());
        log.iter()
            .filter_map(|frame| match frame.event {
                PaneEvent::MailDepth { depth } => Some(depth),
                _ => None,
            })
            .collect()
    }

    fn record_output_bytes(&mut self, pane: u64, nbytes: usize) {
        let tick = Tick { pane, revision: 1, child_alive: true, nbytes, attention: None };
        let now = self.now;
        let mut ring = self.plane.ring.sequence;
        self.plane.drain_live(&vec![tick], now);
        ring = self.plane.ring.sequence - ring;
        assert!(ring <= 1);
    }

    fn stamp_last_input_at_ms(&mut self, pane: u64, ms: u64) {
        self.edit_pane(pane, |state| state.input_at = Some(ms));
    }

    fn stamp_last_output_at_ms(&mut self, pane: u64, ms: u64) {
        self.edit_pane(pane, |state| state.output_at = Some(ms));
    }

    fn stamp_write_ledger(&mut self, pane: u64, at_ms: u64, ended_cr: bool) {
        self.edit_pane(pane, |state| state.written = Some((at_ms, ended_cr)));
    }

    /// The frames of a pane log after a place, as a reader gets them.
    fn feed(&self, pane: u64, from: u64) -> PaneFeed {
        let empty = Vec::new();
        let log = self.logs.get(&pane).unwrap_or(&empty);
        let current = log.last().map_or(0, |frame| frame.seq);
        let oldest = self.log_start.get(&pane).copied().unwrap_or(1);
        let catch_up = if from > current {
            CatchUp::Ahead { current, oldest: Some(oldest) }
        } else if from + 1 < oldest {
            CatchUp::Gap { oldest, current }
        } else {
            CatchUp::Events(log.iter().filter(|frame| frame.seq > from).map(frame_copy).collect())
        };
        PaneFeed {
            gone: !self.children.contains_key(&pane),
            catch_up: Some(catch_up),
            screen: self.children.get(&pane).map(|c| styled(pane, c, None)),
        }
    }
}

fn frame_copy(frame: &PaneLogFrame) -> PaneLogFrame {
    let event = match &frame.event {
        PaneEvent::Output { bytes } => PaneEvent::Output { bytes: bytes.clone() },
        PaneEvent::Status { text } => PaneEvent::Status { text: text.clone() },
        PaneEvent::MailDepth { depth } => PaneEvent::MailDepth { depth: *depth },
        PaneEvent::Note { text } => PaneEvent::Note { text: text.clone() },
    };
    PaneLogFrame { seq: frame.seq, event }
}

fn screen(pane: u64, child: &Child) -> PaneContent {
    PaneContent {
        pane_id: pane,
        revision: child.revision,
        cols: child.cols,
        rows: child.rows,
        cursor_row: 0,
        cursor_col: 0,
        cursor_visible: true,
        alt_active: false,
        child_alive: true,
        child_pid: Some(child.pid),
        lines: vec![String::from_utf8_lossy(&child.input).into_owned()],
        cursor_shape: None,
    }
}

fn styled(pane: u64, child: &Child, view_offset: Option<u32>) -> PaneStyled {
    PaneStyled {
        content: screen(pane, child),
        runs: Vec::new(),
        workspace: Vec::new(),
        view_offset,
        max_view_scroll: None,
        child_mouse_tracking: None,
        child_mouse_sgr: None,
        overlays: Vec::new(),
        experimental_rich: false,
        rich_focus_id: None,
        structured_focus: false,
        semantic_clipboard: None,
        semantic_clipboard_seq: None,
        workspace_inverse: Vec::new(),
        workspace_styles: Vec::new(),
    }
}

/// A topology with one session, one window and one pane.
fn bootstrap(name: &str) -> (Domain, u64, u64) {
    let mut domain = Domain::new();
    let session = domain.create_session(name, &None);
    let (window, pane) = domain.create_window(session, "shell");
    (domain, window, pane)
}

fn fits(window: u64, pane: u64, cols: u32, rows: u32) -> Vec<WindowFit> {
    let bounds = WindowBounds { window_id: window, cols, rows };
    vec![WindowFit { bounds, fit: fit(&PaneLayout::Leaf { pane_id: pane }, bounds) }]
}

fn fixture(capacity: usize) -> (Mux, u64, u64) {
    let (domain, window, pane) = bootstrap("test");
    let plane = ControlPlane::new(domain, &fits(window, pane, 80, 24), Some(capacity)).unwrap();
    (Mux::new(plane, 0), window, pane)
}

fn live_shell_spawn(label: &str) -> SpawnSpec {
    SpawnSpec {
        program: "/bin/sh".into(),
        argv: vec!["-c".into(), format!("printf '{label}\\n'; exec cat")],
        cwd: Some(b"/tmp".to_vec()),
        env: Vec::new(),
    }
}

/// A plane whose children react to so many writes.
fn live_mux(label: &str, reacts: u32) -> (Mux, u64, u64) {
    let (domain, window, pane) = bootstrap("live");
    let plane = ControlPlane::new_live(
        domain,
        &fits(window, pane, 80, 24),
        Some(32),
        vec![(pane, live_shell_spawn(label))],
        &None,
    )
    .unwrap();
    (Mux::new(plane, reacts), window, pane)
}

fn live_fixture(label: &str) -> (Mux, u64, u64) {
    live_mux(label, u32::MAX)
}

/// A child that reacts to what it reads, or one that is silent.
fn live_inject_fixture(reacts: u32) -> (Mux, u64) {
    let (mux, _, pane) = live_mux("READY", reacts);
    (mux, pane)
}

fn quiet_unattended(plane: &mut Mux, pane: u64) {
    let at = plane.now.saturating_sub(MAIL_INJECT_QUIET_MS + 50);
    plane.edit_pane(pane, |state| {
        state.output_at = Some(at);
        state.output.clear();
    });
}

fn register_live_client(plane: &mut Mux) -> u64 {
    registered_client(plane.handle(ControlRequest::RegisterClient {
        version: PROTOCOL_VERSION,
        request_id: 1,
    }))
}

fn error_code(response: &ControlResponse) -> ControlErrorCode {
    match &response.body {
        ControlResponseBody::Failure { error } => error.code,
        other => panic!("expected an error, got {other:?}"),
    }
}

fn mutation_sequence(response: &ControlResponse) -> u64 {
    match &response.body {
        ControlResponseBody::Success { response: ControlResponseData::Mutation { ack } } => ack.sequence,
        other => panic!("expected a mutation, got {other:?}"),
    }
}

/// The server's end of some connections.
struct Server {
    mux: Mux,
    /// What the last response asked of the server.
    after: Afterwards,
}

impl Server {
    fn connect(&self) -> ClientConnState {
        ClientConnState::new()
    }

    /// One request of a connection.
    fn request(&mut self, conn: &mut ClientConnState, request: ControlRequest) -> ControlResponse {
        let (_, request_id) = request.header();
        let response = match conn.route(&request, false) {
            Route::Respond(response) => response,
            Route::SnapshotRequired => {
                ControlResponse::error(request_id, self.mux.plane.ring.snapshot_required_error())
            }
            Route::Serve => {
                self.mux.handle(request.clone())
            }
            Route::Subscribe => return self.stream(&request).1,
            Route::MailWait | Route::Stop => panic!("unexpected route"),
        };
        self.after = conn.settle(&request, &response);
        response
    }

    /// A stream and its first response.
    fn stream(&mut self, request: &ControlRequest) -> (Subscription, ControlResponse) {
        let ControlRequest::SubscribePane { request_id, client_id, pane_id, from_seq, timeout_ms, .. } = request
        else {
            panic!("expected a subscription")
        };
        let mut stream = Subscription::new(*request_id, *client_id, *pane_id, *from_seq, *timeout_ms);
        let feed = self.mux.feed(*pane_id, *from_seq);
        let frame = self.mux.plane.subscribe_frame(
            stream.client,
            stream.pane,
            stream.through_seq,
            stream.timeout_ms == 0,
            false,
            feed,
        );
        match stream.open_stream(frame) {
            StreamStep::Send(response) | StreamStep::Last(response) => (stream, response),
            StreamStep::Quiet => panic!("expected a frame"),
        }
    }

    /// What a stream sends after its first response, if there is anything.
    fn follow(&mut self, stream: &mut Subscription) -> StreamStep {
        let feed = self.mux.feed(stream.pane, stream.through_seq);
        let plane = &self.mux.plane;
        match plane.subscribe_has_work(stream.client, &feed) {
            Ok(false) => StreamStep::Quiet,
            Ok(true) => {
                let frame = plane.subscribe_frame(
                    stream.client,
                    stream.pane,
                    stream.through_seq,
                    false,
                    true,
                    feed,
                );
                stream.follow(frame)
            }
            Err(error) => stream.follow(Err(error)),
        }
    }

    /// The connection is gone.
    fn hang_up(&mut self, conn: ClientConnState) {
        if let Some(request) = conn.farewell() {
            let _ = self.mux.handle(request);
        }
    }
}

fn serve(mux: Mux) -> Server {
    Server { mux, after: Afterwards { ring_mail: false, shut_down: false } }
}

fn spawn() -> SpawnSpec {
    SpawnSpec {
        program: "/bin/sh".into(),
        argv: vec!["-l".into()],
        cwd: Some(b"/tmp".to_vec()),
        env: vec![("TERM".into(), "prism".into())],
    }
}

fn registered_client(response: ControlResponse) -> u64 {
    match response.body {
        ControlResponseBody::Success {
            response: ControlResponseData::ClientRegistered { client_id },
        } => client_id,
        other => panic!("expected registered client, got {other:?}"),
    }
}

fn mail_hello(plane: &mut Mux, request_id: u64, agent: &str) -> u64 {
    let client = registered_client(plane.handle(ControlRequest::RegisterClient {
        version: PROTOCOL_VERSION,
        request_id,
    }));
    let seated = plane.handle(ControlRequest::MailHello {
        version: PROTOCOL_VERSION,
        request_id: request_id + 1000,
        client_id: client,
        agent: agent.into(),
    });
    assert!(
        matches!(
            seated.body,
            ControlResponseBody::Success {
                response: ControlResponseData::MailSeated { .. }
            }
        ),
        "expected MailSeated, got {seated:?}"
    );
    client
}

fn session_ids(response: &ControlResponse) -> (u64, u64, u64) {
    match &response.body {
        ControlResponseBody::Success {
            response:
                ControlResponseData::Session {
                    session_id,
                    window_id,
                    pane_id,
                    ..
                },
        } => (*session_id, *window_id, *pane_id),
        other => panic!("expected session response, got {other:?}"),
    }
}

fn window_ids(response: &ControlResponse) -> (u64, u64, u64) {
    match &response.body {
        ControlResponseBody::Success {
            response:
                ControlResponseData::Window {
                    session_id,
                    window_id,
                    pane_id,
                    ..
                },
        } => (*session_id, *window_id, *pane_id),
        other => panic!("expected window response, got {other:?}"),
    }
}

fn resize_ok(
    plane: &mut Mux,
    request_id: u64,
    window: u64,
    size: (u32, u32),
    client_id: u64,
    flags: (bool, bool),
) {
    assert!(matches!(
        plane
            .handle(ControlRequest::Resize {
                version: PROTOCOL_VERSION,
                request_id,
                window_id: window,
                cols: size.0,
                rows: size.1,
                cell_width_px: None,
                cell_height_px: None,
                fit: flags.0,
                host: flags.1,
                client_id: Some(client_id),
            })
            .body,
        ControlResponseBody::Success { .. }
    ));
}

fn snapshot_size_owner(plane: &mut Mux, request_id: u64) -> Option<SizeOwner> {
    match plane
        .handle(ControlRequest::Snapshot {
            version: PROTOCOL_VERSION,
            request_id,
        })
        .body
    {
        ControlResponseBody::Success {
            response: ControlResponseData::Snapshot { snapshot },
        } => snapshot.sessions[0].windows[0].panes[0].size_owner,
        other => panic!("expected snapshot, got {other:?}"),
    }
}

fn mail_attention(
    response: ControlResponse,
) -> (u64, Option<MailAttentionState>, PaneInputLedger) {
    match response.body {
        ControlResponseBody::Success {
            response:
                ControlResponseData::MailAttention {
                    pane_id,
                    attention,
                    ledger,
                },
        } => (pane_id, attention, ledger),
        other => panic!("expected mail attention, got {other:?}"),
    }
}

fn mail_events(plane: &Mux, after: u64) -> Vec<Event> {
    plane
        .events_after(after, None)
        .unwrap()
        .events
        .into_iter()
        .map(|envelope| envelope.event)
        .collect()
}

fn mail_inject(response: ControlResponse) -> (MailInjectOutcome, usize) {
    match response.body {
        ControlResponseBody::Success {
            response:
                ControlResponseData::MailInject {
                    outcome, nbytes, ..
                },
        } => (outcome, nbytes),
        other => panic!("expected mail inject, got {other:?}"),
    }
}

fn arm_mail(plane: &mut Mux, client: u64, pane: u64, request_id: u64) {
    let _ = plane.handle(ControlRequest::MailAttentionSet {
        version: PROTOCOL_VERSION,
        request_id,
        client_id: client,
        pane_id: pane,
        cell: "33@1".into(),
        gen: 1,
        queue_rev: 1,
        depth: 1,
        wake: Some(MailWake::Armed),
        bound_pid: None,
    });
}

fn inject_mail(
    plane: &mut Mux,
    client: u64,
    pane: u64,
    request_id: u64,
) -> ControlResponse {
    plane.handle(ControlRequest::InjectMail {
        version: PROTOCOL_VERSION,
        request_id,
        client_id: client,
        pane_id: pane,
        queue_rev: 1,
        remaining_attempts: 3,
    })
}

fn styled_content(response: ControlResponse) -> PaneStyled {
    match response.body {
        ControlResponseBody::Success { response: ControlResponseData::PaneStyled { content } } => content,
        other => panic!("expected pane styled, got {other:?}"),
    }
}

fn pane_content(response: ControlResponse) -> PaneContent {
    match response.body {
        ControlResponseBody::Success {
            response: ControlResponseData::PaneContent { content },
        } => content,
        other => panic!("expected pane content, got {other:?}"),
    }
}

#[test]
fn phase2a_create_and_switch_session_are_ordered_events() {
    let (mut plane, _window, first_pane) = fixture(8);
    let register = plane.handle(ControlRequest::RegisterClient {
        version: PROTOCOL_VERSION,
        request_id: 1,
    });
    let client = registered_client(register);
    let created = plane.handle(ControlRequest::CreateSession {
        version: PROTOCOL_VERSION,
        request_id: 2,
        name: "work".into(),
        spawn: spawn(),
        cols: Some(80),
        rows: Some(24),
        agent_id: None,
        headless: false,
    });
    let (work_session, work_window, work_pane) = session_ids(&created);
    assert_ne!(work_pane, first_pane);
    let snapshot = plane.snapshot().unwrap();
    assert_eq!(snapshot.sessions.len(), 2);
    assert_eq!(snapshot.sessions[1].name, "work");
    assert_eq!(snapshot.sessions[1].id, work_session);
    assert_eq!(snapshot.sessions[1].windows[0].id, work_window);

    let switched = plane.handle(ControlRequest::SwitchSession {
        version: PROTOCOL_VERSION,
        request_id: 3,
        client_id: client,
        session_id: work_session,
    });
    assert_eq!(session_ids(&switched).0, work_session);

    let returned = plane.handle(ControlRequest::SwitchSession {
        version: PROTOCOL_VERSION,
        request_id: 4,
        client_id: client,
        session_id: snapshot.sessions[0].id,
    });
    assert_eq!(session_ids(&returned).2, first_pane);

    let dup = plane.handle(ControlRequest::CreateSession {
        version: PROTOCOL_VERSION,
        request_id: 5,
        name: "work".into(),
        spawn: spawn(),
        cols: None,
        rows: None,
        agent_id: None,
        headless: false,
    });
    assert_eq!(error_code(&dup), ControlErrorCode::InvalidRequest);
    let empty = plane.handle(ControlRequest::CreateSession {
        version: PROTOCOL_VERSION,
        request_id: 6,
        name: "   ".into(),
        spawn: spawn(),
        cols: None,
        rows: None,
        agent_id: None,
        headless: false,
    });
    assert_eq!(error_code(&empty), ControlErrorCode::InvalidRequest);
    let stale = plane.handle(ControlRequest::SwitchSession {
        version: PROTOCOL_VERSION,
        request_id: 7,
        client_id: client,
        session_id: 99,
    });
    assert_eq!(error_code(&stale), ControlErrorCode::StaleId);

    let events = plane.events_after(0, None).unwrap();
    let kinds: Vec<_> = events
        .events
        .iter()
        .map(|envelope| match &envelope.event {
            Event::SessionCreated { name, .. } => format!("created:{name}"),
            Event::SessionSwitched { session_id, .. } => format!("switched:{session_id}"),
            other => format!("{other:?}"),
        })
        .collect();
    assert_eq!(
        kinds,
        vec![
            "created:work".into(),
            format!("switched:{work_session}"),
            format!("switched:{}", snapshot.sessions[0].id),
        ]
    );
}

#[test]
fn destroy_session_removes_topology_and_rejects_stale() {
    let (mut plane, _, first_pane) = fixture(8);
    let bootstrap = plane.snapshot().unwrap().sessions[0].id;
    let created = plane.handle(ControlRequest::CreateSession {
        version: PROTOCOL_VERSION,
        request_id: 1,
        name: "work".into(),
        spawn: spawn(),
        cols: None,
        rows: None,
        agent_id: None,
        headless: false,
    });
    let work = session_ids(&created).0;
    let work_pane = session_ids(&created).2;
    assert_eq!(plane.snapshot().unwrap().sessions.len(), 2);
    assert_ne!(work_pane, first_pane);

    let destroyed = plane.handle(ControlRequest::DestroySession {
        version: PROTOCOL_VERSION,
        request_id: 2,
        session_id: work,
    });
    assert!(matches!(
        destroyed.body,
        ControlResponseBody::Success {
            response: ControlResponseData::Mutation { .. }
        }
    ));
    let remaining = plane.snapshot().unwrap();
    assert_eq!(remaining.sessions.len(), 1);
    assert_eq!(remaining.sessions[0].id, bootstrap);
    assert_eq!(remaining.sessions[0].windows[0].panes[0].id, first_pane);

    let stale = plane.handle(ControlRequest::DestroySession {
        version: PROTOCOL_VERSION,
        request_id: 3,
        session_id: work,
    });
    assert_eq!(error_code(&stale), ControlErrorCode::StaleId);

    let kinds: Vec<_> = plane
        .events_after(0, None)
        .unwrap()
        .events
        .iter()
        .filter_map(|envelope| match &envelope.event {
            Event::SessionCreated { name, .. } => Some(format!("created:{name}")),
            Event::SessionDestroyed { name, .. } => Some(format!("destroyed:{name}")),
            _ => None,
        })
        .collect();
    assert_eq!(
        kinds,
        vec!["created:work".to_string(), "destroyed:work".to_string()]
    );
}

#[test]
fn create_session_agent_id_is_unique_and_snapshotted() {
    let (mut plane, _, _) = fixture(8);
    let created = plane.handle(ControlRequest::CreateSession {
        version: PROTOCOL_VERSION,
        request_id: 1,
        name: "work".into(),
        spawn: spawn(),
        cols: None,
        rows: None,
        agent_id: Some("operator-a".into()),
        headless: false,
    });
    assert!(matches!(created.body, ControlResponseBody::Success { .. }));
    assert_eq!(
        plane.snapshot().unwrap().sessions[1].agent_id.as_deref(),
        Some("operator-a")
    );
    assert_eq!(
        plane.plane.domain.session_by_agent("operator-a"),
        Some(plane.snapshot().unwrap().sessions[1].id)
    );
    let dup = plane.handle(ControlRequest::CreateSession {
        version: PROTOCOL_VERSION,
        request_id: 2,
        name: "other".into(),
        spawn: spawn(),
        cols: None,
        rows: None,
        agent_id: Some("operator-a".into()),
        headless: false,
    });
    assert_eq!(error_code(&dup), ControlErrorCode::InvalidRequest);
}

#[test]
fn create_session_headless_has_no_windows() {
    let (mut plane, _, _) = fixture(8);
    let created = plane.handle(ControlRequest::CreateSession {
        version: PROTOCOL_VERSION,
        request_id: 1,
        name: "worker-bot".into(),
        spawn: spawn(),
        cols: None,
        rows: None,
        agent_id: Some("worker-bot".into()),
        headless: true,
    });
    let ControlResponseBody::Success {
        response:
            ControlResponseData::Session {
                session_id,
                window_id,
                pane_id,
                ..
            },
    } = created.body
    else {
        panic!("expected session {created:?}");
    };
    assert_eq!((window_id, pane_id), (0, 0));
    let session = plane
        .snapshot()
        .unwrap()
        .sessions
        .into_iter()
        .find(|s| s.id == session_id)
        .unwrap();
    assert!(session.windows.is_empty());
    assert_eq!(session.agent_id.as_deref(), Some("worker-bot"));
    assert_eq!(
        plane.plane.domain.session_by_agent("worker-bot"),
        Some(session_id)
    );
}

#[test]
fn headless_agent_queues_mail_without_doorbell() {
    let (mut plane, _, _) = fixture(8);
    let created = plane.handle(ControlRequest::CreateSession {
        version: PROTOCOL_VERSION,
        request_id: 1,
        name: "worker-bot".into(),
        spawn: spawn(),
        cols: None,
        rows: None,
        agent_id: Some("worker-bot".into()),
        headless: true,
    });
    assert!(matches!(created.body, ControlResponseBody::Success { .. }));
    let cursor = mail_hello(&mut plane, 2, "operator-b");
    let sent = plane.handle(ControlRequest::MailSend {
        version: PROTOCOL_VERSION,
        request_id: 3,
        client_id: cursor,
        to: "worker-bot".into(),
        summary: "queued".into(),
        body: "hello".into(),
    });
    assert!(matches!(
        sent.body,
        ControlResponseBody::Success {
            response: ControlResponseData::MailSent { depth: 1, .. }
        }
    ));
    assert!(
        plane.lit().is_empty(),
        "headless session has no pane; doorbell must not arm attention"
    );
    let worker = mail_hello(&mut plane, 4, "worker-bot");
    let claimed = plane.handle(ControlRequest::MailClaim {
        version: PROTOCOL_VERSION,
        request_id: 5,
        client_id: worker,
    });
    let ControlResponseBody::Success {
        response: ControlResponseData::MailLetters { letters },
    } = claimed.body
    else {
        panic!("expected letters {claimed:?}");
    };
    assert_eq!(letters.len(), 1);
    assert_eq!(letters[0].summary, "queued");
    assert_eq!(letters[0].body, "hello");
    assert_eq!(letters[0].to, "worker-bot");
}

#[test]
fn mail_lifecycle_send_claim_commit() {
    let (mut plane, _, _) = fixture(8);
    let peer = mail_hello(&mut plane, 1, "operator-a");
    let cursor = mail_hello(&mut plane, 2, "operator-b");

    let sent = plane.handle(ControlRequest::MailSend {
        version: PROTOCOL_VERSION,
        request_id: 3,
        client_id: cursor,
        to: "operator-a".into(),
        summary: "hello".into(),
        body: "world".into(),
    });
    let ControlResponseBody::Success {
        response: ControlResponseData::MailSent { id, depth },
    } = sent.body
    else {
        panic!("expected MailSent: {sent:?}");
    };
    assert_eq!(depth, 1);

    let inbox = plane.handle(ControlRequest::MailInbox {
        version: PROTOCOL_VERSION,
        request_id: 4,
        client_id: peer,
    });
    assert!(matches!(
        inbox.body,
        ControlResponseBody::Success {
            response: ControlResponseData::MailDepth { open: 1, held: 0 }
        }
    ));

    let claimed = plane.handle(ControlRequest::MailClaim {
        version: PROTOCOL_VERSION,
        request_id: 5,
        client_id: peer,
    });
    let ControlResponseBody::Success {
        response: ControlResponseData::MailLetters { letters },
    } = claimed.body
    else {
        panic!("expected MailLetters: {claimed:?}");
    };
    assert_eq!(letters.len(), 1);
    assert_eq!(letters[0].id, id);
    assert_eq!(
        letters[0].from, "operator-b",
        "from is the connection identity"
    );
    assert_eq!(letters[0].to, "operator-a");
    assert_eq!(letters[0].summary, "hello");

    let committed = plane.handle(ControlRequest::MailCommit {
        version: PROTOCOL_VERSION,
        request_id: 6,
        client_id: peer,
        ids: vec![id],
    });
    assert!(matches!(
        committed.body,
        ControlResponseBody::Success {
            response: ControlResponseData::MailCommitted { committed: 1 }
        }
    ));
    let inbox = plane.handle(ControlRequest::MailInbox {
        version: PROTOCOL_VERSION,
        request_id: 7,
        client_id: peer,
    });
    assert!(matches!(
        inbox.body,
        ControlResponseBody::Success {
            response: ControlResponseData::MailDepth { open: 0, held: 0 }
        }
    ));
}

#[test]
fn mail_requires_identity_and_unknown_recipients_queue() {
    let (mut plane, _, _) = fixture(8);
    let anon = registered_client(plane.handle(ControlRequest::RegisterClient {
        version: PROTOCOL_VERSION,
        request_id: 1,
    }));
    let refused = plane.handle(ControlRequest::MailSend {
        version: PROTOCOL_VERSION,
        request_id: 2,
        client_id: anon,
        to: "operator-a".into(),
        summary: "s".into(),
        body: "b".into(),
    });
    assert_eq!(error_code(&refused), ControlErrorCode::InvalidRequest);

    let cursor = mail_hello(&mut plane, 3, "operator-b");
    // No live session is bound to future-agent: the letter still queues.
    let sent = plane.handle(ControlRequest::MailSend {
        version: PROTOCOL_VERSION,
        request_id: 4,
        client_id: cursor,
        to: "future-agent".into(),
        summary: "queued".into(),
        body: String::new(),
    });
    assert!(matches!(
        sent.body,
        ControlResponseBody::Success {
            response: ControlResponseData::MailSent { depth: 1, .. }
        }
    ));
    // ...and is claimable once that agent says hello.
    let future = mail_hello(&mut plane, 5, "future-agent");
    let claimed = plane.handle(ControlRequest::MailClaim {
        version: PROTOCOL_VERSION,
        request_id: 6,
        client_id: future,
    });
    assert!(matches!(
        &claimed.body,
        ControlResponseBody::Success {
            response: ControlResponseData::MailLetters { letters }
        } if letters.len() == 1 && letters[0].summary == "queued"
    ));
}

#[test]
fn mail_alias_binds_resolves_and_refuses_conflicts() {
    let (mut plane, _, _) = fixture(8);
    let peer = mail_hello(&mut plane, 1, "operator-a");
    let cursor = mail_hello(&mut plane, 2, "operator-b");

    let aliased = plane.handle(ControlRequest::MailAlias {
        version: PROTOCOL_VERSION,
        request_id: 3,
        client_id: peer,
        name: "pm".into(),
    });
    assert!(matches!(
        aliased.body,
        ControlResponseBody::Success {
            response: ControlResponseData::MailAliased { .. }
        }
    ));

    let sent = plane.handle(ControlRequest::MailSend {
        version: PROTOCOL_VERSION,
        request_id: 4,
        client_id: cursor,
        to: "pm".into(),
        summary: "via-alias".into(),
        body: String::new(),
    });
    assert!(matches!(
        sent.body,
        ControlResponseBody::Success {
            response: ControlResponseData::MailSent { depth: 1, .. }
        }
    ));

    // Taken alias refused for another agent.
    let taken = plane.handle(ControlRequest::MailAlias {
        version: PROTOCOL_VERSION,
        request_id: 5,
        client_id: cursor,
        name: "pm".into(),
    });
    assert!(matches!(
        taken.body,
        ControlResponseBody::Success {
            response: ControlResponseData::MailRefused { .. }
        }
    ));

    // A live session's bound agent id cannot become an alias.
    let created = plane.handle(ControlRequest::CreateSession {
        version: PROTOCOL_VERSION,
        request_id: 6,
        name: "work".into(),
        spawn: spawn(),
        cols: None,
        rows: None,
        agent_id: Some("bound-agent".into()),
        headless: false,
    });
    assert!(matches!(created.body, ControlResponseBody::Success { .. }));
    let refused = plane.handle(ControlRequest::MailAlias {
        version: PROTOCOL_VERSION,
        request_id: 7,
        client_id: cursor,
        name: "bound-agent".into(),
    });
    assert!(matches!(
        refused.body,
        ControlResponseBody::Success {
            response: ControlResponseData::MailRefused { .. }
        }
    ));
}

#[test]
fn mail_who_lists_agent_bound_sessions_only() {
    let (mut plane, _, _) = fixture(8);
    let peer = mail_hello(&mut plane, 1, "operator-a");
    plane.handle(ControlRequest::MailAlias {
        version: PROTOCOL_VERSION,
        request_id: 2,
        client_id: peer,
        name: "pm".into(),
    });
    let created = plane.handle(ControlRequest::CreateSession {
        version: PROTOCOL_VERSION,
        request_id: 3,
        name: "work".into(),
        spawn: spawn(),
        cols: None,
        rows: None,
        agent_id: Some("operator-a".into()),
        headless: false,
    });
    assert!(matches!(created.body, ControlResponseBody::Success { .. }));

    let who = plane.handle(ControlRequest::MailWho {
        version: PROTOCOL_VERSION,
        request_id: 4,
        client_id: peer,
    });
    let ControlResponseBody::Success {
        response: ControlResponseData::MailPeers { peers },
    } = who.body
    else {
        panic!("expected MailPeers: {who:?}");
    };
    assert_eq!(
        peers.len(),
        1,
        "the agent-less default session is not listed"
    );
    assert_eq!(peers[0].agent_id, "operator-a");
    assert_eq!(peers[0].session, "work");
    assert!(!peers[0].pane_live, "no live runtime in this fixture");
    assert_eq!(peers[0].aliases, vec!["pm"]);
}

#[test]
fn mail_broadcast_reaches_live_agents_except_caller() {
    let (mut plane, _, _) = fixture(8);
    let cursor = mail_hello(&mut plane, 1, "operator-b");
    let peer = mail_hello(&mut plane, 2, "operator-a");
    for (name, agent) in [("work", "operator-b"), ("other", "operator-a")] {
        let created = plane.handle(ControlRequest::CreateSession {
            version: PROTOCOL_VERSION,
            request_id: 3,
            name: name.into(),
            spawn: spawn(),
            cols: None,
            rows: None,
            agent_id: Some(agent.into()),
            headless: false,
        });
        assert!(matches!(created.body, ControlResponseBody::Success { .. }));
    }
    let broadcast = plane.handle(ControlRequest::MailBroadcast {
        version: PROTOCOL_VERSION,
        request_id: 4,
        client_id: cursor,
        summary: "standup in 5".into(),
        body: String::new(),
    });
    assert!(matches!(
        &broadcast.body,
        ControlResponseBody::Success {
            response: ControlResponseData::MailBroadcasted {
                delivered: 1,
                recipients,
            }
        } if recipients == &vec!["operator-a".to_string()]
    ));
    let inbox = plane.handle(ControlRequest::MailInbox {
        version: PROTOCOL_VERSION,
        request_id: 5,
        client_id: peer,
    });
    assert!(matches!(
        inbox.body,
        ControlResponseBody::Success {
            response: ControlResponseData::MailDepth { open: 1, held: 0 }
        }
    ));
}

#[test]
fn mail_wait_under_plane_lock_is_a_guard_rail_error() {
    let (mut plane, _, _) = fixture(8);
    let peer = mail_hello(&mut plane, 1, "operator-a");
    let response = plane.handle(ControlRequest::MailWait {
        version: PROTOCOL_VERSION,
        request_id: 2,
        client_id: peer,
        timeout_ms: 10,
    });
    assert_eq!(error_code(&response), ControlErrorCode::Internal);
}

#[test]
fn subscribe_pane_under_plane_lock_is_a_guard_rail_error() {
    let (mut plane, _, pane) = live_fixture("sub");
    let client = register_live_client(&mut plane);
    let response = plane.handle(ControlRequest::SubscribePane {
        version: PROTOCOL_VERSION,
        request_id: 2,
        client_id: client,
        pane_id: pane,
        from_seq: 0,
        timeout_ms: 0,
    });
    assert_eq!(error_code(&response), ControlErrorCode::Internal);
}

#[test]
fn disconnect_drops_agent_binding() {
    let (mut plane, _, _) = fixture(8);
    let peer = mail_hello(&mut plane, 1, "operator-a");
    let cursor = mail_hello(&mut plane, 2, "operator-b");
    let _ = plane.handle(ControlRequest::DisconnectClient {
        version: PROTOCOL_VERSION,
        request_id: 3,
        client_id: peer,
    });
    let refused = plane.handle(ControlRequest::MailInbox {
        version: PROTOCOL_VERSION,
        request_id: 4,
        client_id: peer,
    });
    assert_eq!(error_code(&refused), ControlErrorCode::StaleId);
    // A fresh connection can still claim operator-a's held mail (recovery).
    let _ = plane.handle(ControlRequest::MailSend {
        version: PROTOCOL_VERSION,
        request_id: 5,
        client_id: cursor,
        to: "operator-a".into(),
        summary: "durable".into(),
        body: String::new(),
    });
    let peer2 = mail_hello(&mut plane, 6, "operator-a");
    let claimed = plane.handle(ControlRequest::MailClaim {
        version: PROTOCOL_VERSION,
        request_id: 7,
        client_id: peer2,
    });
    assert!(matches!(
        &claimed.body,
        ControlResponseBody::Success {
            response: ControlResponseData::MailLetters { letters }
        } if letters.len() == 1 && letters[0].summary == "durable"
    ));
}

#[test]
fn doorbell_arms_mail_attention_on_send() {
    let (mut plane, _, _) = fixture(8);
    let cursor = mail_hello(&mut plane, 1, "operator-b");
    let _peer = mail_hello(&mut plane, 2, "operator-a");
    let created = plane.handle(ControlRequest::CreateSession {
        version: PROTOCOL_VERSION,
        request_id: 3,
        name: "work".into(),
        spawn: spawn(),
        cols: None,
        rows: None,
        agent_id: Some("operator-a".into()),
        headless: false,
    });
    let (_, _, peer_pane) = session_ids(&created);

    let sent = plane.handle(ControlRequest::MailSend {
        version: PROTOCOL_VERSION,
        request_id: 4,
        client_id: cursor,
        to: "operator-a".into(),
        summary: "ring".into(),
        body: String::new(),
    });
    assert!(matches!(sent.body, ControlResponseBody::Success { .. }));

    let attention = plane.mail_attention(peer_pane)
        .expect("doorbell must arm attention on the recipient pane");
    assert_eq!(attention.cell, MAIL_ATTENTION_CELL);
    assert_eq!(attention.depth, 1);
    assert_eq!(attention.queue_rev, 1);
    assert!(matches!(
        mail_events(&plane, 0).last(),
        Some(Event::MailAttentionChanged {
            pane_id,
            depth: 1,
            ..
        }) if *pane_id == peer_pane
    ));
}

#[test]
fn doorbell_skips_unknown_agents_mail_queues() {
    let (mut plane, _, _) = fixture(8);
    let cursor = mail_hello(&mut plane, 1, "operator-b");
    let sent = plane.handle(ControlRequest::MailSend {
        version: PROTOCOL_VERSION,
        request_id: 2,
        client_id: cursor,
        to: "offline-agent".into(),
        summary: "queued".into(),
        body: String::new(),
    });
    assert!(matches!(
        sent.body,
        ControlResponseBody::Success {
            response: ControlResponseData::MailSent { depth: 1, .. }
        }
    ));
    assert!(
        plane.lit().is_empty(),
        "no session, no doorbell — the letter queues silently"
    );
}

#[test]
fn doorbell_attention_follows_claim_release_depth() {
    let (mut plane, _, _) = fixture(8);
    let cursor = mail_hello(&mut plane, 1, "operator-b");
    let peer = mail_hello(&mut plane, 2, "operator-a");
    let created = plane.handle(ControlRequest::CreateSession {
        version: PROTOCOL_VERSION,
        request_id: 3,
        name: "work".into(),
        spawn: spawn(),
        cols: None,
        rows: None,
        agent_id: Some("operator-a".into()),
        headless: false,
    });
    let (_, _, peer_pane) = session_ids(&created);

    let sent = plane.handle(ControlRequest::MailSend {
        version: PROTOCOL_VERSION,
        request_id: 4,
        client_id: cursor,
        to: "operator-a".into(),
        summary: "ring".into(),
        body: String::new(),
    });
    let ControlResponseBody::Success {
        response: ControlResponseData::MailSent { id, .. },
    } = sent.body
    else {
        panic!("expected MailSent: {sent:?}");
    };
    assert_eq!(plane.mail_attention(peer_pane).unwrap().depth, 1);

    // Claim reads everything open: the indicator clears.
    let _ = plane.handle(ControlRequest::MailClaim {
        version: PROTOCOL_VERSION,
        request_id: 5,
        client_id: peer,
    });
    assert!(
        !plane.mail_attention(peer_pane).is_some(),
        "claim with nothing left open must clear the indicator"
    );

    // Release re-queues: the indicator re-lights without injecting.
    let _ = plane.handle(ControlRequest::MailRelease {
        version: PROTOCOL_VERSION,
        request_id: 6,
        client_id: peer,
        ids: vec![id],
    });
    let attention = plane.mail_attention(peer_pane)
        .expect("release must re-arm the indicator");
    assert_eq!(attention.depth, 1);
    assert_eq!(attention.wake, None, "refresh never re-arms the wake");
    assert_eq!(
        attention.queue_rev, 3,
        "rev moves monotonically per refresh"
    );
}

#[test]
fn doorbell_broadcast_rings_each_live_recipient() {
    let (mut plane, _, _) = fixture(8);
    let cursor = mail_hello(&mut plane, 1, "operator-b");
    let _peer = mail_hello(&mut plane, 2, "operator-a");
    for (name, agent) in [("work", "operator-b"), ("other", "operator-a")] {
        let created = plane.handle(ControlRequest::CreateSession {
            version: PROTOCOL_VERSION,
            request_id: 3,
            name: name.into(),
            spawn: spawn(),
            cols: None,
            rows: None,
            agent_id: Some(agent.into()),
            headless: false,
        });
        assert!(matches!(created.body, ControlResponseBody::Success { .. }));
    }
    let broadcast = plane.handle(ControlRequest::MailBroadcast {
        version: PROTOCOL_VERSION,
        request_id: 4,
        client_id: cursor,
        summary: "standup".into(),
        body: String::new(),
    });
    assert!(matches!(broadcast.body, ControlResponseBody::Success { .. }));
    // Only operator-a's pane lights: the caller's own agent is excluded.
    assert_eq!(plane.lit().len(), 1);
    let attention = plane.mail_attention(plane.lit()[0]).unwrap();
    assert_eq!(attention.cell, MAIL_ATTENTION_CELL);
    assert_eq!(attention.depth, 1);
}

#[test]
fn shutdown_server_round_trip_rejects_unregistered_client() {
    let (mut plane, _, _) = fixture(8);
    let rejected = plane.handle(ControlRequest::ShutdownServer {
        version: PROTOCOL_VERSION,
        request_id: 1,
        client_id: 3,
    });
    assert_eq!(error_code(&rejected), ControlErrorCode::StaleId);

    let client = registered_client(plane.handle(ControlRequest::RegisterClient {
        version: PROTOCOL_VERSION,
        request_id: 2,
    }));
    let accepted = plane.handle(ControlRequest::ShutdownServer {
        version: PROTOCOL_VERSION,
        request_id: 3,
        client_id: client,
    });
    assert!(matches!(
        accepted.body,
        ControlResponseBody::Success {
            response: ControlResponseData::ShutdownAccepted
        }
    ));
    assert_eq!(plane.sequence(), 0, "shutdown must not emit an event");
}

#[test]
fn idle_shutdown_fences_session_creation_and_rejects_live_sessions() {
    let (mut plane, _, _) = fixture(8);
    let client_id = registered_client(plane.handle(ControlRequest::RegisterClient {
        version: PROTOCOL_VERSION,
        request_id: 1,
    }));
    let request = ControlRequest::ShutdownIdle {
        version: PROTOCOL_VERSION,
        request_id: 2,
        client_id,
    };
    assert_eq!(
        error_code(&plane.handle(request.clone())),
        ControlErrorCode::InvalidRequest
    );
    let session_id = plane.snapshot().unwrap().sessions[0].id;
    plane.plane.destroy_session(session_id).unwrap();
    assert!(matches!(
        plane.handle(request).body,
        ControlResponseBody::Success {
            response: ControlResponseData::ShutdownAccepted
        }
    ));
    // Every later control operation is fenced while the reply is flushed.
    assert_eq!(
        error_code(&plane.handle(ControlRequest::RegisterClient {
            version: PROTOCOL_VERSION,
            request_id: 3,
        })),
        ControlErrorCode::InvalidRequest
    );
    assert!(plane.snapshot().unwrap().sessions.is_empty());
}

#[test]
fn snapshot_mutations_and_events_are_ordered() {
    let (plane, window, first) = fixture(8);
    let mut server = serve(plane);
    let mut stream = server.connect();

    let snapshot = server.request(&mut stream, ControlRequest::Snapshot {
            version: PROTOCOL_VERSION,
            request_id: 1,
        },
    );
    match snapshot.body {
        ControlResponseBody::Success {
            response: ControlResponseData::Snapshot { snapshot },
        } => {
            assert_eq!(snapshot.sequence, 0);
            assert_eq!(snapshot.sessions[0].windows[0].panes[0].id, first);
            assert_eq!(snapshot.sessions[0].windows[0].panes[0].geometry.cols, 80);
        }
        other => panic!("unexpected snapshot response: {other:?}"),
    }

    let split = server.request(&mut stream, ControlRequest::Split {
            version: PROTOCOL_VERSION,
            request_id: 2,
            window_id: window,
            target_pane_id: first,
            axis: AxisWire::Horizontal,
            ratio_bits: ratio(0.25),
            spawn: spawn(),
            client_id: None,
        },
    );
    assert_eq!(mutation_sequence(&split), 1);
    let resize = server.request(&mut stream, ControlRequest::Resize {
            version: PROTOCOL_VERSION,
            request_id: 3,
            window_id: window,
            cols: 100,
            rows: 30,
            cell_width_px: None,
            cell_height_px: None,
            fit: false,
            host: false,
            client_id: None,
        },
    );
    assert_eq!(mutation_sequence(&resize), 2);
    let focus = server.request(&mut stream, ControlRequest::SuggestFocus {
            version: PROTOCOL_VERSION,
            request_id: 4,
            window_id: window,
            pane_id: first,
            reason: None,
        },
    );
    assert_eq!(mutation_sequence(&focus), 3);
    let events = server.request(&mut stream, ControlRequest::Events {
            version: PROTOCOL_VERSION,
            request_id: 5,
            after_sequence: 0,
            limit: None,
        },
    );
    match events.body {
        ControlResponseBody::Success {
            response: ControlResponseData::Events { batch },
        } => {
            assert_eq!(batch.current_sequence, 3);
            assert_eq!(batch.through_sequence, 3);
            assert!(!batch.has_more);
            assert_eq!(
                batch
                    .events
                    .iter()
                    .map(|event| event.sequence)
                    .collect::<Vec<_>>(),
                vec![1, 2, 3]
            );
            let Event::PaneSplit { geometry, .. } = &batch.events[0].event else {
                panic!("first event was not split")
            };
            assert_eq!(geometry[0].cols, 20);
            assert_eq!(geometry[1].cols, 60);
            let Event::GeometryChanged { geometry, .. } = &batch.events[1].event else {
                panic!("second event was not resize")
            };
            assert_eq!(geometry[0].cols, 25);
            assert_eq!(geometry[1].cols, 75);
        }
        other => panic!("unexpected events response: {other:?}"),
    }
}

#[test]
fn replay_gap_and_ahead_sequence_require_resnapshot() {
    let (mut plane, window, pane) = fixture(2);
    for request in [
        ControlRequest::SuggestFocus {
            version: PROTOCOL_VERSION,
            request_id: 1,
            window_id: window,
            pane_id: pane,
            reason: None,
        },
        ControlRequest::Resize {
            version: PROTOCOL_VERSION,
            request_id: 2,
            window_id: window,
            cols: 81,
            rows: 24,
            cell_width_px: None,
            cell_height_px: None,
            fit: false,
            host: false,
            client_id: None,
        },
        ControlRequest::Resize {
            version: PROTOCOL_VERSION,
            request_id: 3,
            window_id: window,
            cols: 82,
            rows: 24,
            cell_width_px: None,
            cell_height_px: None,
            fit: false,
            host: false,
            client_id: None,
        },
    ] {
        assert!(matches!(
            plane.handle(request).body,
            ControlResponseBody::Success { .. }
        ));
    }
    let gap = plane.handle(ControlRequest::Events {
        version: PROTOCOL_VERSION,
        request_id: 4,
        after_sequence: 0,
        limit: None,
    });
    match gap.body {
        ControlResponseBody::Failure { error } => {
            assert_eq!(error.code, ControlErrorCode::EventGap);
            assert!(error.resnapshot_required);
            assert_eq!(error.oldest_available_sequence, Some(2));
            assert_eq!(error.current_sequence, Some(3));
        }
        other => panic!("expected event gap, got {other:?}"),
    }
    let ahead = plane.handle(ControlRequest::Events {
        version: PROTOCOL_VERSION,
        request_id: 5,
        after_sequence: 4,
        limit: None,
    });
    assert_eq!(error_code(&ahead), ControlErrorCode::StaleSequence);
}

#[test]
fn bounded_event_batch_exposes_resume_cursor() {
    let (mut plane, window, pane) = fixture(8);
    for (request_id, cols) in [(1, 81), (2, 82), (3, 83)] {
        let response = plane.handle(ControlRequest::Resize {
            version: PROTOCOL_VERSION,
            request_id,
            window_id: window,
            cols,
            rows: 24,
            cell_width_px: None,
            cell_height_px: None,
            fit: false,
            host: false,
            client_id: None,
        });
        assert!(matches!(response.body, ControlResponseBody::Success { .. }));
    }
    let first = plane.handle(ControlRequest::Events {
        version: PROTOCOL_VERSION,
        request_id: 4,
        after_sequence: 0,
        limit: Some(2),
    });
    let ControlResponseBody::Success {
        response: ControlResponseData::Events { batch },
    } = first.body
    else {
        panic!("expected event batch")
    };
    assert_eq!(batch.events.len(), 2);
    assert_eq!(batch.through_sequence, 2);
    assert_eq!(batch.current_sequence, 3);
    assert!(batch.has_more);

    let second = plane.handle(ControlRequest::Events {
        version: PROTOCOL_VERSION,
        request_id: 5,
        after_sequence: batch.through_sequence,
        limit: Some(2),
    });
    let ControlResponseBody::Success {
        response: ControlResponseData::Events { batch },
    } = second.body
    else {
        panic!("expected resumed event batch")
    };
    assert_eq!(batch.events.len(), 1);
    assert_eq!(batch.through_sequence, 3);
    assert!(!batch.has_more);
    assert_eq!(
        pane,
        plane.snapshot().unwrap().sessions[0].windows[0].panes[0].id
    );
}

#[test]
fn phase2a_close_removes_spawn_metadata_and_unknown_ids_are_stale() {
    let (mut plane, window, first) = fixture(8);
    let split = plane.handle(ControlRequest::Split {
        version: PROTOCOL_VERSION,
        request_id: 1,
        window_id: window,
        target_pane_id: first,
        axis: AxisWire::Horizontal,
        ratio_bits: ratio(0.5),
        spawn: spawn(),
        client_id: None,
    });
    let sequence = mutation_sequence(&split);
    assert_eq!(sequence, 1);
    let snapshot = plane.snapshot().unwrap();
    let panes = &snapshot.sessions[0].windows[0].panes;
    let second = panes.iter().find(|pane| pane.id != first).unwrap().id;
    assert!(panes
        .iter()
        .find(|pane| pane.id == second)
        .unwrap()
        .spawn
        .is_some());

    let close = plane.handle(ControlRequest::Close {
        version: PROTOCOL_VERSION,
        request_id: 2,
        window_id: window,
        pane_id: second,
        prior_focus_id: second,
        client_id: None,
    });
    assert_eq!(mutation_sequence(&close), 2);
    assert_eq!(
        plane.snapshot().unwrap().sessions[0].windows[0].panes.len(),
        1
    );
    let stale = plane.handle(ControlRequest::SuggestFocus {
        version: PROTOCOL_VERSION,
        request_id: 3,
        window_id: window,
        pane_id: second,
        reason: None,
    });
    assert_eq!(error_code(&stale), ControlErrorCode::StaleId);
}

#[test]
fn close_rejects_stale_prior_focus_without_mutation() {
    let (mut plane, window, first) = fixture(8);
    let split = plane.handle(ControlRequest::Split {
        version: PROTOCOL_VERSION,
        request_id: 1,
        window_id: window,
        target_pane_id: first,
        axis: AxisWire::Horizontal,
        ratio_bits: ratio(0.5),
        spawn: spawn(),
        client_id: None,
    });
    assert_eq!(mutation_sequence(&split), 1);
    let second = plane.snapshot().unwrap().sessions[0].windows[0].panes[1].id;
    let response = plane.handle(ControlRequest::Close {
        version: PROTOCOL_VERSION,
        request_id: 2,
        window_id: window,
        pane_id: second,
        prior_focus_id: u64::MAX,
        client_id: None,
    });
    assert_eq!(error_code(&response), ControlErrorCode::StaleId);
    assert_eq!(plane.sequence(), 1);
    assert_eq!(
        plane.snapshot().unwrap().sessions[0].windows[0].panes.len(),
        2
    );
}

#[test]
fn failed_geometry_mutations_are_atomic_and_unsequenced() {
    let (mut plane, window, _pane) = fixture(8);
    let too_small = plane.handle(ControlRequest::Resize {
        version: PROTOCOL_VERSION,
        request_id: 1,
        window_id: window,
        cols: 1,
        rows: 24,
        cell_width_px: None,
        cell_height_px: None,
        fit: false,
        host: false,
        client_id: None,
    });
    assert_eq!(error_code(&too_small), ControlErrorCode::TooSmall);
}

#[test]
fn latest_remote_shrinks_then_disconnect_restores_host() {
    let (mut plane, window, _pane) = fixture(8);
    let host = registered_client(plane.handle(ControlRequest::RegisterClient {
        version: PROTOCOL_VERSION,
        request_id: 1,
    }));
    let remote = registered_client(plane.handle(ControlRequest::RegisterClient {
        version: PROTOCOL_VERSION,
        request_id: 2,
    }));
    resize_ok(&mut plane, 3, window, (80, 24), host, (false, true));
    resize_ok(&mut plane, 4, window, (40, 20), remote, (false, false));
    assert_eq!(
        (plane.bounds(window).cols, plane.bounds(window).rows),
        (40, 20)
    );
    assert!(matches!(
        plane
            .handle(ControlRequest::DisconnectClient {
                version: PROTOCOL_VERSION,
                request_id: 5,
                client_id: remote,
            })
            .body,
        ControlResponseBody::Success { .. }
    ));
    assert_eq!(
        (plane.bounds(window).cols, plane.bounds(window).rows),
        (80, 24),
        "TTY detach must restore the last host geometry"
    );
}

#[test]
fn host_policy_ignores_remote_unless_fit() {
    let (mut plane, window, _pane) = fixture(8);
    plane.plane.set_remote_size(RemoteSizePolicy::Host);
    let host = registered_client(plane.handle(ControlRequest::RegisterClient {
        version: PROTOCOL_VERSION,
        request_id: 1,
    }));
    let remote = registered_client(plane.handle(ControlRequest::RegisterClient {
        version: PROTOCOL_VERSION,
        request_id: 2,
    }));
    resize_ok(&mut plane, 3, window, (80, 24), host, (false, true));
    resize_ok(&mut plane, 4, window, (40, 20), remote, (false, false));
    assert_eq!(
        (plane.bounds(window).cols, plane.bounds(window).rows),
        (80, 24)
    );
    resize_ok(&mut plane, 5, window, (40, 20), remote, (true, false));
    assert_eq!(
        (plane.bounds(window).cols, plane.bounds(window).rows),
        (40, 20)
    );
}

#[test]
fn host_geometry_pass_reclaims_size_after_remote() {
    let (mut plane, window, _pane) = fixture(8);
    let host = registered_client(plane.handle(ControlRequest::RegisterClient {
        version: PROTOCOL_VERSION,
        request_id: 1,
    }));
    let remote = registered_client(plane.handle(ControlRequest::RegisterClient {
        version: PROTOCOL_VERSION,
        request_id: 2,
    }));
    resize_ok(&mut plane, 3, window, (80, 24), host, (false, true));
    resize_ok(&mut plane, 4, window, (40, 20), remote, (false, false));
    resize_ok(&mut plane, 5, window, (80, 24), host, (false, true));
    assert_eq!(
        (plane.bounds(window).cols, plane.bounds(window).rows),
        (80, 24)
    );
}

#[test]
fn fit_resize_applies_this_terminal_even_when_smaller() {
    let (mut plane, window, _pane) = fixture(8);
    let large = registered_client(plane.handle(ControlRequest::RegisterClient {
        version: PROTOCOL_VERSION,
        request_id: 1,
    }));
    let small = registered_client(plane.handle(ControlRequest::RegisterClient {
        version: PROTOCOL_VERSION,
        request_id: 2,
    }));
    assert!(matches!(
        plane
            .handle(ControlRequest::Resize {
                version: PROTOCOL_VERSION,
                request_id: 3,
                window_id: window,
                cols: 80,
                rows: 24,
                cell_width_px: None,
                cell_height_px: None,
                fit: false,
                host: false,
                client_id: Some(large),
            })
            .body,
        ControlResponseBody::Success { .. }
    ));
    assert!(matches!(
        plane
            .handle(ControlRequest::Resize {
                version: PROTOCOL_VERSION,
                request_id: 4,
                window_id: window,
                cols: 40,
                rows: 20,
                cell_width_px: None,
                cell_height_px: None,
                fit: true,
                host: false,
                client_id: Some(small),
            })
            .body,
        ControlResponseBody::Success { .. }
    ));
    let bounds = plane.bounds(window);
    assert_eq!((bounds.cols, bounds.rows), (40, 20));
}

#[test]
fn disconnect_of_unmarked_clients_restores_seeded_host_bounds() {
    let (mut plane, window, _pane) = fixture(8);
    let large = registered_client(plane.handle(ControlRequest::RegisterClient {
        version: PROTOCOL_VERSION,
        request_id: 1,
    }));
    let small = registered_client(plane.handle(ControlRequest::RegisterClient {
        version: PROTOCOL_VERSION,
        request_id: 2,
    }));
    resize_ok(&mut plane, 3, window, (90, 30), large, (false, false));
    resize_ok(&mut plane, 4, window, (40, 20), small, (false, false));
    assert_eq!(
        (plane.bounds(window).cols, plane.bounds(window).rows),
        (40, 20)
    );
    assert!(matches!(
        plane
            .handle(ControlRequest::DisconnectClient {
                version: PROTOCOL_VERSION,
                request_id: 5,
                client_id: small,
            })
            .body,
        ControlResponseBody::Success { .. }
    ));
    assert_eq!(
        (plane.bounds(window).cols, plane.bounds(window).rows),
        (80, 24),
        "disconnect restores the seeded host geometry, not the leftover remote"
    );
}

#[test]
fn same_size_resize_does_not_advance_sequence() {
    let (mut plane, window, _pane) = fixture(8);
    let host = registered_client(plane.handle(ControlRequest::RegisterClient {
        version: PROTOCOL_VERSION,
        request_id: 1,
    }));
    let remote = registered_client(plane.handle(ControlRequest::RegisterClient {
        version: PROTOCOL_VERSION,
        request_id: 2,
    }));
    resize_ok(&mut plane, 3, window, (80, 24), host, (false, true));
    let seq = plane.sequence();
    resize_ok(&mut plane, 4, window, (80, 24), host, (false, true));
    assert_eq!(
        plane.sequence(), seq,
        "same-size host report must not emit GeometryChanged"
    );
    resize_ok(&mut plane, 5, window, (40, 20), remote, (false, false));
    let seq = plane.sequence();
    resize_ok(&mut plane, 6, window, (40, 20), remote, (false, false));
    assert_eq!(
        plane.sequence(), seq,
        "same-size remote report must not emit GeometryChanged"
    );
    assert_eq!(
        (plane.bounds(window).cols, plane.bounds(window).rows),
        (40, 20)
    );
}

#[test]
fn host_echo_of_applied_keeps_host_chosen() {
    let (mut plane, window, _pane) = fixture(8);
    let host = registered_client(plane.handle(ControlRequest::RegisterClient {
        version: PROTOCOL_VERSION,
        request_id: 1,
    }));
    let remote = registered_client(plane.handle(ControlRequest::RegisterClient {
        version: PROTOCOL_VERSION,
        request_id: 2,
    }));
    resize_ok(&mut plane, 3, window, (80, 24), host, (false, true));
    resize_ok(&mut plane, 4, window, (40, 20), remote, (false, false));
    let seq = plane.sequence();
    resize_ok(&mut plane, 5, window, (40, 20), host, (false, true));
    assert_eq!(
        (plane.bounds(window).cols, plane.bounds(window).rows),
        (40, 20),
        "echo of the remote-applied size must not change bounds"
    );
    assert_eq!(
        plane.sequence(),
        seq + 1,
        "echo transfers SizeOwner to the host without GeometryChanged"
    );
    let owner = snapshot_size_owner(&mut plane, 6).expect("owner after echo");
    assert_eq!(owner.client_id, host);
    assert_eq!(owner.kind, SizeOwnerKind::Host);
    let host_chosen = plane.plane.host_viewport(window).expect("host-chosen");
    assert_eq!(
        (host_chosen.cols, host_chosen.rows),
        (80, 24),
        "host-chosen stays the desktop size; echo must not overwrite it"
    );
    assert!(matches!(
        plane
            .handle(ControlRequest::DisconnectClient {
                version: PROTOCOL_VERSION,
                request_id: 7,
                client_id: remote,
            })
            .body,
        ControlResponseBody::Success { .. }
    ));
    assert_eq!(
        (plane.bounds(window).cols, plane.bounds(window).rows),
        (80, 24)
    );
}

#[test]
fn size_owner_round_trips_on_remote_attach_and_detach() {
    let (mut plane, window, _pane) = fixture(8);
    let host = registered_client(plane.handle(ControlRequest::RegisterClient {
        version: PROTOCOL_VERSION,
        request_id: 1,
    }));
    let remote = registered_client(plane.handle(ControlRequest::RegisterClient {
        version: PROTOCOL_VERSION,
        request_id: 2,
    }));
    resize_ok(&mut plane, 3, window, (80, 24), host, (false, true));
    let owner = snapshot_size_owner(&mut plane, 4).expect("host owner");
    assert_eq!(owner.client_id, host);
    assert_eq!(owner.kind, SizeOwnerKind::Host);
    resize_ok(&mut plane, 5, window, (40, 20), remote, (false, false));
    let owner = snapshot_size_owner(&mut plane, 6).expect("remote owner");
    assert_eq!(owner.client_id, remote);
    assert_eq!(owner.kind, SizeOwnerKind::Remote);
    assert!(matches!(
        plane
            .handle(ControlRequest::DisconnectClient {
                version: PROTOCOL_VERSION,
                request_id: 7,
                client_id: remote,
            })
            .body,
        ControlResponseBody::Success { .. }
    ));
    let owner = snapshot_size_owner(&mut plane, 8).expect("host owns after detach");
    assert_eq!(owner.client_id, host);
    assert_eq!(owner.kind, SizeOwnerKind::Host);
}

#[test]
fn failed_geometry_mutations_continue_after_too_small() {
    let (mut plane, window, pane) = fixture(8);
    let bad_ratio = plane.handle(ControlRequest::Split {
        version: PROTOCOL_VERSION,
        request_id: 2,
        window_id: window,
        target_pane_id: pane,
        axis: AxisWire::Horizontal,
        ratio_bits: ratio(1.0),
        spawn: spawn(),
        client_id: None,
    });
    assert_eq!(error_code(&bad_ratio), ControlErrorCode::InvalidRequest);
    let last_pane = plane.handle(ControlRequest::Close {
        version: PROTOCOL_VERSION,
        request_id: 3,
        window_id: window,
        pane_id: pane,
        prior_focus_id: pane,
        client_id: None,
    });
    assert_eq!(error_code(&last_pane), ControlErrorCode::LastPane);
    let snapshot = plane.snapshot().unwrap();
    assert_eq!(snapshot.sequence, 0);
    assert_eq!(snapshot.sessions[0].windows[0].bounds.cols, 80);
    assert_eq!(snapshot.sessions[0].windows[0].panes.len(), 1);
}

#[test]
fn structured_spawn_rejects_shellish_ambiguity_before_mutation() {
    let (mut plane, window, pane) = fixture(8);
    let response = plane.handle(ControlRequest::Split {
        version: PROTOCOL_VERSION,
        request_id: 1,
        window_id: window,
        target_pane_id: pane,
        axis: AxisWire::Horizontal,
        ratio_bits: ratio(0.5),
        spawn: SpawnSpec {
            program: String::new(),
            argv: vec!["echo bad".into()],
            cwd: Some(b"relative".to_vec()),
            env: Vec::new(),
        },
        client_id: None,
    });
    assert_eq!(error_code(&response), ControlErrorCode::InvalidRequest);
    assert_eq!(plane.sequence(), 0);
    assert_eq!(
        plane.snapshot().unwrap().sessions[0].windows[0].panes.len(),
        1
    );

    let oversized = plane.handle(ControlRequest::Split {
        version: PROTOCOL_VERSION,
        request_id: 2,
        window_id: window,
        target_pane_id: pane,
        axis: AxisWire::Horizontal,
        ratio_bits: ratio(0.5),
        spawn: SpawnSpec {
            program: "/bin/sh".into(),
            argv: vec!["x".repeat(MAX_SPAWN_BYTES)],
            cwd: None,
            env: Vec::new(),
        },
        client_id: None,
    });
    assert_eq!(error_code(&oversized), ControlErrorCode::InvalidRequest);
    assert_eq!(plane.sequence(), 0);
}

#[test]
fn reconnect_must_resnapshot_before_event_replay() {
    let (plane, _, _) = fixture(8);
    let mut server = serve(plane);
    let mut stream = server.connect();
    let response = server.request(&mut stream, ControlRequest::Events {
            version: 99,
            request_id: 1,
            after_sequence: 0,
            limit: None,
        },
    );
    assert_eq!(error_code(&response), ControlErrorCode::IncompatibleVersion);
    let response = server.request(&mut stream, ControlRequest::Events {
            version: PROTOCOL_VERSION,
            request_id: 2,
            after_sequence: 0,
            limit: None,
        },
    );
    assert_eq!(error_code(&response), ControlErrorCode::SnapshotRequired);
    let ControlResponseBody::Failure { error } = &response.body else {
        unreachable!()
    };
    assert!(error.resnapshot_required);
    assert_eq!(error.current_sequence, Some(0));
    let snapshot = server.request(&mut stream, ControlRequest::Snapshot {
            version: PROTOCOL_VERSION,
            request_id: 3,
        },
    );
    assert!(matches!(
        snapshot.body,
        ControlResponseBody::Success {
            response: ControlResponseData::Snapshot { .. }
        }
    ));
    let events = server.request(&mut stream, ControlRequest::Events {
            version: PROTOCOL_VERSION,
            request_id: 4,
            after_sequence: 0,
            limit: None,
        },
    );
    assert!(matches!(
        events.body,
        ControlResponseBody::Success {
            response: ControlResponseData::Events { .. }
        }
    ));
}

#[test]
fn phase2a_wire_event_gap_revokes_snapshot_until_resync() {
    let (plane, window, _) = fixture(1);
    let mut server = serve(plane);
    let mut stream = server.connect();
    let snapshot = server.request(&mut stream, ControlRequest::Snapshot {
            version: PROTOCOL_VERSION,
            request_id: 1,
        },
    );
    assert!(matches!(snapshot.body, ControlResponseBody::Success { .. }));
    for (request_id, cols) in [(2, 81), (3, 82)] {
        let mutation = server.request(&mut stream, ControlRequest::Resize {
                version: PROTOCOL_VERSION,
                request_id,
                window_id: window,
                cols,
                rows: 24,
                cell_width_px: None,
                cell_height_px: None,
                fit: false,
                host: false,
                client_id: None,
            },
        );
        assert!(matches!(mutation.body, ControlResponseBody::Success { .. }));
    }
    let gap = server.request(&mut stream, ControlRequest::Events {
            version: PROTOCOL_VERSION,
            request_id: 4,
            after_sequence: 0,
            limit: None,
        },
    );
    assert_eq!(error_code(&gap), ControlErrorCode::EventGap);
    let requires_snapshot = server.request(&mut stream, ControlRequest::Events {
            version: PROTOCOL_VERSION,
            request_id: 5,
            after_sequence: 1,
            limit: None,
        },
    );
    assert_eq!(
        error_code(&requires_snapshot),
        ControlErrorCode::SnapshotRequired
    );
}

#[test]
fn phase2a_unregistered_and_disconnected_client_ids_are_stale() {
    let (mut plane, _, pane) = fixture(16);
    let unregistered = plane.handle(ControlRequest::AcquireLease {
        version: PROTOCOL_VERSION,
        request_id: 1,
        client_id: 77,
        pane_id: pane,
    });
    assert_eq!(error_code(&unregistered), ControlErrorCode::StaleId);
    assert_eq!(plane.sequence(), 0);

    let client = registered_client(plane.handle(ControlRequest::RegisterClient {
        version: PROTOCOL_VERSION,
        request_id: 2,
    }));
    assert!(matches!(
        plane
            .handle(ControlRequest::AcquireLease {
                version: PROTOCOL_VERSION,
                request_id: 3,
                client_id: client,
                pane_id: pane,
            })
            .body,
        ControlResponseBody::Success { .. }
    ));
    assert!(matches!(
        plane
            .handle(ControlRequest::DisconnectClient {
                version: PROTOCOL_VERSION,
                request_id: 4,
                client_id: client,
            })
            .body,
        ControlResponseBody::Success { .. }
    ));
    let stale_write = plane.handle(ControlRequest::WritePane {
        version: PROTOCOL_VERSION,
        request_id: 5,
        client_id: client,
        pane_id: pane,
        data: "must not revive".into(),
    });
    assert_eq!(error_code(&stale_write), ControlErrorCode::StaleId);
}

#[test]
fn phase2a_socket_client_identity_cannot_be_re_registered_or_spoofed() {
    let (plane, _, pane) = fixture(16);
    let mut server = serve(plane);
    let mut first = server.connect();
    let mut second = server.connect();
    let first_id = registered_client(server.request(&mut first, ControlRequest::RegisterClient {
            version: PROTOCOL_VERSION,
            request_id: 1,
        },
    ));
    let second_id = registered_client(server.request(&mut second, ControlRequest::RegisterClient {
            version: PROTOCOL_VERSION,
            request_id: 1,
        },
    ));
    assert_ne!(first_id, second_id);

    let duplicate = server.request(&mut first, ControlRequest::RegisterClient {
            version: PROTOCOL_VERSION,
            request_id: 2,
        },
    );
    assert_eq!(error_code(&duplicate), ControlErrorCode::InvalidRequest);
    let acquired = server.request(&mut first, ControlRequest::AcquireLease {
            version: PROTOCOL_VERSION,
            request_id: 3,
            client_id: first_id,
            pane_id: pane,
        },
    );
    assert!(matches!(acquired.body, ControlResponseBody::Success { .. }));

    let spoof = server.request(&mut second, ControlRequest::WritePane {
            version: PROTOCOL_VERSION,
            request_id: 2,
            client_id: first_id,
            pane_id: pane,
            data: "spoof".into(),
        },
    );
    assert_eq!(error_code(&spoof), ControlErrorCode::StaleId);
    let observer = server.request(&mut second, ControlRequest::WritePane {
            version: PROTOCOL_VERSION,
            request_id: 3,
            client_id: second_id,
            pane_id: pane,
            data: "observer".into(),
        },
    );
    assert_eq!(error_code(&observer), ControlErrorCode::NotController);
}

#[test]
fn lease_exclusivity_takeover_and_observer_write_rejection() {
    let (mut plane, _window, pane) = fixture(16);
    let c1 = match plane
        .handle(ControlRequest::RegisterClient {
            version: PROTOCOL_VERSION,
            request_id: 1,
        })
        .body
    {
        ControlResponseBody::Success {
            response: ControlResponseData::ClientRegistered { client_id },
        } => client_id,
        other => panic!("register c1: {other:?}"),
    };
    let c2 = match plane
        .handle(ControlRequest::RegisterClient {
            version: PROTOCOL_VERSION,
            request_id: 2,
        })
        .body
    {
        ControlResponseBody::Success {
            response: ControlResponseData::ClientRegistered { client_id },
        } => client_id,
        other => panic!("register c2: {other:?}"),
    };

    let acquire = plane.handle(ControlRequest::AcquireLease {
        version: PROTOCOL_VERSION,
        request_id: 3,
        client_id: c1,
        pane_id: pane,
    });
    assert!(matches!(
        acquire.body,
        ControlResponseBody::Success {
            response: ControlResponseData::Lease {
                controller_id: Some(id),
                ..
            }
        } if id == c1
    ));

    let held = plane.handle(ControlRequest::AcquireLease {
        version: PROTOCOL_VERSION,
        request_id: 4,
        client_id: c2,
        pane_id: pane,
    });
    assert_eq!(error_code(&held), ControlErrorCode::LeaseHeld);

    let observer_write = plane.handle(ControlRequest::WritePane {
        version: PROTOCOL_VERSION,
        request_id: 5,
        client_id: c2,
        pane_id: pane,
        data: "secret".into(),
    });
    assert_eq!(error_code(&observer_write), ControlErrorCode::NotController);
    match &observer_write.body {
        ControlResponseBody::Failure { error } => assert_eq!(error.holder, Some(c1)),
        other => panic!("expected NotController holder, got {other:?}"),
    }

    let controller_write = plane.handle(ControlRequest::WritePane {
        version: PROTOCOL_VERSION,
        request_id: 6,
        client_id: c1,
        pane_id: pane,
        data: "ok".into(),
    });
    assert_eq!(
        error_code(&controller_write),
        ControlErrorCode::InputRouteUnavailable
    );
    assert_eq!(plane.sequence(), 1);

    let takeover = plane.handle(ControlRequest::TakeoverLease {
        version: PROTOCOL_VERSION,
        request_id: 7,
        client_id: c2,
        pane_id: pane,
    });
    assert!(matches!(
        takeover.body,
        ControlResponseBody::Success {
            response: ControlResponseData::Lease {
                controller_id: Some(id),
                previous_controller_id: Some(prev),
                ..
            }
        } if id == c2 && prev == c1
    ));

    let snap = plane.snapshot().unwrap();
    assert_eq!(snap.sessions[0].windows[0].panes[0].controller_id, Some(c2));

    let release = plane.handle(ControlRequest::ReleaseLease {
        version: PROTOCOL_VERSION,
        request_id: 8,
        client_id: c2,
        pane_id: pane,
    });
    assert!(matches!(
        release.body,
        ControlResponseBody::Success {
            response: ControlResponseData::Lease {
                controller_id: None,
                ..
            }
        }
    ));
}

#[test]
fn write_pane_lease_free_when_no_controller() {
    let (mut plane, _window, pane) = fixture(16);
    let client = match plane
        .handle(ControlRequest::RegisterClient {
            version: PROTOCOL_VERSION,
            request_id: 1,
        })
        .body
    {
        ControlResponseBody::Success {
            response: ControlResponseData::ClientRegistered { client_id },
        } => client_id,
        other => panic!("register: {other:?}"),
    };
    let write = plane.handle(ControlRequest::WritePane {
        version: PROTOCOL_VERSION,
        request_id: 2,
        client_id: client,
        pane_id: pane,
        data: "ok-free".into(),
    });
    assert_eq!(
        error_code(&write),
        ControlErrorCode::InputRouteUnavailable,
        "lease-free write must pass controller check: {write:?}"
    );
}

#[test]
fn disconnect_client_clears_all_held_leases() {
    let (mut plane, window, pane) = fixture(16);
    let c1 = match plane
        .handle(ControlRequest::RegisterClient {
            version: PROTOCOL_VERSION,
            request_id: 1,
        })
        .body
    {
        ControlResponseBody::Success {
            response: ControlResponseData::ClientRegistered { client_id },
        } => client_id,
        other => panic!("{other:?}"),
    };
    let acq = plane.handle(ControlRequest::AcquireLease {
        version: PROTOCOL_VERSION,
        request_id: 2,
        client_id: c1,
        pane_id: pane,
    });
    assert!(matches!(acq.body, ControlResponseBody::Success { .. }));
    let split = plane.handle(ControlRequest::Split {
        version: PROTOCOL_VERSION,
        request_id: 3,
        window_id: window,
        target_pane_id: pane,
        axis: AxisWire::Horizontal,
        ratio_bits: ratio(0.5),
        spawn: spawn(),
        client_id: Some(c1),
    });
    let new_pane = match plane.snapshot().unwrap().sessions[0].windows[0]
        .panes
        .iter()
        .map(|p| p.id)
        .filter(|id| *id != pane)
        .collect::<Vec<_>>()
        .as_slice()
    {
        [id] => *id,
        other => panic!("expected one new pane after split, got {other:?} (split={split:?})"),
    };
    let acq2 = plane.handle(ControlRequest::AcquireLease {
        version: PROTOCOL_VERSION,
        request_id: 4,
        client_id: c1,
        pane_id: new_pane,
    });
    assert!(matches!(acq2.body, ControlResponseBody::Success { .. }));
    let disc = plane.handle(ControlRequest::DisconnectClient {
        version: PROTOCOL_VERSION,
        request_id: 5,
        client_id: c1,
    });
    match disc.body {
        ControlResponseBody::Success {
            response: ControlResponseData::LeasesReleased { pane_ids, .. },
        } => {
            assert!(pane_ids.contains(&pane));
            assert!(pane_ids.contains(&new_pane));
        }
        other => panic!("{other:?}"),
    }
    let snap = plane.snapshot().unwrap();
    for p in &snap.sessions[0].windows[0].panes {
        assert_eq!(p.controller_id, None);
    }
}

#[test]
fn create_window_raw_json_round_trip_and_stale_ids_are_unsequenced() {
    let (mut plane, _, _) = fixture(8);
    let session = plane.snapshot().unwrap().sessions[0].id;
    let created = plane.handle(ControlRequest::CreateWindow {
        version: PROTOCOL_VERSION,
        request_id: 1,
        session_id: session,
        title: "work".into(),
        spawn: spawn(),
        cols: Some(80),
        rows: Some(24),
    });
    let (_, window, pane) = window_ids(&created);
    assert_eq!(plane.snapshot().unwrap().sessions[0].windows.len(), 2);
    assert_ne!(
        pane,
        plane.snapshot().unwrap().sessions[0].windows[0].panes[0].id
    );
    assert!(plane.snapshot().unwrap().sessions[0]
        .windows
        .iter()
        .any(|w| w.id == window));

    let stale = plane.handle(ControlRequest::DestroyWindow {
        version: PROTOCOL_VERSION,
        request_id: 2,
        window_id: 99,
    });
    assert_eq!(error_code(&stale), ControlErrorCode::StaleId);
    assert_eq!(plane.sequence(), 1);

    let stale_session = plane.handle(ControlRequest::CreateWindow {
        version: PROTOCOL_VERSION,
        request_id: 3,
        session_id: 99,
        title: "ghost".into(),
        spawn: spawn(),
        cols: None,
        rows: None,
    });
    assert_eq!(error_code(&stale_session), ControlErrorCode::StaleId);
    assert_eq!(plane.sequence(), 1);
}

#[test]
fn rename_window_raw_json_round_trip_and_stale_ids_are_unsequenced() {
    let (mut plane, window, _) = fixture(8);
    let renamed = plane.handle(ControlRequest::RenameWindow {
        version: PROTOCOL_VERSION,
        request_id: 1,
        window_id: window,
        title: "  work  ".into(),
    });
    match renamed.body {
        ControlResponseBody::Success {
            response:
                ControlResponseData::Window {
                    window_id, title, ..
                },
        } => {
            assert_eq!(window_id, window);
            assert_eq!(title, "work");
        }
        other => panic!("{other:?}"),
    }
    assert_eq!(
        plane.snapshot().unwrap().sessions[0].windows[0].title,
        "work"
    );
    assert_eq!(plane.sequence(), 1);

    let stale = plane.handle(ControlRequest::RenameWindow {
        version: PROTOCOL_VERSION,
        request_id: 2,
        window_id: 99,
        title: "ghost".into(),
    });
    assert_eq!(error_code(&stale), ControlErrorCode::StaleId);
    assert_eq!(plane.sequence(), 1);

    let empty = plane.handle(ControlRequest::RenameWindow {
        version: PROTOCOL_VERSION,
        request_id: 3,
        window_id: window,
        title: "   ".into(),
    });
    assert_eq!(error_code(&empty), ControlErrorCode::InvalidRequest);
    assert_eq!(plane.sequence(), 1);

    let huge = plane.handle(ControlRequest::RenameWindow {
        version: PROTOCOL_VERSION,
        request_id: 4,
        window_id: window,
        title: "x".repeat(65),
    });
    assert_eq!(error_code(&huge), ControlErrorCode::InvalidRequest);
    assert_eq!(plane.sequence(), 1);
    assert_eq!(
        plane.snapshot().unwrap().sessions[0].windows[0].title,
        "work"
    );
}

#[test]
fn rename_pane_sets_clears_and_rejects_bad_titles() {
    let (mut plane, _, pane) = fixture(8);
    let before = plane.sequence();
    let renamed = plane.handle(ControlRequest::RenamePane {
        version: PROTOCOL_VERSION,
        request_id: 1,
        pane_id: pane,
        title: "  build  ".into(),
    });
    assert!(
        matches!(renamed.body, ControlResponseBody::Success { .. }),
        "{renamed:?}"
    );
    assert_eq!(
        plane.plane.domain.panes.get(pane).unwrap().title,
        "build"
    );
    assert!(
        plane.plane.domain.panes.get(pane).unwrap()
            .title_pinned,
        "rename pins OSC 0/2 (PT-230)"
    );
    assert!(plane.sequence() > before, "rename is sequenced");
    let shown = plane.snapshot().unwrap();
    assert_eq!(shown.sessions[0].windows[0].panes[0].title, "build");
    assert!(shown.sessions[0].windows[0].panes[0].title_pinned);

    let cleared = plane.handle(ControlRequest::RenamePane {
        version: PROTOCOL_VERSION,
        request_id: 3,
        pane_id: pane,
        title: String::new(),
    });
    assert!(matches!(cleared.body, ControlResponseBody::Success { .. }));
    assert_eq!(plane.plane.domain.panes.get(pane).unwrap().title, "");
    assert!(
        !plane.plane.domain.panes.get(pane).unwrap()
            .title_pinned,
        "empty rename unpins"
    );

    let mid = plane.sequence();
    let control = plane.handle(ControlRequest::RenamePane {
        version: PROTOCOL_VERSION,
        request_id: 4,
        pane_id: pane,
        title: "bad\u{7}".into(),
    });
    assert_eq!(error_code(&control), ControlErrorCode::InvalidRequest);
    let long = plane.handle(ControlRequest::RenamePane {
        version: PROTOCOL_VERSION,
        request_id: 5,
        pane_id: pane,
        title: "x".repeat(65),
    });
    assert_eq!(error_code(&long), ControlErrorCode::InvalidRequest);
    let stale = plane.handle(ControlRequest::RenamePane {
        version: PROTOCOL_VERSION,
        request_id: 6,
        pane_id: 999_999,
        title: "ghost".into(),
    });
    assert_eq!(error_code(&stale), ControlErrorCode::StaleId);
    assert_eq!(plane.sequence(), mid, "rejections are unsequenced");
}

#[test]
fn set_pane_status_round_trip_and_rejections_are_unsequenced() {
    let (mut plane, _, pane) = fixture(8);
    let set = plane.handle(ControlRequest::SetPaneStatus {
        version: PROTOCOL_VERSION,
        request_id: 1,
        pane_id: pane,
        text: Some("  build ok  ".into()),
    });
    assert!(matches!(
        set.body,
        ControlResponseBody::Success {
            response: ControlResponseData::Mutation { .. }
        }
    ));
    assert_eq!(
        plane.snapshot().unwrap().sessions[0].windows[0].panes[0]
            .status
            .as_deref(),
        Some("build ok")
    );
    assert_eq!(plane.sequence(), 1);

    let cleared = plane.handle(ControlRequest::SetPaneStatus {
        version: PROTOCOL_VERSION,
        request_id: 2,
        pane_id: pane,
        text: None,
    });
    assert!(matches!(cleared.body, ControlResponseBody::Success { .. }));
    assert_eq!(
        plane.snapshot().unwrap().sessions[0].windows[0].panes[0].status,
        None
    );
    assert_eq!(plane.sequence(), 2);

    let _ = plane.handle(ControlRequest::SetPaneStatus {
        version: PROTOCOL_VERSION,
        request_id: 3,
        pane_id: pane,
        text: Some("keep".into()),
    });
    assert_eq!(plane.sequence(), 3);
    assert_eq!(
        plane.snapshot().unwrap().sessions[0].windows[0].panes[0]
            .status
            .as_deref(),
        Some("keep")
    );

    let stale = plane.handle(ControlRequest::SetPaneStatus {
        version: PROTOCOL_VERSION,
        request_id: 4,
        pane_id: 99,
        text: Some("ghost".into()),
    });
    assert_eq!(error_code(&stale), ControlErrorCode::StaleId);
    assert_eq!(plane.sequence(), 3);
    assert_eq!(
        plane.snapshot().unwrap().sessions[0].windows[0].panes[0]
            .status
            .as_deref(),
        Some("keep")
    );

    let huge = plane.handle(ControlRequest::SetPaneStatus {
        version: PROTOCOL_VERSION,
        request_id: 5,
        pane_id: pane,
        text: Some("x".repeat(65)),
    });
    assert_eq!(error_code(&huge), ControlErrorCode::InvalidRequest);
    assert_eq!(plane.sequence(), 3);

    let esc = plane.handle(ControlRequest::SetPaneStatus {
        version: PROTOCOL_VERSION,
        request_id: 6,
        pane_id: pane,
        text: Some("a\u{1b}[31mb".into()),
    });
    assert_eq!(error_code(&esc), ControlErrorCode::InvalidRequest);
    assert_eq!(plane.sequence(), 3);

    let tab = plane.handle(ControlRequest::SetPaneStatus {
        version: PROTOCOL_VERSION,
        request_id: 7,
        pane_id: pane,
        text: Some("a\tb".into()),
    });
    assert_eq!(error_code(&tab), ControlErrorCode::InvalidRequest);
    assert_eq!(plane.sequence(), 3);
    assert_eq!(
        plane.snapshot().unwrap().sessions[0].windows[0].panes[0]
            .status
            .as_deref(),
        Some("keep")
    );

    let empty = plane.handle(ControlRequest::SetPaneStatus {
        version: PROTOCOL_VERSION,
        request_id: 8,
        pane_id: pane,
        text: Some("   ".into()),
    });
    assert!(matches!(empty.body, ControlResponseBody::Success { .. }));
    assert_eq!(
        plane.snapshot().unwrap().sessions[0].windows[0].panes[0].status,
        None
    );
}

#[test]
fn set_sync_input_round_trip_and_stale_window_is_unsequenced() {
    let (mut plane, window, _) = fixture(8);
    let client = registered_client(plane.handle(ControlRequest::RegisterClient {
        version: PROTOCOL_VERSION,
        request_id: 1,
    }));
    let set = plane.handle(ControlRequest::SetSyncInput {
        version: PROTOCOL_VERSION,
        request_id: 2,
        client_id: client,
        window_id: window,
        enabled: true,
    });
    assert!(matches!(
        set.body,
        ControlResponseBody::Success {
            response: ControlResponseData::Mutation { .. }
        }
    ));
    assert!(plane.snapshot().unwrap().sessions[0].windows[0].sync_input);
    assert_eq!(plane.sequence(), 1);

    let off = plane.handle(ControlRequest::SetSyncInput {
        version: PROTOCOL_VERSION,
        request_id: 3,
        client_id: client,
        window_id: window,
        enabled: false,
    });
    assert!(matches!(off.body, ControlResponseBody::Success { .. }));
    assert!(!plane.snapshot().unwrap().sessions[0].windows[0].sync_input);
    assert_eq!(plane.sequence(), 2);

    let stale = plane.handle(ControlRequest::SetSyncInput {
        version: PROTOCOL_VERSION,
        request_id: 4,
        client_id: client,
        window_id: 99,
        enabled: true,
    });
    assert_eq!(error_code(&stale), ControlErrorCode::StaleId);
    assert_eq!(plane.sequence(), 2);
}

#[test]
fn write_pane_sync_fans_out_to_siblings_and_off_stays_focused() {
    let (mut plane, window, pane) = live_fixture("A");
    let client = register_live_client(&mut plane);
    let split = plane.handle(ControlRequest::Split {
        version: PROTOCOL_VERSION,
        request_id: 10,
        window_id: window,
        target_pane_id: pane,
        axis: AxisWire::Vertical,
        ratio_bits: ratio(0.5),
        spawn: live_shell_spawn("B"),
        client_id: None,
    });
    assert!(matches!(split.body, ControlResponseBody::Success { .. }));
    let sibling = plane.snapshot().unwrap().sessions[0].windows[0]
        .panes
        .iter()
        .map(|p| p.id)
        .find(|id| *id != pane)
        .expect("sibling pane");

    let _ = plane.handle(ControlRequest::AcquireLease {
        version: PROTOCOL_VERSION,
        request_id: 11,
        client_id: client,
        pane_id: pane,
    });
    let _ = plane.handle(ControlRequest::SetSyncInput {
        version: PROTOCOL_VERSION,
        request_id: 12,
        client_id: client,
        window_id: window,
        enabled: true,
    });
    let wrote = plane.handle(ControlRequest::WritePane {
        version: PROTOCOL_VERSION,
        request_id: 13,
        client_id: client,
        pane_id: pane,
        data: "hi\n".into(),
    });
    assert!(matches!(
        wrote.body,
        ControlResponseBody::Success {
            response: ControlResponseData::WriteQueued { .. }
        }
    ));

    let _ = plane.handle(ControlRequest::SetSyncInput {
        version: PROTOCOL_VERSION,
        request_id: 14,
        client_id: client,
        window_id: window,
        enabled: false,
    });
    let wrote = plane.handle(ControlRequest::WritePane {
        version: PROTOCOL_VERSION,
        request_id: 15,
        client_id: client,
        pane_id: pane,
        data: "one\n".into(),
    });
    assert!(matches!(wrote.body, ControlResponseBody::Success { .. }));
    assert_eq!(plane.input(pane), "hi
one
");
    assert_eq!(plane.input(sibling), "hi
", "sync off must not fan out");
}

#[test]
fn team_attention_coalesces_and_rejects_stale_ownership_and_revisions() {
    let (mut plane, _window, pane) = live_fixture("A");
    let client = register_live_client(&mut plane);
    let session = plane.snapshot().unwrap().sessions[0].id;
    let owner = "a".repeat(32);
    plane
        .plane
        .domain
        .transfer_space_sessions(&vec![session], &None, &Some(owner.clone()))
        .unwrap();
    let raise = |plane: &mut Mux, client: u64, pane: u64, message: &str| {
        plane.handle(ControlRequest::RaiseAttention {
            version: PROTOCOL_VERSION,
            request_id: 2,
            client_id: client,
            pane_id: pane,
            message: message.into(),
        })
    };
    let ok = |response: &ControlResponse| matches!(response.body, ControlResponseBody::Success { .. });
    let update = |plane: &mut Mux, revision: u64, space: &str, action: AttentionAction| {
        plane.handle(ControlRequest::UpdateAttention {
            version: PROTOCOL_VERSION,
            request_id: 3,
            client_id: client,
            pane_id: pane,
            revision,
            expected_space: space.into(),
            expected_session: session,
            action,
        })
    };
    assert!(ok(&raise(&mut plane, client, pane, "Choose a branch")));
    let first = plane.team_attention(pane).unwrap().clone();
    let seq = plane.sequence();
    assert!(ok(&raise(&mut plane, client, pane, "Choose a branch")));
    assert_eq!(*plane.team_attention(pane).unwrap(), first);
    assert_eq!(plane.sequence(), seq);
    let stranger = "b".repeat(32);
    assert!(!ok(&update(&mut plane, first.revision, &stranger, AttentionAction::Resolve)));
    assert!(!ok(&update(&mut plane, first.revision, &owner, AttentionAction::Snooze { seconds: 0 })));
    assert!(ok(&update(&mut plane, first.revision, &owner, AttentionAction::Snooze { seconds: 10 })));
    assert!(plane.team_attention(pane).unwrap().snoozed_until_ms > plane.now);
    assert!(ok(&raise(&mut plane, client, pane, "Review changes")));
    assert!(!ok(&update(&mut plane, first.revision, &owner, AttentionAction::Resolve)));
    let revision = plane.team_attention(pane).unwrap().revision;
    plane.edit_pane(pane, |state| state.attention = Some("mail replaced this hint".into()));
    assert!(ok(&update(&mut plane, revision, &owner, AttentionAction::Resolve)));
    assert!(plane.team_attention(pane).is_none());
    assert_eq!(plane.attention(pane), Some("mail replaced this hint"));
    let (mut restarted, _, other_pane) = live_fixture("A");
    restarted.tokens = 40;
    let other_client = register_live_client(&mut restarted);
    assert!(ok(&raise(&mut restarted, other_client, other_pane, "Choose a branch")));
    assert_ne!(restarted.team_attention(other_pane).unwrap().revision, first.revision);
    assert!(restarted.team_attention(other_pane).unwrap().revision < (1u64 << 53));
}

#[test]
fn write_pane_clears_generic_attention_and_emits_event() {
    let (mut plane, _window, pane) = live_fixture("A");
    let client = register_live_client(&mut plane);
    let lease = plane.handle(ControlRequest::AcquireLease {
        version: PROTOCOL_VERSION,
        request_id: 10,
        client_id: client,
        pane_id: pane,
    });
    assert!(matches!(lease.body, ControlResponseBody::Success { .. }));

    let raised = plane.handle(ControlRequest::RaiseAttention {
        version: PROTOCOL_VERSION,
        request_id: 11,
        client_id: client,
        pane_id: pane,
        message: "needs input".into(),
    });
    assert!(matches!(raised.body, ControlResponseBody::Success { .. }));
    let raised_sequence = plane.sequence();
    assert_eq!(
        plane.attention(pane),
        Some("needs input")
    );

    let wrote = plane.handle(ControlRequest::WritePane {
        version: PROTOCOL_VERSION,
        request_id: 12,
        client_id: client,
        pane_id: pane,
        data: "y".into(),
    });
    assert!(matches!(
        wrote.body,
        ControlResponseBody::Success {
            response: ControlResponseData::WriteQueued { .. }
        }
    ));
    assert!(plane.attention(pane).is_none());
    assert!(plane.team_attention(pane).is_none());
    let events = plane.events_after(raised_sequence, None).unwrap().events;
    assert!(events.iter().any(|envelope| matches!(
        envelope.event,
        Event::PaneAttentionCleared { pane_id } if pane_id == pane
    )));
}

#[test]
fn write_pane_sync_rejects_observer_and_swallows_dead_sibling() {
    let (mut plane, window, pane) = live_fixture("A");
    let controller = register_live_client(&mut plane);
    let split = plane.handle(ControlRequest::Split {
        version: PROTOCOL_VERSION,
        request_id: 10,
        window_id: window,
        target_pane_id: pane,
        axis: AxisWire::Vertical,
        ratio_bits: ratio(0.5),
        spawn: live_shell_spawn("B"),
        client_id: None,
    });
    assert!(matches!(split.body, ControlResponseBody::Success { .. }));
    let sibling = plane.snapshot().unwrap().sessions[0].windows[0]
        .panes
        .iter()
        .map(|p| p.id)
        .find(|id| *id != pane)
        .expect("sibling pane");
    let _ = plane.handle(ControlRequest::AcquireLease {
        version: PROTOCOL_VERSION,
        request_id: 11,
        client_id: controller,
        pane_id: pane,
    });
    let _ = plane.handle(ControlRequest::SetSyncInput {
        version: PROTOCOL_VERSION,
        request_id: 12,
        client_id: controller,
        window_id: window,
        enabled: true,
    });

    let observer = match plane
        .handle(ControlRequest::RegisterClient {
            version: PROTOCOL_VERSION,
            request_id: 13,
        })
        .body
    {
        ControlResponseBody::Success {
            response: ControlResponseData::ClientRegistered { client_id },
        } => client_id,
        other => panic!("register observer: {other:?}"),
    };
    let observer_write = plane.handle(ControlRequest::WritePane {
        version: PROTOCOL_VERSION,
        request_id: 14,
        client_id: observer,
        pane_id: pane,
        data: "secret\n".into(),
    });
    assert_eq!(error_code(&observer_write), ControlErrorCode::NotController);

    plane.children.remove(&sibling);
    let wrote = plane.handle(ControlRequest::WritePane {
        version: PROTOCOL_VERSION,
        request_id: 15,
        client_id: controller,
        pane_id: pane,
        data: "still\n".into(),
    });
    assert!(
        matches!(
            wrote.body,
            ControlResponseBody::Success {
                response: ControlResponseData::WriteQueued { .. }
            }
        ),
        "dead sibling must not fail the focused write: {wrote:?}"
    );
    assert_eq!(plane.input(pane), "still\n");
}

#[test]
fn move_pane_emits_one_event_and_rejects_same_window_unsequenced() {
    let (mut plane, src, first) = fixture(8);
    let session = plane.snapshot().unwrap().sessions[0].id;
    let created = plane.handle(ControlRequest::CreateWindow {
        version: PROTOCOL_VERSION,
        request_id: 1,
        session_id: session,
        title: "dst".into(),
        spawn: spawn(),
        cols: Some(80),
        rows: Some(24),
    });
    let (_, dst, target) = window_ids(&created);
    let split = plane.handle(ControlRequest::Split {
        version: PROTOCOL_VERSION,
        request_id: 2,
        window_id: src,
        target_pane_id: first,
        axis: AxisWire::Horizontal,
        ratio_bits: ratio(0.5),
        spawn: spawn(),
        client_id: None,
    });
    assert_eq!(mutation_sequence(&split), 2);
    let moved = plane.snapshot().unwrap().sessions[0].windows[0].panes[1].id;

    let before = plane.sequence();
    let same = plane.handle(ControlRequest::MovePane {
        version: PROTOCOL_VERSION,
        request_id: 3,
        from_window_id: src,
        to_window_id: src,
        pane_id: moved,
        target_pane_id: first,
        axis: AxisWire::Vertical,
        ratio_bits: ratio(0.5),
        client_id: None,
    });
    assert_eq!(error_code(&same), ControlErrorCode::StaleId);
    assert_eq!(plane.sequence(), before);

    let moved_resp = plane.handle(ControlRequest::MovePane {
        version: PROTOCOL_VERSION,
        request_id: 4,
        from_window_id: src,
        to_window_id: dst,
        pane_id: moved,
        target_pane_id: target,
        axis: AxisWire::Vertical,
        ratio_bits: ratio(0.5),
        client_id: None,
    });
    assert_eq!(mutation_sequence(&moved_resp), before + 1);
    let batch = plane.events_after(before, None).unwrap();
    assert_eq!(batch.events.len(), 1);
    match &batch.events[0].event {
        Event::PaneMoved {
            from_window_id,
            to_window_id,
            pane_id,
            geometry,
            ..
        } => {
            assert_eq!(*from_window_id, src);
            assert_eq!(*to_window_id, dst);
            assert_eq!(*pane_id, moved);
            assert!(geometry.iter().any(|pane| pane.pane_id == moved));
            assert!(geometry.iter().any(|pane| pane.pane_id == target));
        }
        other => panic!("expected single PaneMoved, got {other:?}"),
    }
    assert!(!matches!(
        batch.events[0].event,
        Event::PaneClosed { .. } | Event::PaneSplit { .. }
    ));
}

#[test]
fn switch_window_is_client_local_and_destroy_collapses_session() {
    let (mut plane, first_window, _) = fixture(8);
    let session = plane.snapshot().unwrap().sessions[0].id;
    let client = registered_client(plane.handle(ControlRequest::RegisterClient {
        version: PROTOCOL_VERSION,
        request_id: 1,
    }));
    let created = plane.handle(ControlRequest::CreateWindow {
        version: PROTOCOL_VERSION,
        request_id: 2,
        session_id: session,
        title: "two".into(),
        spawn: spawn(),
        cols: None,
        rows: None,
    });
    let (_, second, pane) = window_ids(&created);
    let switched = plane.handle(ControlRequest::SwitchWindow {
        version: PROTOCOL_VERSION,
        request_id: 3,
        client_id: client,
        window_id: second,
    });
    assert_eq!(window_ids(&switched).1, second);
    assert_eq!(window_ids(&switched).2, pane);
    assert_eq!(plane.snapshot().unwrap().sessions[0].windows.len(), 2);

    let _ = plane.handle(ControlRequest::DestroyWindow {
        version: PROTOCOL_VERSION,
        request_id: 4,
        window_id: first_window,
    });
    assert_eq!(plane.snapshot().unwrap().sessions[0].windows.len(), 1);
    let last = plane.handle(ControlRequest::DestroyWindow {
        version: PROTOCOL_VERSION,
        request_id: 5,
        window_id: second,
    });
    assert!(matches!(
        last.body,
        ControlResponseBody::Success {
            response: ControlResponseData::Mutation { .. }
        }
    ));
    assert!(plane.snapshot().unwrap().sessions.is_empty());
}

#[test]
fn phase2b_live_runtime_preserves_pty_across_move_pane() {
    let (mut plane, src, pane) = live_fixture("MOVE");
    let session = plane.snapshot().unwrap().sessions[0].id;
    let client = registered_client(plane.handle(ControlRequest::RegisterClient {
        version: PROTOCOL_VERSION,
        request_id: 1,
    }));
    let created = plane.handle(ControlRequest::CreateWindow {
        version: PROTOCOL_VERSION,
        request_id: 2,
        session_id: session,
        title: "dst".into(),
        spawn: live_shell_spawn("DST"),
        cols: Some(80),
        rows: Some(24),
    });
    let (_, dst, target) = window_ids(&created);
    let before = pane_content(plane.handle(ControlRequest::ReadPane {
        version: PROTOCOL_VERSION,
        request_id: 3,
        client_id: client,
        pane_id: pane,
    }));
    assert!(before.child_alive);
    let pid = before.child_pid.expect("live pane has a child pid");

    let moved = plane.handle(ControlRequest::MovePane {
        version: PROTOCOL_VERSION,
        request_id: 4,
        from_window_id: src,
        to_window_id: dst,
        pane_id: pane,
        target_pane_id: target,
        axis: AxisWire::Horizontal,
        ratio_bits: ratio(0.5),
        client_id: None,
    });
    assert!(
        matches!(
            moved.body,
            ControlResponseBody::Success {
                response: ControlResponseData::Mutation { .. }
            }
        ),
        "{moved:?}"
    );
    let after = pane_content(plane.handle(ControlRequest::ReadPane {
        version: PROTOCOL_VERSION,
        request_id: 5,
        client_id: client,
        pane_id: pane,
    }));
    assert!(after.child_alive, "{after:?}");
    assert_eq!(after.child_pid, Some(pid));
    let snapshot = plane.snapshot().unwrap();
    let dest = snapshot.sessions[0]
        .windows
        .iter()
        .find(|window| window.id == dst)
        .unwrap();
    assert!(dest.panes.iter().any(|candidate| candidate.id == pane));
    assert!(snapshot.sessions[0].windows.iter().all(|window| {
        window.id != src || window.panes.iter().all(|candidate| candidate.id != pane)
    }));
}

#[test]
fn rich_input_rejects_observer_stale_client_and_wrong_pane_before_delivery() {
    let (mut plane, _, pane) = fixture(8);
    let holder = registered_client(plane.handle(ControlRequest::RegisterClient {
        version: PROTOCOL_VERSION,
        request_id: 1,
    }));
    let observer = registered_client(plane.handle(ControlRequest::RegisterClient {
        version: PROTOCOL_VERSION,
        request_id: 2,
    }));
    let _ = plane.handle(ControlRequest::AcquireLease {
        version: PROTOCOL_VERSION,
        request_id: 3,
        client_id: holder,
        pane_id: pane,
    });

    let key = |request_id, client_id, pane_id| ControlRequest::RichInput {
        version: PROTOCOL_VERSION,
        request_id,
        client_id,
        pane_id,
        input: RichInputKind::Key {
            key: "Enter".into(),
            modifiers: 0,
        },
    };
    assert_eq!(
        error_code(&plane.handle(key(4, observer, pane))),
        ControlErrorCode::NotController
    );
    assert_eq!(
        error_code(&plane.handle(key(5, u64::MAX, pane))),
        ControlErrorCode::StaleId
    );
    assert_eq!(
        error_code(&plane.handle(key(6, holder, u64::MAX))),
        ControlErrorCode::StaleId
    );
    assert_eq!(
        error_code(&plane.handle(key(7, holder, pane))),
        ControlErrorCode::InputRouteUnavailable
    );
}

#[test]
fn failed_write_does_not_queue_copy_request() {
    let (mut plane, _, pane) = live_fixture("READY");
    let holder = registered_client(plane.handle(ControlRequest::RegisterClient {
        version: PROTOCOL_VERSION,
        request_id: 1,
    }));
    let _ = plane.handle(ControlRequest::AcquireLease {
        version: PROTOCOL_VERSION,
        request_id: 2,
        client_id: holder,
        pane_id: pane,
    });
    plane.children.get_mut(&pane).unwrap().refuses = true;
    match plane.handle(ControlRequest::WritePane {
        version: PROTOCOL_VERSION,
        request_id: 3,
        client_id: holder,
        pane_id: pane,
        data: "y".into(),
    }) {
        ControlResponse {
            body: ControlResponseBody::Failure { error },
            ..
        } => assert_eq!(error.code, ControlErrorCode::Backpressure),
        other => panic!("expected backpressure, got {other:?}"),
    }
    let view = styled_content(plane.handle(ControlRequest::ReadPaneStyled {
        version: PROTOCOL_VERSION,
        request_id: 4,
        client_id: holder,
        pane_id: pane,
        view_offset: None,
    }));
    assert!(
        view.semantic_clipboard.is_none(),
        "a rejected write must not leave a ghost copy owner"
    );
}

#[test]
fn rejected_rich_input_does_not_queue_copy_request() {
    let (mut plane, _, pane) = live_fixture("READY");
    let holder = registered_client(plane.handle(ControlRequest::RegisterClient {
        version: PROTOCOL_VERSION,
        request_id: 1,
    }));
    let _ = plane.handle(ControlRequest::AcquireLease {
        version: PROTOCOL_VERSION,
        request_id: 2,
        client_id: holder,
        pane_id: pane,
    });
    match plane.handle(ControlRequest::RichInput {
        version: PROTOCOL_VERSION,
        request_id: 3,
        client_id: holder,
        pane_id: pane,
        input: RichInputKind::Key {
            key: "y".into(),
            modifiers: 0,
        },
    }) {
        ControlResponse {
            body: ControlResponseBody::Failure { error },
            ..
        } => assert_eq!(error.code, ControlErrorCode::InputRouteUnavailable),
        other => panic!("expected rejected rich input, got {other:?}"),
    }
    let view = styled_content(plane.handle(ControlRequest::ReadPaneStyled {
        version: PROTOCOL_VERSION,
        request_id: 4,
        client_id: holder,
        pane_id: pane,
        view_offset: None,
    }));
    assert!(
        view.semantic_clipboard.is_none(),
        "rejected RichInput must not leave a ghost copy owner"
    );
}

#[test]
fn mail_attention_set_rejects_empty_cell() {
    let (mut plane, _, pane) = fixture(16);
    let client = registered_client(plane.handle(ControlRequest::RegisterClient {
        version: PROTOCOL_VERSION,
        request_id: 1,
    }));
    let reply = plane.handle(ControlRequest::MailAttentionSet {
        version: PROTOCOL_VERSION,
        request_id: 2,
        client_id: client,
        pane_id: pane,
        cell: "  ".into(),
        gen: 1,
        queue_rev: 1,
        depth: 1,
        wake: None,
        bound_pid: None,
    });
    match reply.body {
        ControlResponseBody::Failure { error } => {
            assert_eq!(error.code, ControlErrorCode::InvalidRequest);
            assert!(
                error.message.contains("non-empty label"),
                "{}",
                error.message
            );
        }
        other => panic!("expected InvalidRequest, got {other:?}"),
    }
    assert!(plane.plane.lit_mail_cells().is_empty());
}

#[test]
fn hive_drain_clears_letter_and_blocks_stale_set() {
    let (mut plane, _, pane) = fixture(16);
    let client = registered_client(plane.handle(ControlRequest::RegisterClient {
        version: PROTOCOL_VERSION,
        request_id: 1,
    }));
    let _ = plane.handle(ControlRequest::MailAttentionSet {
        version: PROTOCOL_VERSION,
        request_id: 2,
        client_id: client,
        pane_id: pane,
        cell: "43@1".into(),
        gen: 1,
        queue_rev: 10,
        depth: 1,
        wake: None,
        bound_pid: Some(99),
    });
    assert_eq!(plane.plane.lit_mail_cells(), vec![(pane, "43@1".into())]);
    assert!(plane.hive_drain(pane));
    assert!(plane.plane.lit_mail_cells().is_empty());
    assert!(!plane.hive_drain(pane));
    let resurrect = plane.handle(ControlRequest::MailAttentionSet {
        version: PROTOCOL_VERSION,
        request_id: 3,
        client_id: client,
        pane_id: pane,
        cell: "43@1".into(),
        gen: 1,
        queue_rev: 10,
        depth: 1,
        wake: None,
        bound_pid: Some(99),
    });
    let (_, attention, _) = mail_attention(resurrect);
    assert!(
        attention.is_none(),
        "stale Set must not relight after hive drain"
    );
    assert!(matches!(
        mail_events(&plane, 1).last(),
        Some(Event::MailAttentionChanged {
            depth: 0,
            queue_rev: Some(11),
            ..
        })
    ));
}

#[test]
fn clear_mail_attention_logs_mail_depth_zero() {
    let (mut plane, _, pane) = live_fixture("MAIL");
    let client = registered_client(plane.handle(ControlRequest::RegisterClient {
        version: PROTOCOL_VERSION,
        request_id: 1,
    }));
    let _ = plane.handle(ControlRequest::MailAttentionSet {
        version: PROTOCOL_VERSION,
        request_id: 2,
        client_id: client,
        pane_id: pane,
        cell: "43@1".into(),
        gen: 1,
        queue_rev: 10,
        depth: 2,
        wake: None,
        bound_pid: None,
    });
    let raised = plane.mail_depths(pane);
    assert!(
        raised.contains(&2),
        "raise must log MailDepth 2, got {raised:?}"
    );
    let before = plane.sequence();
    let cleared = plane.handle(ControlRequest::MailAttentionClear {
        version: PROTOCOL_VERSION,
        request_id: 3,
        client_id: client,
        pane_id: pane,
        queue_rev: 11,
    });
    assert!(mail_attention(cleared).1.is_none());
    assert!(matches!(
        mail_events(&plane, before.saturating_sub(1)).last(),
        Some(Event::MailAttentionChanged {
            depth: 0,
            queue_rev: Some(11),
            ..
        })
    ));
    let depths = plane.mail_depths(pane);
    assert_eq!(
        depths.last().copied(),
        Some(0),
        "clear must log MailDepth 0, got {depths:?}"
    );
}

#[test]
fn hive_drain_logs_mail_depth_zero() {
    let (mut plane, _, pane) = live_fixture("MAIL");
    let client = registered_client(plane.handle(ControlRequest::RegisterClient {
        version: PROTOCOL_VERSION,
        request_id: 1,
    }));
    let _ = plane.handle(ControlRequest::MailAttentionSet {
        version: PROTOCOL_VERSION,
        request_id: 2,
        client_id: client,
        pane_id: pane,
        cell: "43@1".into(),
        gen: 1,
        queue_rev: 10,
        depth: 1,
        wake: None,
        bound_pid: None,
    });
    assert!(plane.hive_drain(pane));
    let depths = plane.mail_depths(pane);
    assert_eq!(
        depths.last().copied(),
        Some(0),
        "hive drain must log MailDepth 0, got {depths:?}"
    );
    assert!(matches!(
        mail_events(&plane, 1).last(),
        Some(Event::MailAttentionChanged {
            depth: 0,
            queue_rev: Some(11),
            ..
        })
    ));
}

#[test]
fn mail_attention_set_is_idempotent_on_pane_and_queue_rev() {
    let (mut plane, _, pane) = fixture(16);
    let client = registered_client(plane.handle(ControlRequest::RegisterClient {
        version: PROTOCOL_VERSION,
        request_id: 1,
    }));
    let first = plane.handle(ControlRequest::MailAttentionSet {
        version: PROTOCOL_VERSION,
        request_id: 2,
        client_id: client,
        pane_id: pane,
        cell: "33@1".into(),
        gen: 1,
        queue_rev: 7,
        depth: 2,
        wake: Some(MailWake::Armed),
        bound_pid: Some(4242),
    });
    let (pane_id, attention, ledger) = mail_attention(first);
    assert_eq!(pane_id, pane);
    let attention = attention.expect("set");
    assert_eq!(attention.queue_rev, 7);
    assert_eq!(attention.depth, 2);
    assert_eq!(attention.wake, Some(MailWake::Armed));
    assert_eq!(attention.bound_pid, Some(4242));
    assert!(!ledger.focused);
    assert!(!ledger.dirty_input);
    assert_eq!(plane.sequence(), 1);
    assert!(matches!(
        &mail_events(&plane, 0)[0],
        Event::MailAttentionChanged {
            pane_id: id,
            depth: 2,
            queue_rev: Some(7),
            ..
        } if *id == pane
    ));

    let again = plane.handle(ControlRequest::MailAttentionSet {
        version: PROTOCOL_VERSION,
        request_id: 3,
        client_id: client,
        pane_id: pane,
        cell: "33@1".into(),
        gen: 1,
        queue_rev: 7,
        depth: 2,
        wake: Some(MailWake::Armed),
        bound_pid: Some(4242),
    });
    assert!(matches!(
        again.body,
        ControlResponseBody::Success {
            response: ControlResponseData::MailAttention { .. }
        }
    ));
    assert_eq!(plane.sequence(), 1, "identical set must not emit");

    let mismatch = plane.handle(ControlRequest::MailAttentionSet {
        version: PROTOCOL_VERSION,
        request_id: 4,
        client_id: client,
        pane_id: pane,
        cell: "33@1".into(),
        gen: 1,
        queue_rev: 7,
        depth: 3,
        wake: Some(MailWake::Rung),
        bound_pid: Some(1),
    });
    let (_, attention, _) = mail_attention(mismatch);
    let attention = attention.expect("same-rev mismatch keeps first write");
    assert_eq!(attention.depth, 2);
    assert_eq!(attention.wake, Some(MailWake::Armed));
    assert_eq!(attention.bound_pid, Some(4242));
    assert_eq!(
        plane.sequence(),
        1,
        "same-rev payload mismatch must not emit"
    );
}

#[test]
fn mail_attention_depth_zero_and_clear_drop_the_bit() {
    let (mut plane, _, pane) = fixture(16);
    let client = registered_client(plane.handle(ControlRequest::RegisterClient {
        version: PROTOCOL_VERSION,
        request_id: 1,
    }));
    let _ = plane.handle(ControlRequest::MailAttentionSet {
        version: PROTOCOL_VERSION,
        request_id: 2,
        client_id: client,
        pane_id: pane,
        cell: "33@1".into(),
        gen: 1,
        queue_rev: 1,
        depth: 1,
        wake: None,
        bound_pid: None,
    });
    let same_rev_clear = plane.handle(ControlRequest::MailAttentionSet {
        version: PROTOCOL_VERSION,
        request_id: 3,
        client_id: client,
        pane_id: pane,
        cell: "33@1".into(),
        gen: 1,
        queue_rev: 1,
        depth: 0,
        wake: None,
        bound_pid: None,
    });
    assert_eq!(
        mail_attention(same_rev_clear)
            .1
            .expect("equal rev clear is no-op")
            .depth,
        1
    );
    assert_eq!(plane.sequence(), 1);

    let cleared = plane.handle(ControlRequest::MailAttentionSet {
        version: PROTOCOL_VERSION,
        request_id: 4,
        client_id: client,
        pane_id: pane,
        cell: "33@1".into(),
        gen: 1,
        queue_rev: 2,
        depth: 0,
        wake: None,
        bound_pid: None,
    });
    let (_, attention, _) = mail_attention(cleared);
    assert!(attention.is_none());
    assert_eq!(plane.sequence(), 2);
    let last = mail_events(&plane, 1);
    assert!(matches!(
        last.last(),
        Some(Event::MailAttentionChanged {
            depth: 0,
            cell: None,
            ..
        })
    ));

    let again = plane.handle(ControlRequest::MailAttentionClear {
        version: PROTOCOL_VERSION,
        request_id: 5,
        client_id: client,
        pane_id: pane,
        queue_rev: 2,
    });
    assert!(mail_attention(again).1.is_none());
    assert_eq!(plane.sequence(), 2, "equal-rev clear of empty is silent");
}

#[test]
fn mail_attention_stale_rev_cannot_erase_newer_attention() {
    let (mut plane, _, pane) = fixture(16);
    let client = registered_client(plane.handle(ControlRequest::RegisterClient {
        version: PROTOCOL_VERSION,
        request_id: 1,
    }));
    let _ = plane.handle(ControlRequest::MailAttentionSet {
        version: PROTOCOL_VERSION,
        request_id: 2,
        client_id: client,
        pane_id: pane,
        cell: "33@1".into(),
        gen: 1,
        queue_rev: 8,
        depth: 1,
        wake: Some(MailWake::Armed),
        bound_pid: None,
    });
    let newer = plane.handle(ControlRequest::MailAttentionSet {
        version: PROTOCOL_VERSION,
        request_id: 3,
        client_id: client,
        pane_id: pane,
        cell: "33@1".into(),
        gen: 1,
        queue_rev: 9,
        depth: 2,
        wake: Some(MailWake::Armed),
        bound_pid: None,
    });
    assert_eq!(mail_attention(newer).1.expect("rev 9").queue_rev, 9);
    assert_eq!(plane.sequence(), 2);

    let stale_set = plane.handle(ControlRequest::MailAttentionSet {
        version: PROTOCOL_VERSION,
        request_id: 4,
        client_id: client,
        pane_id: pane,
        cell: "33@1".into(),
        gen: 1,
        queue_rev: 8,
        depth: 0,
        wake: None,
        bound_pid: None,
    });
    let (_, attention, _) = mail_attention(stale_set);
    assert_eq!(
        attention.expect("stale depth-0 must not clear").queue_rev,
        9
    );
    assert_eq!(plane.sequence(), 2);

    let stale_clear = plane.handle(ControlRequest::MailAttentionClear {
        version: PROTOCOL_VERSION,
        request_id: 5,
        client_id: client,
        pane_id: pane,
        queue_rev: 8,
    });
    assert_eq!(
        mail_attention(stale_clear)
            .1
            .expect("stale clear kept")
            .queue_rev,
        9
    );
    assert_eq!(plane.sequence(), 2);
}

#[test]
fn mail_attention_clear_watermark_blocks_older_set() {
    let (mut plane, _, pane) = fixture(16);
    let client = registered_client(plane.handle(ControlRequest::RegisterClient {
        version: PROTOCOL_VERSION,
        request_id: 1,
    }));
    let _ = plane.handle(ControlRequest::MailAttentionSet {
        version: PROTOCOL_VERSION,
        request_id: 2,
        client_id: client,
        pane_id: pane,
        cell: "33@1".into(),
        gen: 1,
        queue_rev: 50,
        depth: 2,
        wake: None,
        bound_pid: None,
    });
    let cleared = plane.handle(ControlRequest::MailAttentionClear {
        version: PROTOCOL_VERSION,
        request_id: 3,
        client_id: client,
        pane_id: pane,
        queue_rev: 51,
    });
    assert!(mail_attention(cleared).1.is_none());
    assert_eq!(plane.sequence(), 2);

    let resurrect = plane.handle(ControlRequest::MailAttentionSet {
        version: PROTOCOL_VERSION,
        request_id: 4,
        client_id: client,
        pane_id: pane,
        cell: "33@1".into(),
        gen: 1,
        queue_rev: 50,
        depth: 7,
        wake: None,
        bound_pid: None,
    });
    assert!(
        mail_attention(resurrect).1.is_none(),
        "older Set after newer Clear must not resurrect"
    );
    assert_eq!(plane.sequence(), 2);

    let same_as_clear = plane.handle(ControlRequest::MailAttentionSet {
        version: PROTOCOL_VERSION,
        request_id: 5,
        client_id: client,
        pane_id: pane,
        cell: "33@1".into(),
        gen: 1,
        queue_rev: 51,
        depth: 1,
        wake: None,
        bound_pid: None,
    });
    assert!(
        mail_attention(same_as_clear).1.is_none(),
        "Set at the Clear's rev is a no-op"
    );

    let empty_clear = {
        let (mut plane, _, pane) = fixture(8);
        let client = registered_client(plane.handle(ControlRequest::RegisterClient {
            version: PROTOCOL_VERSION,
            request_id: 1,
        }));
        let _ = plane.handle(ControlRequest::MailAttentionClear {
            version: PROTOCOL_VERSION,
            request_id: 2,
            client_id: client,
            pane_id: pane,
            queue_rev: 51,
        });
        assert_eq!(plane.sequence(), 0, "empty-pane Clear only sets watermark");
        let stale = plane.handle(ControlRequest::MailAttentionSet {
            version: PROTOCOL_VERSION,
            request_id: 3,
            client_id: client,
            pane_id: pane,
            cell: "33@1".into(),
            gen: 1,
            queue_rev: 50,
            depth: 1,
            wake: None,
            bound_pid: None,
        });
        mail_attention(stale).1
    };
    assert!(empty_clear.is_none());
}

#[test]
fn mail_attention_rejects_stale_client_and_pane() {
    let (mut plane, _, pane) = fixture(8);
    let missing_client = plane.handle(ControlRequest::MailAttentionSet {
        version: PROTOCOL_VERSION,
        request_id: 1,
        client_id: 99,
        pane_id: pane,
        cell: "33@1".into(),
        gen: 1,
        queue_rev: 1,
        depth: 1,
        wake: None,
        bound_pid: None,
    });
    assert_eq!(error_code(&missing_client), ControlErrorCode::StaleId);

    let client = registered_client(plane.handle(ControlRequest::RegisterClient {
        version: PROTOCOL_VERSION,
        request_id: 2,
    }));
    let missing_pane = plane.handle(ControlRequest::MailAttentionClear {
        version: PROTOCOL_VERSION,
        request_id: 3,
        client_id: client,
        pane_id: 404,
        queue_rev: 1,
    });
    assert_eq!(error_code(&missing_pane), ControlErrorCode::StaleId);
    assert_eq!(plane.sequence(), 0);
}

#[test]
fn suggest_focus_mail_stays_advisory() {
    let (mut plane, window, pane) = fixture(8);
    let before = plane.snapshot().unwrap();
    let response = plane.handle(ControlRequest::SuggestFocus {
        version: PROTOCOL_VERSION,
        request_id: 1,
        window_id: window,
        pane_id: pane,
        reason: Some("mail".into()),
    });
    assert_eq!(mutation_sequence(&response), 1);
    let after = plane.snapshot().unwrap();
    assert_eq!(after.sessions, before.sessions);
    assert_eq!(after.sequence, 1);
    assert!(matches!(
        &mail_events(&plane, 0)[0],
        Event::FocusSuggested {
            reason: Some(reason),
            ..
        } if reason == "mail"
    ));
}

#[test]
fn report_focus_marks_ledger_focused() {
    let (mut plane, window, pane) = fixture(8);
    let client = registered_client(plane.handle(ControlRequest::RegisterClient {
        version: PROTOCOL_VERSION,
        request_id: 1,
    }));
    let reported = plane.handle(ControlRequest::ReportFocus {
        version: PROTOCOL_VERSION,
        request_id: 2,
        client_id: client,
        window_id: window,
        pane_id: pane,
    });
    let (_, _, ledger) = mail_attention(reported);
    assert!(ledger.focused);
    assert_eq!(plane.sequence(), 1);
    let again = plane.handle(ControlRequest::ReportFocus {
        version: PROTOCOL_VERSION,
        request_id: 3,
        client_id: client,
        window_id: window,
        pane_id: pane,
    });
    assert!(mail_attention(again).2.focused);
    assert_eq!(plane.sequence(), 1, "same focus report is idempotent");
}

#[test]
fn close_pane_clears_mail_attention() {
    let (mut plane, window, first) = fixture(8);
    let client = registered_client(plane.handle(ControlRequest::RegisterClient {
        version: PROTOCOL_VERSION,
        request_id: 1,
    }));
    let split = plane.handle(ControlRequest::Split {
        version: PROTOCOL_VERSION,
        request_id: 2,
        window_id: window,
        target_pane_id: first,
        axis: AxisWire::Horizontal,
        ratio_bits: ratio(0.5),
        spawn: spawn(),
        client_id: None,
    });
    assert!(matches!(split.body, ControlResponseBody::Success { .. }));
    let second = plane.snapshot().unwrap().sessions[0].windows[0]
        .panes
        .iter()
        .find(|pane| pane.id != first)
        .unwrap()
        .id;
    let _ = plane.handle(ControlRequest::MailAttentionSet {
        version: PROTOCOL_VERSION,
        request_id: 3,
        client_id: client,
        pane_id: second,
        cell: "36@1".into(),
        gen: 1,
        queue_rev: 9,
        depth: 1,
        wake: Some(MailWake::Rung),
        bound_pid: None,
    });
    let before_close = plane.sequence();
    let _ = plane.handle(ControlRequest::Close {
        version: PROTOCOL_VERSION,
        request_id: 4,
        window_id: window,
        pane_id: second,
        prior_focus_id: first,
        client_id: None,
    });
    let events = mail_events(&plane, before_close.saturating_sub(1));
    assert!(events.iter().any(|event| matches!(
        event,
        Event::MailAttentionChanged {
            pane_id,
            depth: 0,
            ..
        } if *pane_id == second
    )));
    assert!(plane.snapshot().unwrap().sessions[0].windows[0]
        .panes
        .iter()
        .all(|pane| pane.mail.is_none()));
}

#[test]
fn doorbell_defers_when_foreground_is_not_a_known_agent() {
    let (mut plane, pane) = live_inject_fixture(u32::MAX);
    let client = registered_client(plane.handle(ControlRequest::RegisterClient {
        version: PROTOCOL_VERSION,
        request_id: 1,
    }));
    let set = plane.handle(ControlRequest::MailAttentionSet {
        version: PROTOCOL_VERSION,
        request_id: 2,
        client_id: client,
        pane_id: pane,
        cell: MAIL_ATTENTION_CELL.into(),
        gen: 1,
        queue_rev: 1,
        depth: 1,
        wake: Some(MailWake::Armed),
        bound_pid: None,
    });
    assert!(matches!(set.body, ControlResponseBody::Success { .. }));
    quiet_unattended(&mut plane, pane);

    // A plain shell in the foreground: nothing is typed, attention stays lit.
    plane.agent = InjectAgent::Unknown;
    let (outcome, nbytes) = mail_inject(inject_mail(&mut plane, client, pane, 3));
    assert_eq!(outcome, MailInjectOutcome::DeferredNoAgent);
    assert_eq!(nbytes, 0);
    assert!(plane.mail_attention(pane).is_some_and(
        |attention| attention.depth == 1 && attention.wake == Some(MailWake::Armed)
    ));
    assert_eq!(plane.mail_inject_writes(pane), 0, "no write was recorded");

    // The agent CLI starts: the next attempt rings.
    plane.agent = InjectAgent::Claude;
    quiet_unattended(&mut plane, pane);
    let (outcome, nbytes) = mail_inject(inject_mail(&mut plane, client, pane, 4));
    assert_eq!(outcome, MailInjectOutcome::Wrote);
    assert_eq!(nbytes, PMUX_MAIL_NOTIFICATION.len() + 1);
}

#[test]
fn inject_mail_spinner_ticks_are_not_busy() {
    let (mut plane, pane) = live_inject_fixture(u32::MAX);
    let client = registered_client(plane.handle(ControlRequest::RegisterClient {
        version: PROTOCOL_VERSION,
        request_id: 1,
    }));
    arm_mail(&mut plane, client, pane, 2);
    quiet_unattended(&mut plane, pane);
    for _ in 0..90 {
        plane.record_output_bytes(pane, 32);
    }
    let (outcome, nbytes) = mail_inject(inject_mail(&mut plane, client, pane, 3));
    assert_eq!(outcome, MailInjectOutcome::Wrote);
    assert_eq!(nbytes, MAIL_INJECT_PAYLOAD.len());
}

#[test]
fn inject_mail_large_dump_is_busy() {
    let (mut plane, pane) =
        live_inject_fixture(0);
    let client = registered_client(plane.handle(ControlRequest::RegisterClient {
        version: PROTOCOL_VERSION,
        request_id: 1,
    }));
    arm_mail(&mut plane, client, pane, 2);
    quiet_unattended(&mut plane, pane);
    plane.record_output_bytes(pane, MAIL_INJECT_BUSY_BYTES);
    let (outcome, nbytes) = mail_inject(inject_mail(&mut plane, client, pane, 3));
    assert_eq!(outcome, MailInjectOutcome::DeferredBusy);
    assert_eq!(nbytes, 0);
    assert_eq!(plane.mail_inject_writes(pane), 0);
}

#[test]
fn inject_mail_focused_writes_when_quiet() {
    let (mut plane, pane) = live_inject_fixture(u32::MAX);
    let snapshot = plane.snapshot().unwrap();
    let window = snapshot.sessions[0].windows[0].id;
    let client = registered_client(plane.handle(ControlRequest::RegisterClient {
        version: PROTOCOL_VERSION,
        request_id: 1,
    }));
    quiet_unattended(&mut plane, pane);
    let focused = plane.handle(ControlRequest::ReportFocus {
        version: PROTOCOL_VERSION,
        request_id: 2,
        client_id: client,
        window_id: window,
        pane_id: pane,
    });
    assert!(matches!(focused.body, ControlResponseBody::Success { .. }));
    arm_mail(&mut plane, client, pane, 3);
    let (outcome, nbytes) = mail_inject(inject_mail(&mut plane, client, pane, 4));
    assert_eq!(outcome, MailInjectOutcome::Wrote);
    assert_eq!(nbytes, MAIL_INJECT_PAYLOAD.len());
    assert_eq!(plane.mail_inject_writes(pane), 1);
}

#[test]
fn delayed_mail_nudge_retries_after_busy_deferral() {
    let (mut plane, pane) = live_inject_fixture(u32::MAX);
    let client = registered_client(plane.handle(ControlRequest::RegisterClient {
        version: PROTOCOL_VERSION,
        request_id: 1,
    }));
    arm_mail(&mut plane, client, pane, 3);
    quiet_unattended(&mut plane, pane);
    plane.record_output_bytes(pane, MAIL_INJECT_BUSY_BYTES);
    let (outcome, nbytes) = mail_inject(inject_mail(&mut plane, client, pane, 4));
    assert_eq!(outcome, MailInjectOutcome::DeferredBusy);
    assert_eq!(nbytes, 0);
    assert_eq!(plane.mail_inject_writes(pane), 0);

    plane.edit_pane(pane, |state| state.output.clear());
    quiet_unattended(&mut plane, pane);
    plane.edit_pane(pane, |state| state.nudge.as_mut().unwrap().due_at_ms = 0);
    plane.retry_mail_nudges();
    assert_eq!(plane.mail_inject_writes(pane), 1);
    plane.edit_pane(pane, |state| {
        if let Some(nudge) = state.nudge.as_mut() {
            nudge.due_at_ms = 0;
        }
    });
    plane.edit_pane(pane, |state| {
        if let Some(record) = state.inject.as_mut() {
            record.hide_until_ms = 0;
        }
    });
    plane.retry_mail_nudges();
    assert_eq!(plane.mail_inject_writes(pane), 2);
    assert!(plane.nudge(pane).is_none());

    assert!(plane.input(pane).contains(PMUX_MAIL_NOTIFICATION));
}

#[test]
fn mail_inbox_peek_cancels_delayed_nudge() {
    let (mut plane, _, _) = fixture(8);
    let sender = mail_hello(&mut plane, 1, "operator-b");
    let recipient = mail_hello(&mut plane, 2, "operator-a");
    let created = plane.handle(ControlRequest::CreateSession {
        version: PROTOCOL_VERSION,
        request_id: 3,
        name: "work".into(),
        spawn: spawn(),
        cols: None,
        rows: None,
        agent_id: Some("operator-a".into()),
        headless: false,
    });
    let (_, _, pane) = session_ids(&created);
    let sent = plane.handle(ControlRequest::MailSend {
        version: PROTOCOL_VERSION,
        request_id: 4,
        client_id: sender,
        to: "operator-a".into(),
        summary: "peek cancels".into(),
        body: String::new(),
    });
    assert!(matches!(sent.body, ControlResponseBody::Success { .. }));
    assert!(plane.nudge(pane).is_some());

    let inbox = plane.handle(ControlRequest::MailInbox {
        version: PROTOCOL_VERSION,
        request_id: 5,
        client_id: recipient,
    });
    assert!(matches!(
        inbox.body,
        ControlResponseBody::Success {
            response: ControlResponseData::MailDepth { open: 1, held: 0 }
        }
    ));
    assert!(plane.nudge(pane).is_none());
}

#[test]
fn inject_mail_lease_held_does_not_write() {
    let (mut plane, _, pane) = fixture(16);
    // Lease semantics under test; the fixture child is a shell, so model an agent pane.
    plane.agent = InjectAgent::Claude;
    let holder = registered_client(plane.handle(ControlRequest::RegisterClient {
        version: PROTOCOL_VERSION,
        request_id: 1,
    }));
    let injector = registered_client(plane.handle(ControlRequest::RegisterClient {
        version: PROTOCOL_VERSION,
        request_id: 2,
    }));
    assert!(matches!(
        plane
            .handle(ControlRequest::AcquireLease {
                version: PROTOCOL_VERSION,
                request_id: 3,
                client_id: holder,
                pane_id: pane,
            })
            .body,
        ControlResponseBody::Success { .. }
    ));
    arm_mail(&mut plane, injector, pane, 4);
    quiet_unattended(&mut plane, pane);
    let (outcome, nbytes) = mail_inject(inject_mail(&mut plane, injector, pane, 5));
    assert_eq!(outcome, MailInjectOutcome::DeferredLease);
    assert_eq!(nbytes, 0);
    assert_eq!(plane.mail_inject_writes(pane), 0);
}

#[test]
fn inject_mail_quiet_unattended_writes_exact_bytes_once() {
    let (mut plane, pane) = live_inject_fixture(u32::MAX);
    let client = registered_client(plane.handle(ControlRequest::RegisterClient {
        version: PROTOCOL_VERSION,
        request_id: 1,
    }));
    arm_mail(&mut plane, client, pane, 2);
    quiet_unattended(&mut plane, pane);
    let (outcome, nbytes) = mail_inject(inject_mail(&mut plane, client, pane, 3));
    assert_eq!(outcome, MailInjectOutcome::Wrote);
    assert_eq!(nbytes, MAIL_INJECT_PAYLOAD.len());
    assert_eq!(nbytes, PMUX_MAIL_NOTIFICATION.len() + 1);
    assert_eq!(plane.mail_inject_writes(pane), 1);
    assert!(plane.input(pane).contains(PMUX_MAIL_NOTIFICATION));
    quiet_unattended(&mut plane, pane);
    let (again, n2) = mail_inject(inject_mail(&mut plane, client, pane, 4));
    assert_eq!(again, MailInjectOutcome::DeferredHide);
    assert_eq!(n2, 0);
    assert_eq!(plane.mail_inject_writes(pane), 1);
}

#[test]
fn inject_mail_wrote_gets_one_bounded_verification_retry() {
    let (mut plane, pane) = live_inject_fixture(1);
    let client = registered_client(plane.handle(ControlRequest::RegisterClient {
        version: PROTOCOL_VERSION,
        request_id: 1,
    }));
    arm_mail(&mut plane, client, pane, 2);
    let (outcome, _) = mail_inject(inject_mail(&mut plane, client, pane, 3));
    assert_eq!(outcome, MailInjectOutcome::Wrote);
    assert_eq!(plane.mail_inject_writes(pane), 1);
    assert!(plane.nudge(pane).is_some_and(|nudge| nudge.verification));
    plane.children.get_mut(&pane).unwrap().revision += 1;

    // Make both gates due explicitly. Do not rely on wall-clock timing.
    plane.edit_pane(pane, |state| state.nudge.as_mut().unwrap().due_at_ms = 0);
    plane.edit_pane(pane, |state| state.inject.as_mut().unwrap().hide_until_ms = 0);
    plane.retry_mail_nudges();
    assert_eq!(plane.mail_inject_writes(pane), 2);
    assert!(plane.nudge(pane).is_none());

    plane.retry_mail_nudges();
    assert_eq!(plane.mail_inject_writes(pane), 2);
    let snapshot = plane.snapshot().unwrap();
    let diagnostic = snapshot.sessions[0].windows[0].panes[0]
        .mail_inject
        .as_ref()
        .expect("last mail inject diagnostic");
    assert_eq!(diagnostic.outcome, MailInjectOutcome::Stuck);
}

#[test]
fn inject_mail_silent_draft_is_stuck_without_a_second_write() {
    let (mut plane, pane) =
        live_inject_fixture(0);
    let client = registered_client(plane.handle(ControlRequest::RegisterClient {
        version: PROTOCOL_VERSION,
        request_id: 1,
    }));
    arm_mail(&mut plane, client, pane, 2);
    quiet_unattended(&mut plane, pane);
    let (outcome, nbytes) = mail_inject(inject_mail(&mut plane, client, pane, 3));
    assert_eq!(outcome, MailInjectOutcome::Stuck);
    assert_eq!(nbytes, MAIL_INJECT_PAYLOAD.len());
    assert_eq!(plane.mail_inject_writes(pane), 1);
    let (again, n2) = mail_inject(inject_mail(&mut plane, client, pane, 4));
    assert_eq!(again, MailInjectOutcome::SkippedStuck);
    assert_eq!(n2, 0);
    assert_eq!(plane.mail_inject_writes(pane), 1);
}

#[test]
fn write_pane_updates_input_ledger_cr_and_dirty() {
    let (mut plane, _, pane) = live_fixture("LEDGER");
    let client = registered_client(plane.handle(ControlRequest::RegisterClient {
        version: PROTOCOL_VERSION,
        request_id: 1,
    }));
    assert!(matches!(
        plane
            .handle(ControlRequest::AcquireLease {
                version: PROTOCOL_VERSION,
                request_id: 2,
                client_id: client,
                pane_id: pane,
            })
            .body,
        ControlResponseBody::Success { .. }
    ));
    let dirty = plane.handle(ControlRequest::WritePane {
        version: PROTOCOL_VERSION,
        request_id: 3,
        client_id: client,
        pane_id: pane,
        data: "hello".into(),
    });
    assert!(matches!(
        dirty.body,
        ControlResponseBody::Success {
            response: ControlResponseData::WriteQueued { .. }
        }
    ));
    let ledger = plane.snapshot().unwrap().sessions[0].windows[0].panes[0]
        .ledger
        .clone();
    assert_eq!(ledger.controller_id, Some(client));
    assert!(ledger.last_controller_write_at_ms.is_some());
    assert!(!ledger.last_write_ended_with_cr);
    assert!(ledger.dirty_input);

    let clean = plane.handle(ControlRequest::WritePane {
        version: PROTOCOL_VERSION,
        request_id: 4,
        client_id: client,
        pane_id: pane,
        data: "line\r".into(),
    });
    assert!(matches!(
        clean.body,
        ControlResponseBody::Success {
            response: ControlResponseData::WriteQueued { .. }
        }
    ));
    let ledger = plane.snapshot().unwrap().sessions[0].windows[0].panes[0]
        .ledger
        .clone();
    assert!(ledger.last_write_ended_with_cr);
    assert!(!ledger.dirty_input);
}

#[test]
fn release_lease_keeps_dirty_input() {
    let (mut plane, _, pane) = live_fixture("LEDGER");
    let client = registered_client(plane.handle(ControlRequest::RegisterClient {
        version: PROTOCOL_VERSION,
        request_id: 1,
    }));
    assert!(matches!(
        plane
            .handle(ControlRequest::AcquireLease {
                version: PROTOCOL_VERSION,
                request_id: 2,
                client_id: client,
                pane_id: pane,
            })
            .body,
        ControlResponseBody::Success { .. }
    ));
    let dirty = plane.handle(ControlRequest::WritePane {
        version: PROTOCOL_VERSION,
        request_id: 3,
        client_id: client,
        pane_id: pane,
        data: "half-typed".into(),
    });
    assert!(matches!(
        dirty.body,
        ControlResponseBody::Success {
            response: ControlResponseData::WriteQueued { .. }
        }
    ));
    assert!(
        plane.snapshot().unwrap().sessions[0].windows[0].panes[0]
            .ledger
            .dirty_input
    );
    assert!(matches!(
        plane
            .handle(ControlRequest::ReleaseLease {
                version: PROTOCOL_VERSION,
                request_id: 4,
                client_id: client,
                pane_id: pane,
            })
            .body,
        ControlResponseBody::Success { .. }
    ));
    let ledger = plane.snapshot().unwrap().sessions[0].windows[0].panes[0]
        .ledger
        .clone();
    assert!(
        ledger.dirty_input,
        "lease release must not clear an unsubmitted line"
    );
    assert!(ledger.last_controller_write_at_ms.is_some());
    assert!(!ledger.last_write_ended_with_cr);
}

#[test]
fn disconnect_client_keeps_dirty_input() {
    let (mut plane, _, pane) = live_fixture("LEDGER");
    let client = registered_client(plane.handle(ControlRequest::RegisterClient {
        version: PROTOCOL_VERSION,
        request_id: 1,
    }));
    assert!(matches!(
        plane
            .handle(ControlRequest::AcquireLease {
                version: PROTOCOL_VERSION,
                request_id: 2,
                client_id: client,
                pane_id: pane,
            })
            .body,
        ControlResponseBody::Success { .. }
    ));
    let dirty = plane.handle(ControlRequest::WritePane {
        version: PROTOCOL_VERSION,
        request_id: 3,
        client_id: client,
        pane_id: pane,
        data: "half-typed".into(),
    });
    assert!(matches!(
        dirty.body,
        ControlResponseBody::Success {
            response: ControlResponseData::WriteQueued { .. }
        }
    ));
    assert!(matches!(
        plane
            .handle(ControlRequest::DisconnectClient {
                version: PROTOCOL_VERSION,
                request_id: 4,
                client_id: client,
            })
            .body,
        ControlResponseBody::Success { .. }
    ));
    let ledger = plane.snapshot().unwrap().sessions[0].windows[0].panes[0]
        .ledger
        .clone();
    assert!(
        ledger.dirty_input,
        "disconnect must not clear an unsubmitted line"
    );
    assert!(ledger.last_controller_write_at_ms.is_some());
    assert!(!ledger.last_write_ended_with_cr);
}

#[test]
fn inject_mail_after_controller_disconnects_mid_line() {
    let (mut plane, pane) = live_inject_fixture(u32::MAX);
    let typist = registered_client(plane.handle(ControlRequest::RegisterClient {
        version: PROTOCOL_VERSION,
        request_id: 1,
    }));
    let ringer = registered_client(plane.handle(ControlRequest::RegisterClient {
        version: PROTOCOL_VERSION,
        request_id: 2,
    }));
    assert!(matches!(
        plane
            .handle(ControlRequest::AcquireLease {
                version: PROTOCOL_VERSION,
                request_id: 3,
                client_id: typist,
                pane_id: pane,
            })
            .body,
        ControlResponseBody::Success { .. }
    ));
    let dirty = plane.handle(ControlRequest::WritePane {
        version: PROTOCOL_VERSION,
        request_id: 4,
        client_id: typist,
        pane_id: pane,
        data: "half-typed".into(),
    });
    assert!(matches!(
        dirty.body,
        ControlResponseBody::Success {
            response: ControlResponseData::WriteQueued { .. }
        }
    ));
    assert!(matches!(
        plane
            .handle(ControlRequest::DisconnectClient {
                version: PROTOCOL_VERSION,
                request_id: 5,
                client_id: typist,
            })
            .body,
        ControlResponseBody::Success { .. }
    ));
    arm_mail(&mut plane, ringer, pane, 6);
    quiet_unattended(&mut plane, pane);
    let (outcome, nbytes) = mail_inject(inject_mail(&mut plane, ringer, pane, 7));
    assert_eq!(outcome, MailInjectOutcome::DeferredDirty);
    assert_eq!(nbytes, 0);
}

#[test]
fn inject_mail_defers_while_partial_line_is_open_after_lease_release() {
    let (mut plane, pane) = live_inject_fixture(u32::MAX);
    let typist = registered_client(plane.handle(ControlRequest::RegisterClient {
        version: PROTOCOL_VERSION,
        request_id: 1,
    }));
    let ringer = registered_client(plane.handle(ControlRequest::RegisterClient {
        version: PROTOCOL_VERSION,
        request_id: 2,
    }));
    assert!(matches!(
        plane
            .handle(ControlRequest::AcquireLease {
                version: PROTOCOL_VERSION,
                request_id: 3,
                client_id: typist,
                pane_id: pane,
            })
            .body,
        ControlResponseBody::Success { .. }
    ));
    let _ = plane.handle(ControlRequest::WritePane {
        version: PROTOCOL_VERSION,
        request_id: 4,
        client_id: typist,
        pane_id: pane,
        data: "hel".into(),
    });
    assert!(matches!(
        plane
            .handle(ControlRequest::ReleaseLease {
                version: PROTOCOL_VERSION,
                request_id: 5,
                client_id: typist,
                pane_id: pane,
            })
            .body,
        ControlResponseBody::Success { .. }
    ));
    arm_mail(&mut plane, ringer, pane, 6);
    quiet_unattended(&mut plane, pane);
    let (outcome, nbytes) = mail_inject(inject_mail(&mut plane, ringer, pane, 7));
    assert_eq!(outcome, MailInjectOutcome::DeferredDirty);
    assert_eq!(nbytes, 0);
}

#[test]
fn inject_mail_after_cr_waits_for_input_idle() {
    let (mut plane, pane) = live_inject_fixture(u32::MAX);
    let typist = registered_client(plane.handle(ControlRequest::RegisterClient {
        version: PROTOCOL_VERSION,
        request_id: 1,
    }));
    assert!(matches!(
        plane
            .handle(ControlRequest::AcquireLease {
                version: PROTOCOL_VERSION,
                request_id: 2,
                client_id: typist,
                pane_id: pane,
            })
            .body,
        ControlResponseBody::Success { .. }
    ));
    let _ = plane.handle(ControlRequest::WritePane {
        version: PROTOCOL_VERSION,
        request_id: 3,
        client_id: typist,
        pane_id: pane,
        data: "hello\r".into(),
    });
    assert!(matches!(
        plane
            .handle(ControlRequest::ReleaseLease {
                version: PROTOCOL_VERSION,
                request_id: 4,
                client_id: typist,
                pane_id: pane,
            })
            .body,
        ControlResponseBody::Success { .. }
    ));
    arm_mail(&mut plane, typist, pane, 5);
    quiet_unattended(&mut plane, pane);
    let (outcome, nbytes) = mail_inject(inject_mail(&mut plane, typist, pane, 6));
    assert_eq!(outcome, MailInjectOutcome::DeferredTyping);
    assert_eq!(nbytes, 0);
    plane.stamp_last_input_at_ms(
        pane,
        plane.now.saturating_sub(MAIL_INJECT_INPUT_IDLE_MS + 50),
    );
    let (outcome, nbytes) = mail_inject(inject_mail(&mut plane, typist, pane, 7));
    assert_eq!(outcome, MailInjectOutcome::Wrote);
    assert_eq!(nbytes, MAIL_INJECT_PAYLOAD.len());
}

#[test]
fn inject_mail_never_fires_while_typing_continues() {
    let (mut plane, pane) =
        live_inject_fixture(0);
    let typist = registered_client(plane.handle(ControlRequest::RegisterClient {
        version: PROTOCOL_VERSION,
        request_id: 1,
    }));
    assert!(matches!(
        plane
            .handle(ControlRequest::AcquireLease {
                version: PROTOCOL_VERSION,
                request_id: 2,
                client_id: typist,
                pane_id: pane,
            })
            .body,
        ControlResponseBody::Success { .. }
    ));
    arm_mail(&mut plane, typist, pane, 3);
    for (i, chunk) in ["h", "e", "l"].iter().enumerate() {
        let _ = plane.handle(ControlRequest::WritePane {
            version: PROTOCOL_VERSION,
            request_id: 10 + i as u64,
            client_id: typist,
            pane_id: pane,
            data: (*chunk).into(),
        });
        quiet_unattended(&mut plane, pane);
        let (outcome, nbytes) =
            mail_inject(inject_mail(&mut plane, typist, pane, 20 + i as u64));
        assert_eq!(outcome, MailInjectOutcome::DeferredDirty);
        assert_eq!(nbytes, 0);
    }
}

#[test]
fn inject_mail_spinner_only_after_input_idle_is_wrote() {
    let (mut plane, pane) = live_inject_fixture(u32::MAX);
    let client = registered_client(plane.handle(ControlRequest::RegisterClient {
        version: PROTOCOL_VERSION,
        request_id: 1,
    }));
    arm_mail(&mut plane, client, pane, 2);
    quiet_unattended(&mut plane, pane);
    plane.stamp_last_input_at_ms(
        pane,
        plane.now.saturating_sub(MAIL_INJECT_INPUT_IDLE_MS + 5_000),
    );
    for _ in 0..90 {
        plane.record_output_bytes(pane, 32);
    }
    let (outcome, nbytes) = mail_inject(inject_mail(&mut plane, client, pane, 3));
    assert_eq!(outcome, MailInjectOutcome::Wrote);
    assert_eq!(nbytes, MAIL_INJECT_PAYLOAD.len());
}

#[test]
fn dirty_input_clears_after_idle_with_no_write_and_no_output() {
    let (mut plane, _, pane) = live_fixture("LEDGER");
    plane.stamp_write_ledger(
        pane,
        plane.now.saturating_sub(MAIL_INJECT_DIRTY_IDLE_MS + 50),
        false,
    );
    plane.stamp_last_output_at_ms(
        pane,
        plane.now.saturating_sub(MAIL_INJECT_DIRTY_IDLE_MS + 50),
    );
    let ledger = plane.snapshot().unwrap().sessions[0].windows[0].panes[0]
        .ledger
        .clone();
    assert!(!ledger.dirty_input);
    assert!(!ledger.last_write_ended_with_cr);
}

#[test]
fn mail_attention_set_injects_pmux_token() {
    // PMUX_MAIL is 9 bytes; the fixture child consumes exactly
    // that many before printing WOKE.
    let (mut plane, pane) = live_inject_fixture(u32::MAX);
    let client = registered_client(plane.handle(ControlRequest::RegisterClient {
        version: PROTOCOL_VERSION,
        request_id: 1,
    }));
    let set = plane.handle(ControlRequest::MailAttentionSet {
        version: PROTOCOL_VERSION,
        request_id: 2,
        client_id: client,
        pane_id: pane,
        cell: MAIL_ATTENTION_CELL.into(),
        gen: 1,
        queue_rev: 1,
        depth: 1,
        wake: Some(MailWake::Armed),
        bound_pid: None,
    });
    assert!(
        matches!(set.body, ControlResponseBody::Success { .. }),
        "set failed: {:?}",
        set.body
    );
    quiet_unattended(&mut plane, pane);
    let (outcome, nbytes) = mail_inject(inject_mail(&mut plane, client, pane, 3));
    assert_eq!(outcome, MailInjectOutcome::Wrote);
    assert_eq!(nbytes, PMUX_MAIL_NOTIFICATION.len() + 1);
    assert!(plane.input(pane).contains(PMUX_MAIL_NOTIFICATION));
}

#[test]
fn subscribe_pane_catch_up_includes_status_and_marks_done() {
    let (mut plane, _, pane) = live_fixture("sub");
    let client = register_live_client(&mut plane);
    let _ = plane.handle(ControlRequest::SetPaneStatus {
        version: PROTOCOL_VERSION,
        request_id: 2,
        pane_id: pane,
        text: Some("busy".into()),
    });
    let feed = plane.feed(pane, 0);
    let (through, frame) = plane
        .plane
        .subscribe_frame(client, pane, 0, true, false, feed)
        .expect("catch-up");
    let ControlResponseData::PaneSubscribe {
        gap,
        events,
        done,
        through_seq,
        ..
    } = frame
    else {
        panic!("expected PaneSubscribe: {frame:?}");
    };
    assert!(!gap);
    assert!(done);
    assert_eq!(through_seq, through);
    assert!(events.iter().any(|frame| {
        matches!(
            &frame.event,
            PaneEvent::Status { text } if text.as_deref() == Some("busy")
        )
    }));
}

#[test]
fn subscribe_pane_socket_rejects_zero_request_id_and_wrong_version() {
    let (plane, _, pane) = live_fixture("subbad");
    let mut server = serve(plane);
    let mut stream = server.connect();
    let client = registered_client(server.request(&mut stream, ControlRequest::RegisterClient {
            version: PROTOCOL_VERSION,
            request_id: 1,
        },
    ));
    let zero = server.request(&mut stream, ControlRequest::SubscribePane {
            version: PROTOCOL_VERSION,
            request_id: 0,
            client_id: client,
            pane_id: pane,
            from_seq: 0,
            timeout_ms: 0,
        },
    );
    assert_eq!(error_code(&zero), ControlErrorCode::InvalidRequest);
    let wrong = server.request(&mut stream, ControlRequest::SubscribePane {
            version: PROTOCOL_VERSION + 1,
            request_id: 2,
            client_id: client,
            pane_id: pane,
            from_seq: 0,
            timeout_ms: 0,
        },
    );
    assert_eq!(error_code(&wrong), ControlErrorCode::IncompatibleVersion);
    let reuse = server.request(&mut stream, ControlRequest::SubscribePane {
            version: PROTOCOL_VERSION,
            request_id: 2,
            client_id: client,
            pane_id: pane,
            from_seq: 0,
            timeout_ms: 0,
        },
    );
    assert_eq!(error_code(&reuse), ControlErrorCode::StaleRequestId);
    let next = server.request(&mut stream, ControlRequest::SubscribePane {
            version: PROTOCOL_VERSION,
            request_id: 3,
            client_id: client,
            pane_id: pane,
            from_seq: 0,
            timeout_ms: 0,
        },
    );
    assert!(matches!(next.body, ControlResponseBody::Success { .. }));
}

#[test]
fn subscribe_pane_socket_gap_snapshot_is_terminal() {
    let (mut plane, _, pane) = live_fixture("subgap");
    let client = register_live_client(&mut plane);
    for i in 0..12 {
        let set = plane.handle(ControlRequest::SetPaneStatus {
            version: PROTOCOL_VERSION,
            request_id: 10 + i,
            pane_id: pane,
            text: Some(format!("status-{i}-xxxxxxxx")),
        });
        assert!(matches!(set.body, ControlResponseBody::Success { .. }));
    }
    plane.log_start.insert(pane, 11);
    let mut server = serve(plane);
    let mut stream = server.connect();
    let socket_client = registered_client(server.request(&mut stream, ControlRequest::RegisterClient {
            version: PROTOCOL_VERSION,
            request_id: 1,
        },
    ));
    let response = server.request(&mut stream, ControlRequest::SubscribePane {
            version: PROTOCOL_VERSION,
            request_id: 2,
            client_id: socket_client,
            pane_id: pane,
            from_seq: 0,
            timeout_ms: 0,
        },
    );
    match response.body {
        ControlResponseBody::Success {
            response:
                ControlResponseData::PaneSubscribe {
                    gap,
                    done,
                    snapshot,
                    events,
                    ..
                },
        } => {
            assert!(gap, "from_seq 0 after wrap must be a gap");
            assert!(done);
            assert!(snapshot.is_some());
            assert!(events.is_empty());
        }
        other => panic!("expected gap PaneSubscribe, got {other:?}"),
    }
    let _ = client;
}

#[test]
fn create_session_rearms_mail_queued_while_session_gone() {
    let (mut plane, _) = live_inject_fixture(u32::MAX);
    let sender = mail_hello(&mut plane, 1, "operator-b");
    let created = plane.handle(ControlRequest::CreateSession {
        version: PROTOCOL_VERSION,
        request_id: 2,
        name: "seat".into(),
        spawn: SpawnSpec {
            program: "/bin/sh".into(),
            argv: vec!["-c".into(), "exec sleep 999".into()],
            cwd: Some(b"/tmp".to_vec()),
            env: Vec::new(),
        },
        cols: None,
        rows: None,
        agent_id: Some("operator-a".into()),
        headless: false,
    });
    let (session, _, gone_pane) = session_ids(&created);
    let destroyed = plane.handle(ControlRequest::DestroySession {
        version: PROTOCOL_VERSION,
        request_id: 3,
        session_id: session,
    });
    assert!(matches!(destroyed.body, ControlResponseBody::Success { .. }));

    let sent = plane.handle(ControlRequest::MailSend {
        version: PROTOCOL_VERSION,
        request_id: 4,
        client_id: sender,
        to: "operator-a".into(),
        summary: "queued while gone".into(),
        body: "rearm after recreate".into(),
    });
    assert!(matches!(
        sent.body,
        ControlResponseBody::Success {
            response: ControlResponseData::MailSent { depth: 1, .. }
        }
    ));
    assert!(
        !plane.mail_attention(gone_pane).is_some(),
        "destroyed pane must not keep attention"
    );

    let recreated = plane.handle(ControlRequest::CreateSession {
        version: PROTOCOL_VERSION,
        request_id: 5,
        name: "seat".into(),
        spawn: SpawnSpec {
            program: "/bin/sh".into(),
            argv: vec![
                "-c".into(),
                "printf 'READY\\n'; dd bs=1 count=10 of=/dev/null 2>/dev/null; printf 'WOKE\\n'; exec sleep 999".into(),
            ],
            cwd: Some(b"/tmp".to_vec()),
            env: Vec::new(),
        },
        cols: None,
        rows: None,
        agent_id: Some("operator-a".into()),
        headless: false,
    });
    let (_, _, pane) = session_ids(&recreated);
    quiet_unattended(&mut plane, pane);
    plane.retry_mail_nudges();

    let attention = plane.mail_attention(pane)
        .expect("recreate must re-arm attention for queued mail");
    assert_eq!(attention.cell, MAIL_ATTENTION_CELL);
    assert_eq!(attention.depth, 1);
    assert!(
        plane.mail_inject_writes(pane) >= 1,
        "recreate must inject PMUX_MAIL for mail queued while gone"
    );

    assert!(plane.input(pane).contains(PMUX_MAIL_NOTIFICATION));
}

#[test]
fn new_live_rejects_relative_mux_socket() {
    let (domain, window, pane) = bootstrap("rel");
    let err = match ControlPlane::new_live(
        domain,
        &fits(window, pane, 80, 24),
        Some(32),
        vec![(pane, spawn())],
        &Some(b"relative.sock".to_vec()),
    ) {
        Err(error) => error,
        Ok(_) => panic!("relative socket must be rejected"),
    };
    assert_eq!(err.code, ControlErrorCode::InvalidRequest);
    assert_eq!(err.message, "mux socket must be an absolute path");
}

#[test]
fn doorbell_injects_pmux_token_into_live_pane() {
    let (mut plane, pane) = live_inject_fixture(u32::MAX);
    let session = plane.snapshot().unwrap().sessions[0].id;
    plane.plane.domain.set_agent_id(session, &Some("operator-a".into()));
    let cursor = mail_hello(&mut plane, 1, "operator-b");
    quiet_unattended(&mut plane, pane);

    let sent = plane.handle(ControlRequest::MailSend {
        version: PROTOCOL_VERSION,
        request_id: 2,
        client_id: cursor,
        to: "operator-a".into(),
        summary: "ring".into(),
        body: String::new(),
    });
    assert!(matches!(sent.body, ControlResponseBody::Success { .. }));
    let attention = plane.mail_attention(pane)
        .expect("doorbell must arm attention");
    assert_eq!(attention.cell, MAIL_ATTENTION_CELL);
    assert_eq!(
        plane.mail_inject_writes(pane),
        1,
        "in-process doorbell must inject without any external caller"
    );

    assert_eq!(plane.input(pane), MAIL_INJECT_PAYLOAD);
}

#[test]
fn protocol_errors_are_structured() {
    let (plane, _, _) = fixture(8);
    let mut server = serve(plane);
    let mut stream = server.connect();
    let incompatible = server.request(&mut stream, ControlRequest::Ping {
            version: 99,
            request_id: 1,
        },
    );
    assert_eq!(
        error_code(&incompatible),
        ControlErrorCode::IncompatibleVersion
    );
    let stale = server.request(&mut stream, ControlRequest::Ping {
            version: PROTOCOL_VERSION,
            request_id: 1,
        },
    );
    assert_eq!(error_code(&stale), ControlErrorCode::StaleRequestId);

    let mut zero_stream = server.connect();
    let zero = server.request(&mut zero_stream, ControlRequest::Events {
            version: PROTOCOL_VERSION,
            request_id: 0,
            after_sequence: 0,
            limit: None,
        },
    );
    assert_eq!(error_code(&zero), ControlErrorCode::InvalidRequest);
}

#[test]
fn pane_write_guards_identity_space_lease_dirty_busy_and_backpressure() {
    let (mut plane, _, pane) = live_fixture("PANE-WRITE-GUARDS");
    let client = registered_client(plane.handle(ControlRequest::RegisterClient {
        version: PROTOCOL_VERSION,
        request_id: 1,
    }));
    let other = registered_client(plane.handle(ControlRequest::RegisterClient {
        version: PROTOCOL_VERSION,
        request_id: 2,
    }));
    let pid = plane.children[&pane].pid;
    let attempt = |plane: &mut Mux, client_id: u64, expected_child_pid: u32| {
        let response = plane.handle(ControlRequest::PaneWrite {
            version: PROTOCOL_VERSION,
            request_id: 3,
            client_id,
            pane_id: pane,
            expected_child_pid,
            data: "hello".into(),
            submit: PaneWriteSubmit::Enter,
        });
        error_code(&response)
    };
    assert_eq!(attempt(&mut plane, u64::MAX, pid), ControlErrorCode::StaleId);
    assert_eq!(attempt(&mut plane, client, 0), ControlErrorCode::StaleId);
    assert_eq!(attempt(&mut plane, client, pid + 1), ControlErrorCode::StaleId);
    let mut seat = plane.plane.clients.remove(client).unwrap();
    seat.space = Some("elsewhere".into());
    let _ = plane.plane.clients.insert(client, seat);
    assert_eq!(attempt(&mut plane, client, pid), ControlErrorCode::InputRouteUnavailable);
    let mut seat = plane.plane.clients.remove(client).unwrap();
    seat.space = None;
    let _ = plane.plane.clients.insert(client, seat);
    plane.plane.domain.acquire_controller(pane, other).unwrap();
    assert_eq!(attempt(&mut plane, client, pid), ControlErrorCode::NotController);
    plane.plane.domain.release_controller(pane, other).unwrap();
    plane.plane.domain.acquire_controller(pane, client).unwrap();
    let now = plane.now;
    plane.stamp_write_ledger(pane, now, false);
    assert_eq!(attempt(&mut plane, client, pid), ControlErrorCode::InputDirty);
    plane.edit_pane(pane, |state| state.written = None);
    plane.stamp_last_input_at_ms(pane, now);
    assert_eq!(attempt(&mut plane, client, pid), ControlErrorCode::InputBusy);
    plane.edit_pane(pane, |state| state.input_at = None);
    plane.edit_pane(pane, |state| state.output = vec![(now, MAIL_INJECT_BUSY_BYTES)]);
    assert_eq!(attempt(&mut plane, client, pid), ControlErrorCode::InputBusy);
    plane.edit_pane(pane, |state| state.output.clear());
    plane.children.get_mut(&pane).unwrap().refuses = true;
    assert_eq!(attempt(&mut plane, client, pid), ControlErrorCode::Backpressure);
    assert!(
        plane.pane_state(pane).unwrap().written.is_none(),
        "a rejected write must not dirty input"
    );
}

#[test]
fn a_write_is_complete_only_when_every_chunk_was_queued() {
    let (mut plane, _, pane) = live_fixture("PANE-WRITE-COMPLETE");
    let client = registered_client(plane.handle(ControlRequest::RegisterClient {
        version: PROTOCOL_VERSION,
        request_id: 1,
    }));
    let pid = plane.children[&pane].pid;
    let now = plane.now;
    for (accepted, failed, expected) in [
        (1, None, (false, 17)),
        (2, None, (true, 18)),
        (1, Some(LiveWriteError::Backpressure), (false, 17)),
    ] {
        plane.edit_pane(pane, |state| {
            state.written = None;
            state.input_at = None;
        });
        let step = plane.plane.intentional_pane_write(
            client,
            pane,
            pid,
            "hello",
            PaneWriteSubmit::Auto,
            Some(pid),
            Some(InjectAgent::Claude),
            &vec![],
            Some(ChunkReport { accepted, failed }),
            now,
        );
        let Step::Reply(Ok(ControlResponseData::PaneWriteResult {
            complete, nbytes, total_bytes, error, ..
        })) = step
        else {
            panic!("expected a result")
        };
        assert_eq!(((complete, nbytes), total_bytes), (expected, 18));
        assert_eq!(error.is_some(), failed.is_some());
        let receipt = plane.pane_state(pane).unwrap().receipt.unwrap();
        assert_eq!((receipt.complete, receipt.nbytes), expected);
    }
}

fn ask(plane: &mut Mux, request: ControlRequest) -> ControlResponse {
    plane.handle(request)
}

fn lease(request_id: u64, client_id: u64, pane_id: u64) -> ControlRequest {
    ControlRequest::AcquireLease { version: PROTOCOL_VERSION, request_id, client_id, pane_id }
}

fn unlease(request_id: u64, client_id: u64, pane_id: u64) -> ControlRequest {
    ControlRequest::ReleaseLease { version: PROTOCOL_VERSION, request_id, client_id, pane_id }
}

fn typed(request_id: u64, client_id: u64, pane_id: u64, data: &str) -> ControlRequest {
    ControlRequest::WritePane {
        version: PROTOCOL_VERSION,
        request_id,
        client_id,
        pane_id,
        data: data.into(),
    }
}

fn register(request_id: u64) -> ControlRequest {
    ControlRequest::RegisterClient { version: PROTOCOL_VERSION, request_id }
}

fn snap(request_id: u64) -> ControlRequest {
    ControlRequest::Snapshot { version: PROTOCOL_VERSION, request_id }
}

fn is_ok(response: &ControlResponse) -> bool {
    matches!(response.body, ControlResponseBody::Success { .. })
}

fn other_pane(response: ControlResponse, pane: u64) -> u64 {
    match response.body {
        ControlResponseBody::Success { response: ControlResponseData::Snapshot { snapshot } } => {
            let panes = &snapshot.sessions[0].windows[0].panes;
            panes.iter().find(|candidate| candidate.id != pane).unwrap().id
        }
        other => panic!("expected snapshot, got {other:?}"),
    }
}

/// The place after a catch-up, and the output bytes in it.
fn caught_up(plane: &Mux, client: u64, pane: u64, from: u64) -> (u64, Vec<u8>) {
    let feed = plane.feed(pane, from);
    match plane.plane.subscribe_frame(client, pane, from, true, false, feed) {
        Ok((through, ControlResponseData::PaneSubscribe { events, .. })) => {
            let mut bytes = Vec::new();
            for frame in &events {
                if let PaneEvent::Output { bytes: more } = &frame.event {
                    bytes.extend_from_slice(more);
                }
            }
            (through, bytes)
        }
        other => panic!("expected PaneSubscribe: {other:?}"),
    }
}

#[test]
fn subscribe_pane_from_seq_receives_exactly_later_output_bytes() {
    let (mut plane, _, pane) = live_fixture("subout");
    let client = register_live_client(&mut plane);
    plane.run_children();
    assert!(is_ok(&ask(&mut plane, lease(20, client, pane))));
    let (through, before) = caught_up(&plane, client, pane, 0);
    assert_eq!(before, b"subout\n");
    let wrote = ask(&mut plane, typed(21, client, pane, "pt116-marker\n"));
    assert!(matches!(
        wrote.body,
        ControlResponseBody::Success { response: ControlResponseData::WriteQueued { .. } }
    ));
    plane.run_children();
    let (_, after_all) = caught_up(&plane, client, pane, 0);
    let (_, later) = caught_up(&plane, client, pane, through);
    assert!(after_all.starts_with(&before));
    assert_eq!(later, after_all[before.len()..]);
    let marker = b"ECHO:pt116-marker";
    assert!(later.windows(marker.len()).any(|w| w == marker), "{later:?}");
}

#[test]
fn subscribe_pane_reconnect_from_seq_receives_output_exactly_once() {
    let (mut plane, _, pane) = live_fixture("subre");
    let client = register_live_client(&mut plane);
    plane.run_children();
    assert!(is_ok(&ask(&mut plane, lease(20, client, pane))));
    let (through, _) = caught_up(&plane, client, pane, 0);
    assert!(is_ok(&ask(&mut plane, typed(21, client, pane, "pt113-once\n"))));
    plane.run_children();
    let (_, once) = caught_up(&plane, client, pane, through);
    let marker = b"ECHO:pt113-once";
    assert_eq!(once.windows(marker.len()).filter(|w| *w == marker).count(), 1);
    let (_, again) = caught_up(&plane, client, pane, through);
    assert_eq!(again, once);
}

#[test]
fn subscribe_pane_waits_for_status_then_idles_done() {
    let (mut plane, _, pane) = live_fixture("subw");
    let client = register_live_client(&mut plane);
    let (through, _) = caught_up(&plane, client, pane, 0);
    let mut server = serve(plane);
    let mut stream = Subscription::new(9, client, pane, through, 2_000);
    assert_eq!(stream.wait(false, 0), StreamWait::Slice(50));
    assert!(matches!(server.follow(&mut stream), StreamStep::Quiet));
    let set = server.mux.handle(ControlRequest::SetPaneStatus {
        version: PROTOCOL_VERSION,
        request_id: 10,
        pane_id: pane,
        text: Some("go".into()),
    });
    assert!(is_ok(&set));
    let StreamStep::Send(first) = server.follow(&mut stream) else {
        panic!("expected a frame")
    };
    let ControlResponseBody::Success {
        response: ControlResponseData::PaneSubscribe { events, done, .. },
    } = first.body
    else {
        panic!("first frame: {first:?}");
    };
    assert!(!done);
    assert!(events.iter().any(|frame| {
        matches!(&frame.event, PaneEvent::Status { text } if text.as_deref() == Some("go"))
    }));
    assert!(matches!(server.follow(&mut stream), StreamStep::Quiet));
    assert_eq!(stream.wait(false, 2_000), StreamWait::TimedOut);
    assert!(matches!(
        stream.timed_out().body,
        ControlResponseBody::Success {
            response: ControlResponseData::PaneSubscribe { done: true, .. }
        }
    ));
}

#[test]
fn subscribe_pane_stop_cancels_wait() {
    let (mut plane, _, pane) = live_fixture("substop");
    let client = register_live_client(&mut plane);
    let (through, _) = caught_up(&plane, client, pane, 0);
    let stream = Subscription::new(9, client, pane, through, 30_000);
    assert_eq!(stream.wait(false, 50), StreamWait::Slice(50));
    assert_eq!(stream.wait(true, 50), StreamWait::Drop);
}

fn subscribe(request_id: u64, client_id: u64, pane_id: u64, timeout_ms: u32) -> ControlRequest {
    ControlRequest::SubscribePane {
        version: PROTOCOL_VERSION,
        request_id,
        client_id,
        pane_id,
        from_seq: 0,
        timeout_ms,
    }
}

#[test]
fn subscribe_pane_socket_disconnect_releases_lease() {
    let (mut plane, _, pane) = live_fixture("subdisc");
    plane.run_children();
    let mut server = serve(plane);
    let mut holder = server.connect();
    let holder_id = registered_client(server.request(&mut holder, register(1)));
    assert!(is_ok(&server.request(&mut holder, lease(2, holder_id, pane))));
    let mut other = server.connect();
    let other_id = registered_client(server.request(&mut other, register(1)));
    assert!(is_ok(&server.request(&mut holder, subscribe(3, holder_id, pane, 30_000))));
    let refused = server.request(&mut other, lease(2, other_id, pane));
    assert_eq!(error_code(&refused), ControlErrorCode::LeaseHeld);
    server.hang_up(holder);
    assert!(is_ok(&server.request(&mut other, lease(3, other_id, pane))));
}

#[test]
fn subscribe_pane_socket_pane_close_sends_done() {
    let (mut plane, window, pane) = live_fixture("subclose");
    plane.run_children();
    let mut server = serve(plane);
    let mut control = server.connect();
    let _controller = registered_client(server.request(&mut control, register(1)));
    let _ = server.request(&mut control, snap(2));
    let split = server.request(
        &mut control,
        ControlRequest::Split {
            version: PROTOCOL_VERSION,
            request_id: 3,
            window_id: window,
            target_pane_id: pane,
            axis: AxisWire::Horizontal,
            ratio_bits: ratio(0.5),
            spawn: live_shell_spawn("subclose2"),
            client_id: None,
        },
    );
    assert!(is_ok(&split));
    let new_pane = other_pane(server.request(&mut control, snap(4)), pane);
    server.mux.run_children();

    let mut waiter = server.connect();
    let waiter_id = registered_client(server.request(&mut waiter, register(1)));
    let request = subscribe(2, waiter_id, new_pane, 5_000);
    assert!(matches!(waiter.route(&request, false), Route::Subscribe));
    let (mut stream, first) = server.stream(&request);
    assert!(matches!(
        first.body,
        ControlResponseBody::Success {
            response: ControlResponseData::PaneSubscribe { done: false, .. }
        }
    ));

    let closed = server.request(
        &mut control,
        ControlRequest::Close {
            version: PROTOCOL_VERSION,
            request_id: 5,
            window_id: window,
            pane_id: new_pane,
            prior_focus_id: pane,
            client_id: None,
        },
    );
    assert!(is_ok(&closed));
    let StreamStep::Last(last) = server.follow(&mut stream) else {
        panic!("the stream must end with its pane")
    };
    match last.body {
        ControlResponseBody::Success {
            response: ControlResponseData::PaneSubscribe { done, events, .. },
        } => {
            assert!(done);
            assert!(events.is_empty());
        }
        other => panic!("expected done PaneSubscribe, got {other:?}"),
    }
}

#[test]
fn mail_wait_wakes_on_send_and_times_out_clean() {
    let (mut plane, _, _) = fixture(8);
    let peer = mail_hello(&mut plane, 1, "operator-a");
    let cursor = mail_hello(&mut plane, 2, "operator-b");
    let Err(Step::Wait(Ask::Resolve { name })) = plane.plane.mail_wait_prepare(peer, &None) else {
        panic!("the agent must be resolved first")
    };
    let agent = plane.plane.mail_wait_prepare(peer, &Some(Ok(name))).unwrap();
    assert_eq!(agent, "operator-a");
    let counted = Ok(plane.store.depth(&agent));
    assert!(!mail_arrived(&counted));
    assert!(matches!(
        mail_wait_response(3, counted).body,
        ControlResponseBody::Success {
            response: ControlResponseData::MailDepth { open: 0, held: 0 }
        }
    ));
    let sent = plane.handle(ControlRequest::MailSend {
        version: PROTOCOL_VERSION,
        request_id: 5,
        client_id: cursor,
        to: "operator-a".into(),
        summary: "wake".into(),
        body: String::new(),
    });
    assert!(is_ok(&sent));
    let counted = Ok(plane.store.depth(&agent));
    assert!(mail_arrived(&counted));
    assert!(matches!(
        mail_wait_response(4, counted).body,
        ControlResponseBody::Success {
            response: ControlResponseData::MailDepth { open: 1, held: 0 }
        }
    ));
}

#[test]
fn phase2b_shutdown_server_is_accepted_then_server_exits_cleanly() {
    let (plane, _, _) = fixture(8);
    let mut server = serve(plane);
    let mut stream = server.connect();
    let client = registered_client(server.request(&mut stream, register(1)));
    assert!(!server.after.shut_down);
    let accepted = server.request(
        &mut stream,
        ControlRequest::ShutdownServer {
            version: PROTOCOL_VERSION,
            request_id: 2,
            client_id: client,
        },
    );
    assert!(matches!(
        accepted.body,
        ControlResponseBody::Success { response: ControlResponseData::ShutdownAccepted }
    ));
    assert!(server.after.shut_down);
}

#[test]
fn oversized_frame_is_rejected_without_unbounded_read() {
    let mut frame = Vec::new();
    let piece = ReadEvent::Available(vec![b'x'; MAX_REQUEST_BYTES + 1]);
    assert_eq!(read_frame(&mut frame, &piece), FrameStep::TooLarge);
    assert!(frame.is_empty());
    assert_eq!(error_code(&frame_too_large_response()), ControlErrorCode::FrameTooLarge);
}

#[test]
fn phase2b_idle_attach_survives_bounded_read_timeouts() {
    let (plane, _, pane) = live_fixture("IDLE");
    let mut server = serve(plane);
    let mut stream = server.connect();
    let client = registered_client(server.request(&mut stream, register(1)));
    let mut frame = Vec::new();
    let quiet = ReadEvent::Failed(IoFault::TimedOut);
    assert_eq!(read_frame(&mut frame, &quiet), FrameStep::Failed(IoFault::TimedOut));
    assert!(IoFault::TimedOut.keeps_client());
    assert!(!IoFault::Other.keeps_client());
    assert!(is_ok(&server.request(&mut stream, lease(2, client, pane))));
}

#[test]
fn phase2a_bind_replaces_stale_same_uid_socket_leftover() {
    let left = SocketProbe::Refused {
        fault: ConnectFault::ConnectionRefused,
        os_error: Some(111),
    };
    assert_eq!(probe_socket_liveness(left), SocketLiveness::Stale);
    assert_eq!(prepare_socket_path(SocketLiveness::Stale), SocketPlan::Replace);
    let (plane, _, _) = fixture(8);
    let mut server = serve(plane);
    let mut stream = server.connect();
    let ping = ControlRequest::Ping { version: PROTOCOL_VERSION, request_id: 1 };
    let pong = server.request(&mut stream, ping);
    assert!(matches!(
        pong.body,
        ControlResponseBody::Success { response: ControlResponseData::Pong }
    ));
    let served = SocketProbe::Connected { answers: true };
    assert_eq!(probe_socket_liveness(served), SocketLiveness::Live);
}

#[test]
fn connectable_socket_without_control_peer_is_stale() {
    let silent = SocketProbe::Connected { answers: false };
    assert_eq!(probe_socket_liveness(silent), SocketLiveness::Stale);
}

#[test]
fn probe_classifies_missing_and_foreign_paths() {
    assert_eq!(probe_socket_liveness(SocketProbe::Absent), SocketLiveness::Missing);
    assert_eq!(probe_socket_liveness(SocketProbe::NotOwned), SocketLiveness::Foreign);
}

#[test]
fn bind_refuses_live_socket_and_preserves_non_socket_path() {
    assert_eq!(prepare_socket_path(SocketLiveness::Live), SocketPlan::InUse);
    assert_eq!(
        SocketPlan::InUse.message().as_deref(),
        Some("control socket is already accepting connections")
    );
    assert_eq!(prepare_socket_path(SocketLiveness::Foreign), SocketPlan::Denied);
    assert_eq!(
        SocketPlan::Denied.message().as_deref(),
        Some("refusing to replace a non-socket or foreign-owned path")
    );
}

fn read(request_id: u64, client_id: u64, pane_id: u64) -> ControlRequest {
    ControlRequest::ReadPane { version: PROTOCOL_VERSION, request_id, client_id, pane_id }
}

fn content(response: ControlResponse) -> PaneContent {
    match response.body {
        ControlResponseBody::Success { response: ControlResponseData::PaneContent { content } } => {
            content
        }
        other => panic!("expected pane content, got {other:?}"),
    }
}

#[test]
fn phase2b_live_server_topology_mutations_keep_runtime_in_lockstep() {
    let (plane, window, pane) = live_fixture("FIRST");
    let mut server = serve(plane);
    let mut stream = server.connect();
    let client = registered_client(server.request(&mut stream, register(1)));
    let _ = server.request(&mut stream, snap(2));
    let _ = server.request(&mut stream, lease(3, client, pane));
    let split = server.request(
        &mut stream,
        ControlRequest::Split {
            version: PROTOCOL_VERSION,
            request_id: 4,
            window_id: window,
            target_pane_id: pane,
            axis: AxisWire::Horizontal,
            ratio_bits: ratio(0.5),
            spawn: live_shell_spawn("SECOND"),
            client_id: Some(client),
        },
    );
    assert!(is_ok(&split));
    let new_pane = other_pane(server.request(&mut stream, snap(5)), pane);
    let shown = content(server.request(&mut stream, read(6, client, new_pane)));
    assert_eq!((shown.cols, shown.rows), (40, 24));

    let resize = server.request(
        &mut stream,
        ControlRequest::Resize {
            version: PROTOCOL_VERSION,
            request_id: 7,
            window_id: window,
            cols: 100,
            rows: 30,
            cell_width_px: None,
            cell_height_px: None,
            fit: false,
            host: false,
            client_id: None,
        },
    );
    assert!(is_ok(&resize));
    let resized = content(server.request(&mut stream, read(8, client, new_pane)));
    assert_eq!((resized.cols, resized.rows), (50, 30));

    let close = server.request(
        &mut stream,
        ControlRequest::Close {
            version: PROTOCOL_VERSION,
            request_id: 9,
            window_id: window,
            pane_id: new_pane,
            prior_focus_id: pane,
            client_id: None,
        },
    );
    assert!(is_ok(&close));
    let stale = server.request(&mut stream, read(10, client, new_pane));
    assert_eq!(error_code(&stale), ControlErrorCode::StaleId);
}

/// The one activity event of a pane: sequence, revision, whether its child lives.
fn output_activity(server: &mut Server, conn: &mut ClientConnState, request_id: u64, pane: u64) -> (u64, u64, bool) {
    let response = server.request(
        conn,
        ControlRequest::Events {
            version: PROTOCOL_VERSION,
            request_id,
            after_sequence: 0,
            limit: None,
        },
    );
    let ControlResponseBody::Success { response: ControlResponseData::Events { batch } } = response.body
    else {
        panic!("expected events")
    };
    let hits: Vec<(u64, u64, bool)> = batch
        .events
        .iter()
        .filter_map(|envelope| match envelope.event {
            Event::OutputActivity { pane_id, revision, child_alive } if pane_id == pane => {
                Some((envelope.sequence, revision, child_alive))
            }
            _ => None,
        })
        .collect();
    assert_eq!(hits.len(), 1, "activity must coalesce per pane: {hits:?}");
    hits[0]
}

#[test]
fn phase2b_output_activity_is_emitted_and_coalesced() {
    let (plane, window, pane) = live_fixture("ACT");
    let mut server = serve(plane);
    let mut stream = server.connect();
    let client = registered_client(server.request(&mut stream, register(1)));
    assert!(is_ok(&server.request(&mut stream, snap(2))));
    assert!(is_ok(&server.request(&mut stream, lease(3, client, pane))));
    assert!(is_ok(&server.request(&mut stream, typed(4, client, pane, "one\n"))));
    server.mux.run_children();
    let (seq1, rev1, alive1) = output_activity(&mut server, &mut stream, 5, pane);
    assert!(alive1);
    assert!(rev1 > 0);

    assert!(is_ok(&server.request(&mut stream, typed(6, client, pane, "two\n"))));
    server.mux.run_children();
    let (seq2, rev2, _) = output_activity(&mut server, &mut stream, 7, pane);
    assert_eq!(seq2, seq1, "second burst must update the same ring entry");
    assert!(rev2 >= rev1);

    let split = server.request(
        &mut stream,
        ControlRequest::Split {
            version: PROTOCOL_VERSION,
            request_id: 8,
            window_id: window,
            target_pane_id: pane,
            axis: AxisWire::Horizontal,
            ratio_bits: ratio(0.5),
            spawn: live_shell_spawn("SECOND"),
            client_id: Some(client),
        },
    );
    assert!(is_ok(&split));
    let new_pane = other_pane(server.request(&mut stream, snap(9)), pane);
    server.mux.run_children();
    let (seq_new, _, alive_new) = output_activity(&mut server, &mut stream, 10, new_pane);
    assert!(alive_new);
    assert!(seq_new > seq1);
}

fn look(plane: &mut Mux, request_id: u64, client_id: u64, pane_id: u64) -> PaneStyled {
    styled_content(plane.handle(ControlRequest::ReadPaneStyled {
        version: PROTOCOL_VERSION,
        request_id,
        client_id,
        pane_id,
        view_offset: None,
    }))
}

fn focus(request_id: u64, client_id: u64, pane_id: u64) -> ControlRequest {
    ControlRequest::RichFocusToggle {
        version: PROTOCOL_VERSION,
        request_id,
        client_id,
        pane_id,
        revoke: false,
    }
}

#[test]
fn rich_focus_toggle_flag_off_is_noop_ok() {
    let (mut plane, _, pane) = live_fixture("READY");
    let client = registered_client(ask(&mut plane, register(1)));
    assert!(is_ok(&ask(&mut plane, lease(2, client, pane))));
    match ask(&mut plane, focus(3, client, pane)).body {
        ControlResponseBody::Success {
            response: ControlResponseData::RichFocus { granted: false, region_id: None, .. },
        } => {}
        other => panic!("flag-off toggle must be no-op Ok, got {other:?}"),
    }
    let styled = look(&mut plane, 4, client, pane);
    assert!(!styled.experimental_rich);
    assert!(styled.rich_focus_id.is_none());
}

#[test]
fn rich_input_focus_is_viewer_local_and_controller_loss_revokes() {
    let (mut plane, _, pane) = live_fixture("READY");
    plane.rich.insert(pane, None);
    let holder = registered_client(ask(&mut plane, register(1)));
    let observer = registered_client(ask(&mut plane, register(2)));
    let _ = ask(&mut plane, lease(3, holder, pane));
    match ask(&mut plane, focus(4, holder, pane)).body {
        ControlResponseBody::Success {
            response:
                ControlResponseData::RichFocus {
                    granted: true, region_id: Some(1), structured: true, ..
                },
        } => {}
        other => panic!("expected structured focus grant, got {other:?}"),
    }
    let holder_view = look(&mut plane, 5, holder, pane);
    let observer_view = look(&mut plane, 6, observer, pane);
    assert!(holder_view.structured_focus);
    assert_eq!(holder_view.rich_focus_id, Some(1));
    assert!(!observer_view.structured_focus);
    assert!(observer_view.rich_focus_id.is_none());
    let routed = ask(
        &mut plane,
        ControlRequest::RichInput {
            version: PROTOCOL_VERSION,
            request_id: 7,
            client_id: holder,
            pane_id: pane,
            input: RichInputKind::Key { key: "Enter".into(), modifiers: 0 },
        },
    );
    assert!(matches!(
        routed.body,
        ControlResponseBody::Success {
            response: ControlResponseData::RichInput { delivered: true, .. }
        }
    ));
    let _ = ask(&mut plane, unlease(8, holder, pane));
    let revoked = look(&mut plane, 9, holder, pane);
    assert!(!revoked.structured_focus);
    assert!(revoked.rich_focus_id.is_none());
}

fn ack_copy(plane: &mut Mux, request_id: u64, client_id: u64, pane_id: u64, seq: Option<u64>) -> (Option<String>, Option<u64>) {
    let response = plane.handle(ControlRequest::CopySemantic {
        version: PROTOCOL_VERSION,
        request_id,
        client_id,
        pane_id,
        seq,
    });
    match response.body {
        ControlResponseBody::Success {
            response: ControlResponseData::SemanticCopy { text, seq, .. },
        } => (text, seq),
        other => panic!("expected SemanticCopy, got {other:?}"),
    }
}

#[test]
fn observer_styled_read_does_not_steal_controller_clipboard() {
    let (mut plane, _, pane) = live_fixture("READY");
    let holder = registered_client(ask(&mut plane, register(1)));
    let observer = registered_client(ask(&mut plane, register(2)));
    let successor = registered_client(ask(&mut plane, register(3)));
    let _ = ask(&mut plane, lease(4, holder, pane));
    let _ = ask(&mut plane, typed(5, holder, pane, "y"));
    let _ = ask(&mut plane, unlease(6, holder, pane));
    let _ = ask(&mut plane, lease(7, successor, pane));
    let _ = ask(&mut plane, typed(8, successor, pane, "x"));
    plane.feed_copy(pane);
    let successor_view = look(&mut plane, 9, successor, pane);
    assert!(successor_view.semantic_clipboard.is_none());
    let _ = ask(&mut plane, unlease(10, successor, pane));
    let _ = ask(&mut plane, lease(11, holder, pane));
    let first = look(&mut plane, 12, holder, pane);
    let _ = ask(&mut plane, typed(13, holder, pane, "x"));
    let retry = look(&mut plane, 14, holder, pane);
    assert_eq!(first.semantic_clipboard.as_deref(), Some("crates/foo.rs:10:1"));
    assert_eq!(first.semantic_clipboard_seq, Some(1));
    assert_eq!(retry.semantic_clipboard.as_deref(), Some("crates/foo.rs:10:1"));
    assert_eq!(retry.semantic_clipboard_seq, first.semantic_clipboard_seq);
    let _ = ask(&mut plane, typed(15, holder, pane, "y"));
    plane.feed_copy(pane);
    let (text, acked) = ack_copy(&mut plane, 16, holder, pane, first.semantic_clipboard_seq);
    assert_eq!(text.as_deref(), Some("crates/foo.rs:10:1"));
    assert_eq!(acked, first.semantic_clipboard_seq);
    let second = look(&mut plane, 17, holder, pane);
    assert_eq!(second.semantic_clipboard.as_deref(), Some("crates/foo.rs:10:1"));
    assert_eq!(second.semantic_clipboard_seq, Some(2));
    let observer_view = look(&mut plane, 18, observer, pane);
    assert!(observer_view.semantic_clipboard.is_none());
}

#[test]
fn semantic_copy_reconnect_cannot_replay_old_client() {
    let (mut plane, _, pane) = live_fixture("READY");
    let holder = registered_client(ask(&mut plane, register(1)));
    let _ = ask(&mut plane, lease(2, holder, pane));
    let _ = ask(&mut plane, typed(3, holder, pane, "y"));
    plane.feed_copy(pane);
    let _ = ask(&mut plane, unlease(4, holder, pane));
    let reconnect = registered_client(ask(&mut plane, register(5)));
    let _ = ask(&mut plane, lease(6, reconnect, pane));
    let reconnect_view = look(&mut plane, 7, reconnect, pane);
    assert!(reconnect_view.semantic_clipboard.is_none());
    let holder_view = look(&mut plane, 8, holder, pane);
    assert_eq!(holder_view.semantic_clipboard.as_deref(), Some("crates/foo.rs:10:1"));
}

#[test]
fn batched_y_writes_keep_each_copy_request() {
    let (mut plane, _, pane) = live_fixture("READY");
    let holder = registered_client(ask(&mut plane, register(1)));
    let _ = ask(&mut plane, lease(2, holder, pane));
    let _ = ask(&mut plane, typed(3, holder, pane, "yy"));
    plane.feed_copy(pane);
    plane.feed_copy(pane);
    let first = look(&mut plane, 4, holder, pane);
    assert_eq!(first.semantic_clipboard_seq, Some(1));
    assert_eq!(first.semantic_clipboard.as_deref(), Some("crates/foo.rs:10:1"));
    let (text, acked) = ack_copy(&mut plane, 5, holder, pane, first.semantic_clipboard_seq);
    assert_eq!(text.as_deref(), Some("crates/foo.rs:10:1"));
    assert_eq!(acked, Some(1));
    let second = look(&mut plane, 6, holder, pane);
    assert_eq!(second.semantic_clipboard_seq, Some(2));
    let _ = ask(&mut plane, typed(7, holder, pane, "xy"));
    plane.feed_copy(pane);
    plane.feed_copy(pane);
    let mixed = look(&mut plane, 8, holder, pane);
    assert_eq!(mixed.semantic_clipboard_seq, Some(2));
    let _ = ack_copy(&mut plane, 9, holder, pane, mixed.semantic_clipboard_seq);
    let leftover = look(&mut plane, 10, holder, pane);
    assert_eq!(leftover.semantic_clipboard_seq, Some(3));
    let _ = ack_copy(&mut plane, 11, holder, pane, leftover.semantic_clipboard_seq);
    let empty = look(&mut plane, 12, holder, pane);
    assert!(empty.semantic_clipboard_seq.is_none());
}

fn failure(response: &ControlResponse) -> &ControlError {
    match &response.body {
        ControlResponseBody::Failure { error } => error,
        other => panic!("expected an error, got {other:?}"),
    }
}

fn new_session(request_id: u64, name: &str, agent: Option<&str>) -> ControlRequest {
    ControlRequest::CreateSession {
        version: PROTOCOL_VERSION,
        request_id,
        name: name.into(),
        spawn: live_shell_spawn(name),
        cols: None,
        rows: None,
        agent_id: agent.map(str::to_string),
        headless: false,
    }
}

fn new_window(request_id: u64, session_id: u64, cols: Option<u32>) -> ControlRequest {
    ControlRequest::CreateWindow {
        version: PROTOCOL_VERSION,
        request_id,
        session_id,
        title: "more".into(),
        spawn: live_shell_spawn("more"),
        cols,
        rows: None,
    }
}

#[test]
fn failed_creations_use_up_their_numbers_and_nothing_else() {
    let (mut plane, window, pane) = live_fixture("IDS");
    let before = plane.snapshot().unwrap();
    let session = before.sessions[0].id;
    plane.no_children = true;
    assert_eq!(
        failure(&plane.handle(new_session(1, "lost", Some("lost")))).message,
        "live pane runtime failed: no such program"
    );
    assert_eq!(error_code(&plane.handle(new_window(2, session, None))), ControlErrorCode::Internal);
    let split = plane.handle(ControlRequest::Split {
        version: PROTOCOL_VERSION,
        request_id: 3,
        window_id: window,
        target_pane_id: pane,
        axis: AxisWire::Horizontal,
        ratio_bits: ratio(0.5),
        spawn: live_shell_spawn("lost"),
        client_id: None,
    });
    assert_eq!(error_code(&split), ControlErrorCode::Internal);
    let narrow = plane.handle(new_window(4, session, Some(0)));
    assert_eq!(error_code(&narrow), ControlErrorCode::TooSmall);
    assert_eq!(plane.snapshot().unwrap(), before);
    plane.no_children = false;
    let (next_session, next_window, next_pane) = session_ids(&plane.handle(new_session(5, "kept", None)));
    assert_eq!(next_session, session + 2);
    assert_eq!(next_window, window + 4);
    assert_eq!(next_pane, pane + 5);
}

#[test]
fn a_session_stays_when_its_first_window_cannot_be_opened() {
    let (mut plane, _, _) = live_fixture("FIRST");
    let created = plane.handle(ControlRequest::CreateSession {
        version: PROTOCOL_VERSION,
        request_id: 1,
        name: "bare".into(),
        spawn: spawn(),
        cols: None,
        rows: None,
        agent_id: None,
        headless: true,
    });
    let (bare, _, _) = session_ids(&created);
    plane.no_children = true;
    let before = plane.snapshot().unwrap();
    assert!(!is_ok(&plane.handle(new_window(2, bare, None))));
    assert_eq!(plane.snapshot().unwrap(), before);
    plane.no_children = false;
    assert!(is_ok(&plane.handle(new_window(3, bare, None))));
}

#[test]
fn the_last_pane_is_refused_without_asking_the_host() {
    let (mut plane, window, pane) = fixture(8);
    let before = plane.snapshot().unwrap();
    let step = plane.plane.close(window, pane, pane, None, &None, &None);
    let Step::Reply(Err(error)) = step else { panic!("expected a refusal") };
    assert_eq!(error.code, ControlErrorCode::LastPane);
    assert_eq!(plane.snapshot().unwrap(), before);
}

#[test]
fn names_in_use_are_quoted_in_the_refusal() {
    let (mut plane, _, _) = fixture(8);
    assert!(is_ok(&plane.handle(new_session(1, "two \"words\"", None))));
    let again = plane.handle(new_session(2, "two \"words\"", None));
    assert_eq!(failure(&again).message, "session name \"two \\\"words\\\"\" already exists");
}

#[test]
fn every_client_gets_a_viewer_identity_of_its_own() {
    let (mut plane, _, _) = fixture(8);
    let first = registered_client(plane.handle(register(1)));
    let second = registered_client(plane.handle(register(2)));
    let viewer = |client: u64| plane.plane.clients.get(client).unwrap().viewer;
    assert_ne!(viewer(first).bytes, viewer(second).bytes);
    assert_ne!(viewer(first).bytes, [0u8; 16]);
}

#[test]
fn an_exhausted_sequence_refuses_what_would_be_told() {
    let (mut plane, window, pane) = fixture(8);
    let client = registered_client(plane.handle(register(1)));
    plane.plane.ring.sequence = u64::MAX;
    assert_eq!(error_code(&plane.handle(lease(2, client, pane))), ControlErrorCode::SequenceExhausted);
    assert_eq!(
        error_code(&plane.handle(new_session(3, "late", None))),
        ControlErrorCode::SequenceExhausted
    );
    let closed = plane.handle(ControlRequest::DestroyWindow {
        version: PROTOCOL_VERSION,
        request_id: 4,
        window_id: window,
    });
    assert_eq!(error_code(&closed), ControlErrorCode::SequenceExhausted);
}

#[test]
fn planes_start_from_sound_parts_only() {
    let start = |fits: Vec<WindowFit>, capacity: Option<usize>| {
        ControlPlane::new(bootstrap("start").0, &fits, capacity).map(|_| ()).unwrap_err()
    };
    let (_, window, pane) = bootstrap("start");
    let good = || fits(window, pane, 80, 24).pop().unwrap();
    assert_eq!(start(vec![good()], Some(0)).message, "event capacity must be in 1..=4096");
    assert_eq!(start(vec![good()], Some(4097)).code, ControlErrorCode::InvalidRequest);
    assert_eq!(start(vec![], None).message, format!("unknown or stale window geometry id {window}"));
    assert_eq!(
        start(vec![good(), good()], None).message,
        format!("duplicate bounds for window {window}")
    );
    let stray = WindowFit { bounds: WindowBounds { window_id: 9, cols: 80, rows: 24 }, fit: Ok(vec![]) };
    assert_eq!(start(vec![good(), stray], None).code, ControlErrorCode::StaleId);
    let small = WindowFit {
        bounds: WindowBounds { window_id: window, cols: 1, rows: 1 },
        fit: Err(GeometryError::TooSmall),
    };
    assert_eq!(start(vec![small], None).code, ControlErrorCode::TooSmall);

    let live = |spawns: Vec<(u64, SpawnSpec)>, socket: Option<Vec<u8>>| {
        ControlPlane::new_live(bootstrap("start").0, &vec![good()], None, spawns, &socket)
            .map(|_| ())
            .unwrap_err()
            .message
    };
    let child = || (pane, spawn());
    assert_eq!(live(vec![], None), "every live pane requires one spawn spec");
    assert_eq!(live(vec![child(), child()], None), format!("duplicate spawn spec for pane {pane}"));
    assert_eq!(live(vec![child()], Some(b"mux.sock".to_vec())), "mux socket must be an absolute path");
    assert_eq!(live(vec![child()], Some(b"/tmp/\xff".to_vec())), "mux socket must be UTF-8");
}

fn owned(request_id: u64, ids: Vec<u64>, from: Option<&str>, to: Option<&str>) -> ControlRequest {
    ControlRequest::TransferSpaceSessions {
        version: PROTOCOL_VERSION,
        request_id,
        session_ids: ids,
        from: from.map(str::to_string),
        to: to.map(str::to_string),
    }
}

#[test]
fn spaces_own_sessions_and_panes_move_between_them() {
    let (mut plane, window, pane) = live_fixture("SPACES");
    let home = plane.snapshot().unwrap().sessions[0].id;
    let (away, away_window, away_pane) = session_ids(&plane.handle(new_session(1, "away", None)));
    let (red, blue) = ("a".repeat(32), "b".repeat(32));
    assert!(is_ok(&plane.handle(owned(2, vec![home], None, Some(&red)))));
    assert!(is_ok(&plane.handle(owned(3, vec![away], None, Some(&blue)))));
    let stale = plane.handle(owned(4, vec![home], None, Some(&blue)));
    assert_eq!(error_code(&stale), ControlErrorCode::InvalidRequest);

    let client = registered_client(plane.handle(register(5)));
    let enter = |request_id: u64, space: &str| ControlRequest::SetClientSpace {
        version: PROTOCOL_VERSION,
        request_id,
        client_id: client,
        space_id: space.into(),
    };
    assert!(!is_ok(&plane.handle(enter(6, "short"))));
    assert!(is_ok(&plane.handle(enter(7, &red))));
    assert!(!is_ok(&plane.handle(enter(8, &blue))));
    assert!(is_ok(&plane.handle(lease(9, client, pane))));
    let foreign = plane.handle(lease(10, client, away_pane));
    assert_eq!(error_code(&foreign), ControlErrorCode::InputRouteUnavailable);

    let carry = |request_id: u64, from: &str, to: &str| ControlRequest::TransferSpacePane {
        version: PROTOCOL_VERSION,
        request_id,
        pane_id: pane,
        to_session_id: away,
        from_space: from.into(),
        to_space: to.into(),
    };
    assert_eq!(
        failure(&plane.handle(carry(11, &blue, &red))).message,
        "pane transfer Space owner changed"
    );
    let pid = plane.children[&pane].pid;
    assert!(is_ok(&plane.handle(carry(12, &red, &blue))));
    let snapshot = plane.snapshot().unwrap();
    assert_eq!(snapshot.sessions.len(), 1, "a session without windows is gone");
    let moved = &snapshot.sessions[0].windows[0];
    assert_eq!((moved.id, moved.panes.len()), (away_window, 2));
    let shown = moved.panes.iter().find(|shown| shown.id == pane).unwrap();
    assert_eq!(shown.controller_id, None, "the lease does not move along");
    assert_eq!(shown.child_pid, Some(pid));
    assert!(plane.plane.frames.get(window).is_none());
}

#[test]
fn naming_a_session_carries_its_mail_along() {
    let (mut plane, _, _) = fixture(16);
    let sender = mail_hello(&mut plane, 1, "operator-b");
    let (session, _, _) = session_ids(&plane.handle(new_session(2, "work", Some("operator-a"))));
    let sent = plane.handle(ControlRequest::MailSend {
        version: PROTOCOL_VERSION,
        request_id: 3,
        client_id: sender,
        to: "operator-a".into(),
        summary: "hello".into(),
        body: String::new(),
    });
    assert!(is_ok(&sent));
    let rename = |request_id: u64, name: &str| ControlRequest::NameSession {
        version: PROTOCOL_VERSION,
        request_id,
        session_id: session,
        name: name.into(),
    };
    assert!(is_ok(&plane.handle(rename(4, " desk "))));
    assert_eq!(plane.store.depth("desk"), (1, 0));
    let named = plane.snapshot().unwrap().sessions.pop().unwrap();
    assert_eq!((named.name.as_str(), named.agent_id.as_deref()), ("desk", Some("desk")));
    assert_eq!(error_code(&plane.handle(rename(5, "two words"))), ControlErrorCode::InvalidRequest);
    let names = plane.handle(ControlRequest::SessionNames { version: PROTOCOL_VERSION, request_id: 6 });
    match names.body {
        ControlResponseBody::Success { response: ControlResponseData::SessionNames { names } } => {
            assert_eq!(names, ["desk", "operator-a", "operator-b", "test"]);
        }
        other => panic!("expected names, got {other:?}"),
    }
}

#[test]
fn arrangements_keep_the_panes_of_a_window() {
    let (mut plane, window, pane) = live_fixture("GRID");
    let split = plane.handle(ControlRequest::Split {
        version: PROTOCOL_VERSION,
        request_id: 1,
        window_id: window,
        target_pane_id: pane,
        axis: AxisWire::Vertical,
        ratio_bits: ratio(0.5),
        spawn: live_shell_spawn("second"),
        client_id: None,
    });
    assert!(is_ok(&split));
    let arranged = plane.handle(ControlRequest::ApplyArrangement {
        version: PROTOCOL_VERSION,
        request_id: 2,
        window_id: window,
        kind: ArrangementWire::EvenH,
        focused_pane_id: None,
    });
    assert_eq!(mutation_sequence(&arranged), 2);
    let panes = plane.snapshot().unwrap().sessions.pop().unwrap().windows.pop().unwrap().panes;
    let places: Vec<(u32, u32)> = panes.iter().map(|p| (p.geometry.cols, p.geometry.rows)).collect();
    assert_eq!(places, [(40, 24), (40, 24)]);
    assert_eq!((plane.children[&pane].cols, plane.children[&pane].rows), (40, 24));
}

#[test]
fn a_bound_process_is_found_in_its_pane() {
    let (plane, _, pane) = live_fixture("TREE");
    let trees = vec![
        PaneTree { pane: pane + 7, related: true },
        PaneTree { pane, related: true },
    ];
    assert_eq!(plane.plane.pane_for_bound_pid(44, &trees), Some(pane));
    assert_eq!(plane.plane.pane_for_bound_pid(0, &trees), None);
    let (headless, _, pane) = fixture(8);
    assert_eq!(headless.plane.pane_for_bound_pid(44, &vec![PaneTree { pane, related: true }]), None);
}
