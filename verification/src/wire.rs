//! Values that requests, replies and events carry.
use vstd::prelude::*;
use vstd::string::*;
use vstd::utf8::*;

use crate::error::{ControlError, ControlErrorCode, plain_error};
use crate::text::{byte_len, same_text, text_contains, trim};

use crate::model::seq_views;

verus! {

/// First public control-plane protocol version.
pub const PROTOCOL_VERSION: u16 = 1;

/// Upper bound on structured spawn data and on one raw pane write.
pub const MAX_SPAWN_BYTES: usize = 65536;

/// Upper bound on the number of spawn arguments and of environment entries.
pub const MAX_SPAWN_ITEMS: usize = 4096;

/// Upper bound on one spawn argument, environment key or environment value.
pub const MAX_SPAWN_ITEM_BYTES: usize = 65536;

/// Exact inject text. A letter's body is never written.
pub const PMUX_MAIL_NOTIFICATION: &'static str = "PMUX_MAIL";

/// Default submit: text plus CR.
pub const MAIL_INJECT_PAYLOAD: &'static str = "PMUX_MAIL\r";

/// Sticky attention label for mux-native mail.
pub const MAIL_ATTENTION_CELL: &'static str = "mail";

/// Wire-safe split orientation.
#[derive(Debug, Clone, Copy, PartialEq, Eq, Structural)]
pub enum AxisWire {
    Horizontal,
    Vertical,
}

/// Wire-safe named arrangement.
#[derive(Debug, Clone, Copy, PartialEq, Eq, Structural)]
pub enum ArrangementWire {
    MainVertical,
    MainHorizontal,
    EvenH,
    EvenV,
    Grid,
}

impl ArrangementWire {
    /// Every arrangement, each once.
    pub const ALL: [ArrangementWire; 5] = [
        ArrangementWire::EvenH,
        ArrangementWire::EvenV,
        ArrangementWire::Grid,
        ArrangementWire::MainVertical,
        ArrangementWire::MainHorizontal,
    ];

    /// Wire name of an arrangement.
    pub open spec fn spec_name(self) -> Seq<char> {
        match self {
            ArrangementWire::MainVertical => "main-vertical"@,
            ArrangementWire::MainHorizontal => "main-horizontal"@,
            ArrangementWire::EvenH => "even-h"@,
            ArrangementWire::EvenV => "even-v"@,
            ArrangementWire::Grid => "grid"@,
        }
    }

    pub fn parse_name(name: &str) -> (r: Option<Self>)
        ensures
            match r {
                Some(kind) => name@ == kind.spec_name(),
                None => forall|kind: ArrangementWire| name@ != #[trigger] kind.spec_name(),
            },
    {
        if same_text(name, "main-vertical") {
            Some(ArrangementWire::MainVertical)
        } else if same_text(name, "main-horizontal") {
            Some(ArrangementWire::MainHorizontal)
        } else if same_text(name, "even-h") {
            Some(ArrangementWire::EvenH)
        } else if same_text(name, "even-v") {
            Some(ArrangementWire::EvenV)
        } else if same_text(name, "grid") {
            Some(ArrangementWire::Grid)
        } else {
            None
        }
    }

    pub fn as_str(self) -> (s: &'static str)
        ensures
            s@ == self.spec_name(),
    {
        match self {
            ArrangementWire::MainVertical => "main-vertical",
            ArrangementWire::MainHorizontal => "main-horizontal",
            ArrangementWire::EvenH => "even-h",
            ArrangementWire::EvenV => "even-v",
            ArrangementWire::Grid => "grid",
        }
    }
}

/// No two arrangements share a wire name, so parsing a name gives back exactly
/// the arrangement that was named.
pub proof fn arrangement_names_are_distinct(a: ArrangementWire, b: ArrangementWire)
    ensures
        a.spec_name() == b.spec_name() ==> a == b,
{
    reveal_strlit("main-vertical");
    reveal_strlit("main-horizontal");
    reveal_strlit("even-h");
    reveal_strlit("even-v");
    reveal_strlit("grid");
    assert("main-vertical"@.len() == 13);
    assert("main-horizontal"@.len() == 15);
    assert("even-h"@.len() == 6 && "even-h"@[5] == 'h');
    assert("even-v"@.len() == 6 && "even-v"@[5] == 'v');
    assert("grid"@.len() == 4);
}

/// `ALL` lists every arrangement, and none twice.
pub proof fn every_arrangement_is_listed_once(kind: ArrangementWire)
    ensures
        exists|i: int| 0 <= i < 5 && #[trigger] ArrangementWire::ALL@[i] == kind,
        forall|i: int, j: int|
            0 <= i < j < 5 ==> #[trigger] ArrangementWire::ALL@[i]
                != #[trigger] ArrangementWire::ALL@[j],
{
    let all = ArrangementWire::ALL@;
    match kind {
        ArrangementWire::EvenH => assert(all[0] == kind),
        ArrangementWire::EvenV => assert(all[1] == kind),
        ArrangementWire::Grid => assert(all[2] == kind),
        ArrangementWire::MainVertical => assert(all[3] == kind),
        ArrangementWire::MainHorizontal => assert(all[4] == kind),
    }
}

/// Structured child launch metadata. There is intentionally no shell-command field.
///
/// `cwd` holds the path's bytes. `env` holds each variable once, by ascending key.
#[derive(Debug, PartialEq, Eq)]
pub struct SpawnSpec {
    pub program: String,
    pub argv: Vec<String>,
    pub cwd: Option<Vec<u8>>,
    pub env: Vec<(String, String)>,
}

/// What a `SpawnSpec` says.
pub struct SpawnView {
    pub program: Seq<char>,
    pub argv: Seq<Seq<char>>,
    pub cwd: Option<Seq<u8>>,
    pub env: Seq<(Seq<char>, Seq<char>)>,
}

pub open spec fn texts(v: Seq<String>) -> Seq<Seq<char>> {
    v.map_values(|s: String| s@)
}

pub open spec fn text_pairs(v: Seq<(String, String)>) -> Seq<(Seq<char>, Seq<char>)> {
    v.map_values(|p: (String, String)| (p.0@, p.1@))
}

impl View for SpawnSpec {
    type V = SpawnView;

    open spec fn view(&self) -> SpawnView {
        SpawnView {
            program: self.program@,
            argv: texts(self.argv@),
            cwd: match self.cwd {
                Some(bytes) => Some(bytes@),
                None => None,
            },
            env: text_pairs(self.env@),
        }
    }
}

/// Copies a list of texts.
pub fn clone_texts(v: &Vec<String>) -> (r: Vec<String>)
    ensures
        r@ == v@,
{
    let mut r: Vec<String> = Vec::new();
    let mut i: usize = 0;
    while i < v.len()
        invariant
            i <= v@.len(),
            r@ == v@.take(i as int),
        decreases v@.len() - i,
    {
        r.push(v[i].clone());
        i = i + 1;
    }
    assert(v@.take(i as int) =~= v@);
    r
}

/// Copies a list of bytes.
pub fn clone_bytes(v: &[u8]) -> (r: Vec<u8>)
    ensures
        r@ == v@,
{
    let mut r: Vec<u8> = Vec::new();
    let mut i: usize = 0;
    while i < v.len()
        invariant
            i <= v@.len(),
            r@ == v@.take(i as int),
        decreases v@.len() - i,
    {
        r.push(v[i]);
        i = i + 1;
    }
    assert(v@.take(i as int) =~= v@);
    r
}

impl Clone for SpawnSpec {
    fn clone(&self) -> (r: Self)
        ensures
            r@ == self@,
    {
        let mut env: Vec<(String, String)> = Vec::new();
        let mut i: usize = 0;
        while i < self.env.len()
            invariant
                i <= self.env@.len(),
                env@ == self.env@.take(i as int),
            decreases self.env@.len() - i,
        {
            env.push((self.env[i].0.clone(), self.env[i].1.clone()));
            i = i + 1;
        }
        assert(self.env@.take(i as int) =~= self.env@);
        let cwd: Option<Vec<u8>> = match &self.cwd {
            Some(bytes) => Some(clone_bytes(bytes.as_slice())),
            None => None,
        };
        SpawnSpec { program: self.program.clone(), argv: clone_texts(&self.argv), cwd, env }
    }
}

pub open spec fn bad_spawn_item(s: Seq<char>) -> bool {
    crate::text::byte_count(s) > MAX_SPAWN_ITEM_BYTES || s.contains('\0')
}

pub open spec fn bad_env_entry(p: (Seq<char>, Seq<char>)) -> bool {
    ||| p.0.len() == 0
    ||| p.0.contains('=')
    ||| bad_spawn_item(p.0)
    ||| bad_spawn_item(p.1)
}

pub open spec fn texts_bytes(v: Seq<Seq<char>>) -> nat
    decreases v.len(),
{
    if v.len() == 0 {
        0
    } else {
        texts_bytes(v.drop_last()) + crate::text::byte_count(v.last())
    }
}

pub open spec fn pairs_bytes(v: Seq<(Seq<char>, Seq<char>)>) -> nat
    decreases v.len(),
{
    if v.len() == 0 {
        0
    } else {
        pairs_bytes(v.drop_last()) + crate::text::byte_count(v.last().0)
            + crate::text::byte_count(v.last().1)
    }
}

impl SpawnView {
    /// Bytes of all structured spawn data together.
    pub open spec fn total_bytes(self) -> nat {
        crate::text::byte_count(self.program) + texts_bytes(self.argv) + pairs_bytes(self.env)
            + (match self.cwd {
            Some(bytes) => bytes.len(),
            None => 0,
        })
    }

    /// The first rule that the launch data breaks.
    pub open spec fn fault(self) -> Option<Seq<char>> {
        if crate::text::trimmed(self.program).len() == 0 || self.program.contains('\0') {
            Some("spawn program must be non-empty and contain no NUL"@)
        } else if self.argv.len() > MAX_SPAWN_ITEMS || exists|i: int|
            0 <= i < self.argv.len() && bad_spawn_item(#[trigger] self.argv[i]) {
            Some("spawn argv exceeds limits or contains NUL"@)
        } else if self.cwd matches Some(bytes) && !(bytes.len() > 0 && bytes[0] == 0x2f) {
            Some("spawn cwd must be absolute"@)
        } else if self.cwd matches Some(bytes) && (!valid_utf8(bytes) || bytes.contains(0)) {
            Some("spawn cwd must be UTF-8 and contain no NUL"@)
        } else if self.env.len() > MAX_SPAWN_ITEMS || exists|i: int|
            0 <= i < self.env.len() && bad_env_entry(#[trigger] self.env[i]) {
            Some("spawn env exceeds limits or contains an invalid key/value"@)
        } else if self.total_bytes() > MAX_SPAWN_BYTES {
            Some("structured spawn data exceeds 65536 bytes"@)
        } else {
            None
        }
    }
}

/// Whether bytes are well-formed UTF-8, as `core::str::from_utf8` decides it.
#[verifier::external_body]
pub(crate) fn is_utf8(bytes: &[u8]) -> (r: bool)
    ensures
        r == valid_utf8(bytes@),
{
    core::str::from_utf8(bytes).is_ok()
}

fn bytes_contain_nul(bytes: &Vec<u8>) -> (r: bool)
    ensures
        r == bytes@.contains(0),
{
    let mut i: usize = 0;
    while i < bytes.len()
        invariant
            i <= bytes@.len(),
            forall|k: int| 0 <= k < i ==> bytes@[k] != 0,
        decreases bytes@.len() - i,
    {
        if bytes[i] == 0 {
            return true;
        }
        i = i + 1;
    }
    false
}

fn bad_item(s: &str) -> (r: bool)
    ensures
        r == bad_spawn_item(s@),
{
    byte_len(s) > MAX_SPAWN_ITEM_BYTES || text_contains(s, '\0')
}

spec fn capped(n: nat) -> nat {
    if n <= usize::MAX {
        n
    } else {
        usize::MAX as nat
    }
}

impl SpawnSpec {
    fn any_bad_arg(&self) -> (r: bool)
        ensures
            r == exists|i: int| 0 <= i < self@.argv.len() && bad_spawn_item(#[trigger] self@.argv[i]),
    {
        let mut i: usize = 0;
        while i < self.argv.len()
            invariant
                i <= self.argv@.len(),
                forall|k: int| 0 <= k < i ==> !bad_spawn_item(#[trigger] self@.argv[k]),
            decreases self.argv@.len() - i,
        {
            if bad_item(self.argv[i].as_str()) {
                assert(bad_spawn_item(self@.argv[i as int]));
                return true;
            }
            i = i + 1;
        }
        false
    }

    fn any_bad_env(&self) -> (r: bool)
        ensures
            r == exists|i: int| 0 <= i < self@.env.len() && bad_env_entry(#[trigger] self@.env[i]),
    {
        let mut i: usize = 0;
        while i < self.env.len()
            invariant
                i <= self.env@.len(),
                forall|k: int| 0 <= k < i ==> !bad_env_entry(#[trigger] self@.env[k]),
            decreases self.env@.len() - i,
        {
            let key: &str = self.env[i].0.as_str();
            let value: &str = self.env[i].1.as_str();
            if byte_len(key) == 0 || text_contains(key, '=') || bad_item(key) || bad_item(value) {
                proof {
                    assert(self@.env[i as int] == (key@, value@));
                    if key@.len() > 0 {
                        lemma_nonempty_bytes(key@);
                    }
                }
                assert(bad_env_entry(self@.env[i as int]));
                return true;
            }
            proof {
                assert(self@.env[i as int] == (key@, value@));
                assert(key@.len() == 0 ==> encode_utf8(key@).len() == 0);
            }
            i = i + 1;
        }
        false
    }

    fn spawn_bytes(&self) -> (n: usize)
        ensures
            n == capped(self@.total_bytes()),
    {
        let mut n: usize = byte_len(self.program.as_str());
        let ghost base: nat = crate::text::byte_count(self.program@);
        let mut i: usize = 0;
        assert(self@.argv.take(0).len() == 0);
        while i < self.argv.len()
            invariant
                i <= self.argv@.len(),
                n == capped(base + texts_bytes(self@.argv.take(i as int))),
            decreases self.argv@.len() - i,
        {
            n = n.saturating_add(byte_len(self.argv[i].as_str()));
            proof {
                let head = self@.argv.take(i + 1);
                assert(head.drop_last() =~= self@.argv.take(i as int));
                assert(head.last() == self.argv@[i as int]@);
            }
            i = i + 1;
        }
        assert(self@.argv.take(i as int) =~= self@.argv);
        let ghost args: nat = base + texts_bytes(self@.argv);
        i = 0;
        assert(self@.env.take(0).len() == 0);
        while i < self.env.len()
            invariant
                i <= self.env@.len(),
                n == capped(args + pairs_bytes(self@.env.take(i as int))),
            decreases self.env@.len() - i,
        {
            n = n.saturating_add(byte_len(self.env[i].0.as_str()));
            n = n.saturating_add(byte_len(self.env[i].1.as_str()));
            proof {
                let head = self@.env.take(i + 1);
                assert(head.drop_last() =~= self@.env.take(i as int));
                assert(head.last() == (self.env@[i as int].0@, self.env@[i as int].1@));
            }
            i = i + 1;
        }
        assert(self@.env.take(i as int) =~= self@.env);
        match &self.cwd {
            Some(bytes) => n.saturating_add(bytes.len()),
            None => n,
        }
    }

    /// Checks the launch data against the wire limits, in a fixed order of rules.
    pub fn validate(&self) -> (r: Result<(), ControlError>)
        ensures
            match self@.fault() {
                Some(message) => r matches Err(e) && e@ == plain_error(
                    ControlErrorCode::InvalidRequest,
                    message,
                ),
                None => r is Ok,
            },
    {
        let program: String = trim(self.program.as_str());
        if program.as_str().is_empty() || text_contains(self.program.as_str(), '\0') {
            return Err(
                ControlError::new(
                    ControlErrorCode::InvalidRequest,
                    "spawn program must be non-empty and contain no NUL",
                ),
            );
        }
        if self.argv.len() > MAX_SPAWN_ITEMS || self.any_bad_arg() {
            return Err(
                ControlError::new(
                    ControlErrorCode::InvalidRequest,
                    "spawn argv exceeds limits or contains NUL",
                ),
            );
        }
        if let Some(bytes) = &self.cwd {
            if !(bytes.len() > 0 && bytes[0] == 0x2f) {
                return Err(
                    ControlError::new(
                        ControlErrorCode::InvalidRequest,
                        "spawn cwd must be absolute",
                    ),
                );
            }
            if !is_utf8(bytes.as_slice()) || bytes_contain_nul(bytes) {
                return Err(
                    ControlError::new(
                        ControlErrorCode::InvalidRequest,
                        "spawn cwd must be UTF-8 and contain no NUL",
                    ),
                );
            }
        }
        if self.env.len() > MAX_SPAWN_ITEMS || self.any_bad_env() {
            return Err(
                ControlError::new(
                    ControlErrorCode::InvalidRequest,
                    "spawn env exceeds limits or contains an invalid key/value",
                ),
            );
        }
        if self.spawn_bytes() > MAX_SPAWN_BYTES {
            return Err(
                ControlError::new(
                    ControlErrorCode::InvalidRequest,
                    "structured spawn data exceeds 65536 bytes",
                ),
            );
        }
        Ok(())
    }
}

/// Authoritative cell bounds for one window.
#[derive(Debug, Clone, Copy, PartialEq, Eq, Structural)]
pub struct WindowBounds {
    pub window_id: u64,
    pub cols: u32,
    pub rows: u32,
}

/// Cell rectangle of one pane inside its window.
#[derive(Debug, Clone, Copy, PartialEq, Eq, Structural)]
pub struct PaneGeometry {
    pub pane_id: u64,
    pub col: u32,
    pub row: u32,
    pub cols: u32,
    pub rows: u32,
}

/// Cell rectangle as the layout engine computes it.
#[derive(Debug, Clone, Copy, PartialEq, Eq, Structural)]
pub struct CellRect {
    pub col: usize,
    pub row: usize,
    pub cols: usize,
    pub rows: usize,
}

/// A reported terminal size plus optional cell pixels.
#[derive(Debug, Clone, Copy, PartialEq, Eq, Structural)]
pub struct Viewport {
    pub cols: u32,
    pub rows: u32,
    pub cell_width_px: Option<u32>,
    pub cell_height_px: Option<u32>,
}

/// Whether a size comes from the desktop host or from a remote terminal.
#[derive(Debug, Clone, Copy, PartialEq, Eq, Structural)]
pub enum ClientRole {
    Host,
    Remote,
}

/// Policy for sizes that remote terminals report.
#[derive(Debug, Clone, Copy, PartialEq, Eq, Structural)]
pub enum RemoteSizePolicy {
    Latest,
    Host,
}

#[derive(Debug, Clone, Copy, PartialEq, Eq, Structural)]
pub enum SizeOwnerKind {
    Host,
    Remote,
}

/// Client that last set a window size.
#[derive(Debug, Clone, Copy, PartialEq, Eq, Structural)]
pub struct SizeOwner {
    pub client_id: u64,
    pub kind: SizeOwnerKind,
}

/// Wake honesty for pane mail. Stored, not computed here.
#[derive(Debug, Clone, Copy, PartialEq, Eq, Structural)]
pub enum MailWake {
    Unarmed,
    Armed,
    DeferredFocused,
    DeferredBusy,
    Rung,
    Stuck,
    Exhausted,
    McpDead,
}

/// Sticky mail attention for one pane. A positive depth lights the indicator.
#[derive(Debug, PartialEq, Eq)]
pub struct MailAttentionState {
    pub pane_id: u64,
    pub cell: String,
    pub gen: u64,
    pub queue_rev: u64,
    pub depth: u32,
    pub wake: Option<MailWake>,
    pub bound_pid: Option<u32>,
}

#[verifier::ext_equal]
pub struct MailAttentionView {
    pub pane_id: u64,
    pub cell: Seq<char>,
    pub gen: u64,
    pub queue_rev: u64,
    pub depth: u32,
    pub wake: Option<MailWake>,
    pub bound_pid: Option<u32>,
}

impl View for MailAttentionState {
    type V = MailAttentionView;

    open spec fn view(&self) -> MailAttentionView {
        MailAttentionView {
            pane_id: self.pane_id,
            cell: self.cell@,
            gen: self.gen,
            queue_rev: self.queue_rev,
            depth: self.depth,
            wake: self.wake,
            bound_pid: self.bound_pid,
        }
    }
}

impl Clone for MailAttentionState {
    fn clone(&self) -> (r: Self)
        ensures
            r == *self,
    {
        MailAttentionState {
            pane_id: self.pane_id,
            cell: self.cell.clone(),
            gen: self.gen,
            queue_rev: self.queue_rev,
            depth: self.depth,
            wake: self.wake,
            bound_pid: self.bound_pid,
        }
    }
}

/// Same-step inject result. A deferral or skip is success, not an error: the
/// caller must not count those as attempts.
#[derive(Debug, Clone, Copy, PartialEq, Eq, Structural)]
pub enum MailInjectOutcome {
    Wrote,
    Stuck,
    DeferredFocused,
    DeferredLease,
    DeferredBusy,
    DeferredDirty,
    DeferredTyping,
    /// The pane's foreground is not a known agent CLI: nothing was written.
    DeferredNoAgent,
    DeferredHide,
    SkippedNoMail,
    SkippedExhausted,
    SkippedStuck,
}

/// Agent CLI in the terminal foreground of a pane.
#[derive(Debug, Clone, Copy, PartialEq, Eq, Structural)]
pub enum InjectAgent {
    Claude,
    Grok,
    Cursor,
    Codex,
    Kiro,
    Unknown,
}

/// Last mail doorbell attempt for operator diagnostics.
#[derive(Debug, Clone, Copy, PartialEq, Eq, Structural)]
pub struct MailInjectDiagnostic {
    pub agent: InjectAgent,
    pub queue_rev: u64,
    pub outcome: MailInjectOutcome,
    pub nbytes: usize,
    pub at_ms: u64,
}

/// Per-pane inject-gate facts. `dirty_input` is derived.
#[derive(Debug, Clone, Copy, PartialEq, Eq, Structural)]
pub struct PaneInputLedger {
    pub last_output_at_ms: Option<u64>,
    pub focused: bool,
    pub controller_id: Option<u64>,
    pub last_controller_write_at_ms: Option<u64>,
    pub last_write_ended_with_cr: bool,
    pub dirty_input: bool,
    /// Last raw pane write. Injects defer while this is recent.
    pub last_input_at_ms: Option<u64>,
}

/// How intentional text is submitted.
#[derive(Debug, Clone, Copy, PartialEq, Eq, Structural)]
pub enum PaneWriteSubmit {
    Auto,
    Enter,
    /// Text only, with no submit bytes.
    NoSubmit,
}

/// Latest intentional input queue receipt, never proof of execution.
#[derive(Debug, Clone, Copy, PartialEq, Eq, Structural)]
pub struct PaneWriteReceipt {
    pub child_pid: u32,
    pub queued_at_ms: u64,
    pub nbytes: usize,
    pub total_bytes: usize,
    pub complete: bool,
    pub submit: PaneWriteSubmit,
}

/// Phase of a structured pointer gesture.
#[derive(Debug, Clone, Copy, PartialEq, Eq, Structural)]
pub enum RichPointerPhase {
    Press,
    Move,
    Release,
}

/// A local viewer's input intent. Viewer identity and application bindings are
/// deliberately absent; the mux owns both.
#[derive(Debug, Clone, PartialEq, Eq)]
pub enum RichInputKind {
    Key { key: String, modifiers: u8 },
    Pointer { phase: RichPointerPhase, row: u16, col: u16 },
    Scroll { row: u16, col: u16, delta: i16 },
}

/// Operator decision on an attention request.
#[derive(Debug, Clone, Copy, PartialEq, Eq, Structural)]
pub enum AttentionAction {
    Resolve,
    Snooze { seconds: u32 },
}

/// An explicit attention request of one pane.
#[derive(Debug, PartialEq, Eq)]
pub struct AttentionRequest {
    pub pane_id: u64,
    pub revision: u64,
    pub message: String,
    pub source: String,
    pub raised_at_ms: u64,
    pub snoozed_until_ms: u64,
}

#[verifier::ext_equal]
pub struct AttentionRequestView {
    pub pane_id: u64,
    pub revision: u64,
    pub message: Seq<char>,
    pub source: Seq<char>,
    pub raised_at_ms: u64,
    pub snoozed_until_ms: u64,
}

impl View for AttentionRequest {
    type V = AttentionRequestView;

    open spec fn view(&self) -> AttentionRequestView {
        AttentionRequestView {
            pane_id: self.pane_id,
            revision: self.revision,
            message: self.message@,
            source: self.source@,
            raised_at_ms: self.raised_at_ms,
            snoozed_until_ms: self.snoozed_until_ms,
        }
    }
}

impl Clone for AttentionRequest {
    fn clone(&self) -> (r: Self)
        ensures
            r == *self,
    {
        AttentionRequest {
            pane_id: self.pane_id,
            revision: self.revision,
            message: self.message.clone(),
            source: self.source.clone(),
            raised_at_ms: self.raised_at_ms,
            snoozed_until_ms: self.snoozed_until_ms,
        }
    }
}

/// Host-minted viewer identity, never accepted from a control client.
#[derive(Debug, Clone, Copy, PartialEq, Eq)]
pub struct ViewerId {
    pub bytes: [u8; 16],
}

/// One stored letter.
#[derive(Debug, PartialEq, Eq)]
pub struct Letter {
    pub id: String,
    pub from: String,
    pub to: String,
    pub summary: String,
    pub body: String,
}

/// One `MailWho` presence entry: a live agent-bound session.
#[derive(Debug, PartialEq, Eq)]
pub struct MailPeer {
    /// The session's bound agent id.
    pub agent_id: String,
    /// Session name.
    pub session: String,
    /// At least one pane in the session has a live child process.
    pub pane_live: bool,
    /// Aliases bound to this agent.
    pub aliases: Vec<String>,
}

#[verifier::ext_equal]
pub struct MailPeerView {
    pub agent_id: Seq<char>,
    pub session: Seq<char>,
    pub pane_live: bool,
    pub aliases: Seq<Seq<char>>,
}

impl View for MailPeer {
    type V = MailPeerView;

    open spec fn view(&self) -> MailPeerView {
        MailPeerView {
            agent_id: self.agent_id@,
            session: self.session@,
            pane_live: self.pane_live,
            aliases: seq_views(self.aliases@),
        }
    }
}

/// Something that a pane log records.
#[derive(Debug, PartialEq, Eq)]
pub enum PaneEvent {
    Output { bytes: Vec<u8> },
    Status { text: Option<String> },
    MailDepth { depth: u32 },
    Note { text: String },
}

/// One numbered pane-log record.
#[derive(Debug, PartialEq, Eq)]
pub struct PaneLogFrame {
    pub seq: u64,
    pub event: PaneEvent,
}

/// A non-empty text takes at least one byte.
pub proof fn lemma_nonempty_bytes(s: Seq<char>)
    requires
        s.len() > 0,
    ensures
        encode_utf8(s).len() > 0,
{
    encode_utf8_first_scalar(s);
}

} // verus!
