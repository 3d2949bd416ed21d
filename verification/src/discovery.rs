//! Where the server's socket is, and whose it is.
//!
//! A path is held as its bytes.
use vstd::prelude::*;
use vstd::string::*;
use vstd::utf8::*;

use crate::event::option_text;
use crate::model::{option_view, seq_views};
use crate::paths::{
    is_path_before, is_same_path, path_before, paths_are_in_order, same_path, SLASH,
};
use crate::text::{
    chars_of, concat2, concat3, decimal, decimal_text, same_text, text_bytes, text_ends_with,
    text_starts_with,
};
use crate::wire::clone_bytes;

verus! {

/// Liveness of a candidate control-socket path.
#[derive(Debug, Clone, Copy, PartialEq, Eq, Structural)]
pub enum SocketLiveness {
    /// Path does not exist.
    Missing,
    /// Same-uid Unix socket with a peer that accepts connections.
    Live,
    /// Same-uid Unix socket leftover (no listener). Safe to replace.
    Stale,
    /// Non-socket, symlink to something else, or foreign uid. Never unlink.
    Foreign,
}

/// How a connection attempt failed, as far as that matters.
#[derive(Debug, Clone, Copy, PartialEq, Eq, Structural)]
pub enum ConnectFault {
    ConnectionRefused,
    NotFound,
    ConnectionReset,
    BrokenPipe,
    UnexpectedEof,
    Other,
}

/// What a look at a path found.
#[derive(Debug, Clone, Copy, PartialEq, Eq, Structural)]
pub enum SocketProbe {
    /// Nothing is there.
    Absent,
    /// Something is there that is no socket of this user.
    NotOwned,
    /// A connection was made; the peer answers the handshake, or does not.
    Connected { answers: bool },
    /// No connection was made. The operating system's number comes along.
    Refused { fault: ConnectFault, os_error: Option<i32> },
}

pub open spec fn stale_connect(fault: ConnectFault, os_error: Option<i32>) -> bool {
    fault != ConnectFault::Other || os_error == Some(111i32) || os_error == Some(2i32) || os_error
        == Some(104i32) || os_error == Some(32i32)
}

/// Whether a failed connection attempt shows that nobody listens.
pub fn is_stale_connect_error(fault: ConnectFault, os_error: Option<i32>) -> (r: bool)
    ensures
        r == stale_connect(fault, os_error),
{
    if fault != ConnectFault::Other {
        return true;
    }
    match os_error {
        Some(n) => n == 111 || n == 2 || n == 104 || n == 32,
        None => false,
    }
}

/// Liveness of a path. A connection alone does not show a live server: the peer
/// has to answer. A failure that cannot be told counts as occupied.
pub fn probe_socket_liveness(probe: SocketProbe) -> (r: SocketLiveness)
    ensures
        r == match probe {
            SocketProbe::Absent => SocketLiveness::Missing,
            SocketProbe::NotOwned => SocketLiveness::Foreign,
            SocketProbe::Connected { answers } => if answers {
                SocketLiveness::Live
            } else {
                SocketLiveness::Stale
            },
            SocketProbe::Refused { fault, os_error } => if stale_connect(fault, os_error) {
                SocketLiveness::Stale
            } else {
                SocketLiveness::Live
            },
        },
{
    match probe {
        SocketProbe::Absent => SocketLiveness::Missing,
        SocketProbe::NotOwned => SocketLiveness::Foreign,
        SocketProbe::Connected { answers } => if answers {
            SocketLiveness::Live
        } else {
            SocketLiveness::Stale
        },
        SocketProbe::Refused { fault, os_error } => if is_stale_connect_error(fault, os_error) {
            SocketLiveness::Stale
        } else {
            SocketLiveness::Live
        },
    }
}

pub open spec fn is_instance_char(c: char) -> bool {
    ||| '0' <= c <= '9'
    ||| 'a' <= c <= 'z'
    ||| 'A' <= c <= 'Z'
    ||| c == '-'
    ||| c == '_'
}

/// An instance name: it cannot leave its directory.
pub open spec fn is_instance(s: Seq<char>) -> bool {
    1 <= s.len() <= 48 && forall|i: int| 0 <= i < s.len() ==> is_instance_char(#[trigger] s[i])
}

/// Refuses a name that is no instance name.
pub fn validate_socket_instance(instance: &str) -> (r: Result<(), String>)
    ensures
        if is_instance(instance@) {
            r is Ok
        } else {
            r matches Err(message) && message@
                == "socket instance must be 1..=48 ASCII letters, digits, '-' or '_'"@
        },
{
    let v: Vec<char> = chars_of(instance);
    let mut good: bool = 1 <= v.len() && v.len() <= 48;
    let mut i: usize = 0;
    while good && i < v.len()
        invariant
            i <= v@.len(),
            v@ == instance@,
            good ==> 1 <= v@.len() <= 48 && forall|k: int|
                0 <= k < i ==> is_instance_char(#[trigger] v@[k]),
            !good ==> !is_instance(v@),
        decreases v@.len() - i,
    {
        let c: char = v[i];
        if !(('0' <= c && c <= '9') || ('a' <= c && c <= 'z') || ('A' <= c && c <= 'Z') || c == '-'
            || c == '_') {
            assert(!is_instance_char(v@[i as int]));
            good = false;
        }
        i = i + 1;
    }
    if good {
        Ok(())
    } else {
        Err(
            String::from_str(
                "socket instance must be 1..=48 ASCII letters, digits, '-' or '_'",
            ),
        )
    }
}

pub open spec fn spec_socket_filename(instance: Seq<char>) -> Seq<char> {
    if instance == "default"@ {
        "pmux.sock"@
    } else {
        "pmux-"@ + instance + ".sock"@
    }
}

pub fn socket_filename(instance: &str) -> (s: String)
    ensures
        s@ == spec_socket_filename(instance@),
{
    if same_text(instance, "default") {
        String::from_str("pmux.sock")
    } else {
        concat3("pmux-", instance, ".sock")
    }
}

/// What the file system says of a directory.
#[derive(Debug, Clone, Copy, PartialEq, Eq, Structural)]
pub struct DirFacts {
    pub is_dir: bool,
    pub uid: u32,
    pub mode: u32,
}

/// A runtime directory counts where it is absolute, a directory of this user, and
/// closed to everyone else.
pub open spec fn runtime_usable(path: Seq<u8>, facts: Option<DirFacts>, uid: u32) -> bool {
    path.len() > 0 && path[0] == SLASH && match facts {
        Some(facts) => facts.is_dir && facts.uid == uid && facts.mode & 0o077 == 0,
        None => false,
    }
}

/// The runtime directory that the environment names, where it counts.
pub fn xdg_runtime_dir_for_uid(named: &Option<Vec<u8>>, facts: Option<DirFacts>, uid: u32) -> (r:
    Option<Vec<u8>>)
    ensures
        option_view(r) == match option_view(*named) {
            Some(path) => if runtime_usable(path, facts, uid) {
                Some(path)
            } else {
                None
            },
            None => None,
        },
{
    match named {
        None => None,
        Some(path) => {
            let absolute: bool = path.len() > 0 && path[0] == SLASH;
            match facts {
                Some(facts) => if absolute && facts.is_dir && facts.uid == uid && facts.mode & 0o077
                    == 0 {
                    Some(path.clone())
                } else {
                    None
                },
                None => None,
            }
        },
    }
}

/// A relative name behind a directory.
pub open spec fn joined(dir: Seq<u8>, name: Seq<char>) -> Seq<u8> {
    if dir.len() == 0 || dir.last() == SLASH {
        dir + encode_utf8(name)
    } else {
        dir.push(SLASH) + encode_utf8(name)
    }
}

fn join_path(dir: Vec<u8>, name: &str) -> (path: Vec<u8>)
    ensures
        path@ == joined(dir@, name@),
{
    let mut path: Vec<u8> = dir;
    if path.len() > 0 && path[path.len() - 1] != SLASH {
        path.push(SLASH);
    }
    let mut name: Vec<u8> = text_bytes(name);
    path.append(&mut name);
    path
}

pub open spec fn socket_path(instance: Seq<char>, runtime: Option<Seq<u8>>, uid: u32) -> Seq<u8> {
    match runtime {
        Some(dir) => joined(joined(dir, "prismattyc"@), spec_socket_filename(instance)),
        None => joined(
            encode_utf8("/tmp/prismattyc-"@ + decimal(uid as nat)),
            spec_socket_filename(instance),
        ),
    }
}

/// The socket path of an instance: in the runtime directory, or below `/tmp` in a
/// directory named by the user.
pub fn default_socket_path(instance: &str, runtime: &Option<Vec<u8>>, uid: u32) -> (r: Result<
    Vec<u8>,
    String,
>)
    ensures
        if is_instance(instance@) {
            r matches Ok(path) && path@ == socket_path(instance@, option_view(*runtime), uid)
        } else {
            r matches Err(message) && message@
                == "socket instance must be 1..=48 ASCII letters, digits, '-' or '_'"@
        },
{
    validate_socket_instance(instance)?;
    let name: String = socket_filename(instance);
    let dir: Vec<u8> = match runtime {
        Some(dir) => join_path(dir.clone(), "prismattyc"),
        None => {
            let number: String = decimal_text(uid as u64);
            text_bytes(concat2("/tmp/prismattyc-", number.as_str()).as_str())
        },
    };
    Ok(join_path(dir, name.as_str()))
}

/// Systemd user runtime directory of a user. Desktop mux sockets usually live
/// there.
pub fn systemd_user_runtime_dir(uid: u32) -> (path: Vec<u8>)
    ensures
        path@ == encode_utf8("/run/user/"@ + decimal(uid as nat)),
{
    let number: String = decimal_text(uid as u64);
    text_bytes(concat2("/run/user/", number.as_str()).as_str())
}

pub open spec fn socket_name(name: Seq<char>) -> bool {
    ".sock"@.is_suffix_of(name) && (name == "pmux.sock"@ || "pmux-"@.is_prefix_of(name))
}

pub fn is_pmux_socket_name(name: &str) -> (r: bool)
    ensures
        r == socket_name(name@),
{
    text_ends_with(name, ".sock") && (same_text(name, "pmux.sock") || text_starts_with(
        name,
        "pmux-",
    ))
}

/// Every instance's socket is found by its name.
pub proof fn instance_sockets_are_found(instance: Seq<char>)
    ensures
        socket_name(spec_socket_filename(instance)),
{
    reveal_strlit("pmux.sock");
    reveal_strlit(".sock");
    reveal_strlit("pmux-");
    let name = spec_socket_filename(instance);
    assert(".sock"@ =~= name.subrange(name.len() - 5, name.len() as int));
    if instance != "default"@ {
        assert("pmux-"@ =~= name.subrange(0, 5));
    }
}

/// No two instances of a user share a socket.
pub proof fn instances_have_their_own_sockets(
    a: Seq<char>,
    b: Seq<char>,
    runtime: Option<Seq<u8>>,
    uid: u32,
)
    requires
        socket_path(a, runtime, uid) == socket_path(b, runtime, uid),
    ensures
        a == b,
{
    let dir = match runtime {
        Some(dir) => joined(dir, "prismattyc"@),
        None => encode_utf8("/tmp/prismattyc-"@ + decimal(uid as nat)),
    };
    let (m, n) = (spec_socket_filename(a), spec_socket_filename(b));
    let k: int = if dir.len() == 0 || dir.last() == SLASH {
        dir.len() as int
    } else {
        (dir.len() + 1) as int
    };
    assert(encode_utf8(m) =~= joined(dir, m).skip(k));
    assert(encode_utf8(n) =~= joined(dir, n).skip(k));
    encode_utf8_decode_utf8(m);
    encode_utf8_decode_utf8(n);
    reveal_strlit("pmux.sock");
    reveal_strlit(".sock");
    reveal_strlit("pmux-");
    assert(m[4] == n[4]);
    if a != "default"@ && b != "default"@ {
        assert(a =~= m.subrange(5, m.len() - 5));
        assert(b =~= n.subrange(5, n.len() - 5));
    }
}

/// A path put behind every path that it does not stand before.
pub open spec fn with_path(sorted: Seq<Seq<u8>>, path: Seq<u8>) -> Seq<Seq<u8>>
    decreases sorted.len(),
{
    if sorted.len() == 0 || !path_before(path, sorted.last()) {
        sorted.push(path)
    } else {
        with_path(sorted.drop_last(), path).push(sorted.last())
    }
}

/// Paths in order; equal ones stay as they came.
pub open spec fn sorted_paths(paths: Seq<Seq<u8>>) -> Seq<Seq<u8>>
    decreases paths.len(),
{
    if paths.len() == 0 {
        Seq::empty()
    } else {
        with_path(sorted_paths(paths.drop_last()), paths.last())
    }
}

/// No path stands before an earlier one.
pub open spec fn paths_ordered(s: Seq<Seq<u8>>) -> bool {
    forall|i: int, j: int|
        0 <= i < j < s.len() ==> !path_before(#[trigger] s[j], #[trigger] s[i])
}

fn insert_path(v: &mut Vec<Vec<u8>>, path: Vec<u8>)
    requires
        paths_ordered(seq_views(old(v)@)),
    ensures
        seq_views(final(v)@) == with_path(seq_views(old(v)@), path@),
        paths_ordered(seq_views(final(v)@)),
{
    let ghost all = seq_views(v@);
    let mut i: usize = v.len();
    assert(all.take(i as int) =~= all);
    assert(all.skip(i as int) =~= Seq::empty());
    while i > 0 && is_path_before(path.as_slice(), v[i - 1].as_slice())
        invariant
            i <= v@.len(),
            all == seq_views(v@),
            paths_ordered(all),
            with_path(all, path@) == with_path(all.take(i as int), path@) + all.skip(i as int),
            forall|j: int| i <= j < all.len() ==> !path_before(#[trigger] all[j], path@),
        decreases i,
    {
        proof {
            let head = all.take(i as int);
            assert(head.last() == all[i - 1]);
            assert(head.drop_last() =~= all.take(i - 1));
            assert(with_path(all.take(i - 1), path@).push(all[i - 1]) + all.skip(i as int)
                =~= with_path(all.take(i - 1), path@) + all.skip(i - 1));
            paths_are_in_order(path@, all[i - 1], path@);
        }
        i = i - 1;
    }
    proof {
        let head = all.take(i as int);
        if i > 0 {
            assert(head.last() == all[i - 1]);
        }
        assert(with_path(head, path@) == head.push(path@));
        assert forall|j: int| 0 <= j < i implies !path_before(path@, #[trigger] all[j]) by {
            paths_are_in_order(path@, all[j], all[i - 1]);
            paths_are_in_order(all[j], all[i - 1], path@);
            assert(j == i - 1 || !path_before(all[i - 1], all[j]));
        }
        let after = head.push(path@) + all.skip(i as int);
        assert forall|a: int, b: int| 0 <= a < b < after.len() implies !path_before(
            #[trigger] after[b],
            #[trigger] after[a],
        ) by {
            if a < i && b < i {
                assert(!path_before(all[b], all[a]));
            } else if a < i && b == i {
            } else if a < i {
                assert(after[b] == all[b - 1]);
                assert(!path_before(all[b - 1], all[a]));
            } else if a == i {
                assert(after[b] == all[b - 1]);
            } else {
                assert(after[b] == all[b - 1] && after[a] == all[a - 1]);
                assert(!path_before(all[b - 1], all[a - 1]));
            }
        }
    }
    v.insert(i, path);
    assert(seq_views(v@) =~= all.take(i as int).push(path@) + all.skip(i as int));
}

/// A candidate socket: its path, its file name where that is a text, and how
/// alive it is.
#[derive(Debug)]
pub struct SocketEntry {
    pub path: Vec<u8>,
    pub name: Option<String>,
    pub liveness: SocketLiveness,
}

pub open spec fn entry_live(entry: SocketEntry) -> bool {
    entry.liveness == SocketLiveness::Live && (option_text(entry.name) matches Some(name)
        && socket_name(name))
}

/// The paths of the live mux sockets among some entries.
pub open spec fn live_paths(entries: Seq<SocketEntry>) -> Seq<Seq<u8>>
    decreases entries.len(),
{
    if entries.len() == 0 {
        Seq::empty()
    } else if entry_live(entries.last()) {
        live_paths(entries.drop_last()).push(entries.last().path@)
    } else {
        live_paths(entries.drop_last())
    }
}

/// The live mux sockets among the entries of a runtime directory and of its
/// `prismattyc` directory, in order.
pub fn live_pmux_sockets_in(entries: &Vec<SocketEntry>) -> (r: Vec<Vec<u8>>)
    ensures
        seq_views(r@) == sorted_paths(live_paths(entries@)),
        paths_ordered(seq_views(r@)),
{
    let mut r: Vec<Vec<u8>> = Vec::new();
    let mut i: usize = 0;
    assert(entries@.take(0) =~= Seq::empty());
    assert(seq_views(r@) =~= Seq::empty());
    while i < entries.len()
        invariant
            i <= entries@.len(),
            seq_views(r@) == sorted_paths(live_paths(entries@.take(i as int))),
            paths_ordered(seq_views(r@)),
        decreases entries@.len() - i,
    {
        let ghost next = entries@.take(i + 1);
        let ghost found = live_paths(entries@.take(i as int));
        proof {
            assert(next.drop_last() =~= entries@.take(i as int));
            assert(next.last() == entries@[i as int]);
            assert(found.push(entries@[i as int].path@).drop_last() =~= found);
        }
        let live: bool = match &entries[i].name {
            Some(name) => entries[i].liveness == SocketLiveness::Live && is_pmux_socket_name(
                name.as_str(),
            ),
            None => false,
        };
        if live {
            insert_path(&mut r, entries[i].path.clone());
        }
        i = i + 1;
    }
    assert(entries@.take(i as int) =~= entries@);
    r
}

/// Live mux sockets below `/run/user/<uid>` that this client does not use. A
/// login over SSH often has another `XDG_RUNTIME_DIR`, or none, and then falls
/// back to `/tmp`. Callers must not switch sockets by themselves.
#[derive(Debug)]
pub struct RuntimeDirMiss {
    pub resolved_socket: Vec<u8>,
    pub xdg_runtime_dir: Option<Vec<u8>>,
    pub user_runtime: Vec<u8>,
    pub live_sockets: Vec<Vec<u8>>,
}

/// The text that `String::from_utf8_lossy` makes of bytes.
pub uninterp spec fn lossy_text(bytes: Seq<u8>) -> Seq<char>;

/// `String::from_utf8_lossy`. Well-formed UTF-8 becomes the text that it encodes; what
/// stands for other bytes is left to the name.
#[verifier::external_body]
fn lossy(bytes: &[u8]) -> (s: String)
    ensures
        s@ == lossy_text(bytes@),
        valid_utf8(bytes@) ==> s@ == decode_utf8(bytes@),
{
    String::from_utf8_lossy(bytes).into_owned()
}

/// A path as it is shown: its text, or the nearest that can be shown.
pub open spec fn shown(path: Seq<u8>) -> Seq<char> {
    if valid_utf8(path) {
        decode_utf8(path)
    } else {
        lossy_text(path)
    }
}

fn show_path(path: &[u8]) -> (s: String)
    ensures
        s@ == shown(path@),
{
    lossy(path)
}

/// Each path as it is shown.
pub open spec fn all_shown(paths: Seq<Seq<u8>>) -> Seq<Seq<char>> {
    paths.map_values(|path: Seq<u8>| shown(path))
}

/// Texts with `, ` between them.
pub open spec fn listed(texts: Seq<Seq<char>>) -> Seq<char>
    decreases texts.len(),
{
    if texts.len() == 0 {
        Seq::empty()
    } else if texts.len() == 1 {
        texts[0]
    } else {
        listed(texts.drop_last()) + ", "@ + texts.last()
    }
}

fn list_paths(paths: &Vec<Vec<u8>>) -> (s: String)
    ensures
        s@ == listed(all_shown(seq_views(paths@))),
{
    let ghost all = all_shown(seq_views(paths@));
    let mut s: String = String::new();
    let mut i: usize = 0;
    assert(all.take(0) =~= Seq::empty());
    assert(s@ =~= Seq::empty());
    while i < paths.len()
        invariant
            i <= paths@.len(),
            all == all_shown(seq_views(paths@)),
            s@ == listed(all.take(i as int)),
        decreases paths@.len() - i,
    {
        proof {
            assert(all.take(i + 1).drop_last() =~= all.take(i as int));
            assert(all.take(i + 1).last() == shown(paths@[i as int]@));
        }
        let path: String = show_path(paths[i].as_slice());
        if i == 0 {
            s = path;
        } else {
            s.append(", ");
            s.append(path.as_str());
        }
        i = i + 1;
    }
    assert(all.take(i as int) =~= all);
    s
}

impl RuntimeDirMiss {
    pub open spec fn spec_text(self) -> Seq<char> {
        (match option_view(self.xdg_runtime_dir) {
            None => "hint: XDG_RUNTIME_DIR is unset; this CLI used "@ + shown(
                self.resolved_socket@,
            ) + ".\n"@,
            Some(dir) => "hint: XDG_RUNTIME_DIR is "@ + shown(dir) + "; this CLI used "@ + shown(
                self.resolved_socket@,
            ) + ".\n"@,
        }) + "A live mux socket is at "@ + listed(all_shown(seq_views(self.live_sockets@)))
            + ".\n"@ + "Point PMUX_SOCKET at that path, or export XDG_RUNTIME_DIR="@ + shown(
            self.user_runtime@,
        ) + "."@
    }

    /// The hint, as it is shown.
    pub fn text(&self) -> (s: String)
        ensures
            s@ == self.spec_text(),
    {
        let mut s: String = match &self.xdg_runtime_dir {
            None => String::from_str("hint: XDG_RUNTIME_DIR is unset; this CLI used "),
            Some(dir) => concat3(
                "hint: XDG_RUNTIME_DIR is ",
                show_path(dir.as_slice()).as_str(),
                "; this CLI used ",
            ),
        };
        s.append(show_path(self.resolved_socket.as_slice()).as_str());
        s.append(".\n");
        let sockets: String = list_paths(&self.live_sockets);
        s.append("A live mux socket is at ");
        s.append(sockets.as_str());
        s.append(".\n");
        s.append("Point PMUX_SOCKET at that path, or export XDG_RUNTIME_DIR=");
        s.append(show_path(self.user_runtime.as_slice()).as_str());
        s.append(".");
        s
    }
}

/// The paths that are not the given one.
pub open spec fn other_paths(paths: Seq<Seq<u8>>, path: Seq<u8>) -> Seq<Seq<u8>>
    decreases paths.len(),
{
    if paths.len() == 0 {
        Seq::empty()
    } else if same_path(paths.last(), path) {
        other_paths(paths.drop_last(), path)
    } else {
        other_paths(paths.drop_last(), path).push(paths.last())
    }
}

/// The environment names another runtime directory than the user's.
pub open spec fn xdg_misses(xdg: Option<Seq<u8>>, user_runtime: Seq<u8>) -> bool {
    match xdg {
        None => true,
        Some(dir) => !same_path(dir, user_runtime),
    }
}

/// A miss, where the environment names another runtime directory than the user's
/// and a live socket other than the one in use is there.
pub fn diagnose_runtime_dir_miss(
    resolved_socket: &[u8],
    xdg_runtime_dir: &Option<Vec<u8>>,
    user_runtime: &[u8],
    live_sockets: &Vec<Vec<u8>>,
) -> (r: Option<RuntimeDirMiss>)
    ensures
        ({
            let others = other_paths(seq_views(live_sockets@), resolved_socket@);
            if xdg_misses(option_view(*xdg_runtime_dir), user_runtime@) && others.len() > 0 {
                r matches Some(miss) && {
                    &&& miss.resolved_socket@ == resolved_socket@
                    &&& option_view(miss.xdg_runtime_dir) == option_view(*xdg_runtime_dir)
                    &&& miss.user_runtime@ == user_runtime@
                    &&& seq_views(miss.live_sockets@) == sorted_paths(others)
                    &&& paths_ordered(seq_views(miss.live_sockets@))
                }
            } else {
                r is None
            }
        }),
        option_view(*xdg_runtime_dir) == Some(user_runtime@) ==> r is None,
        (forall|i: int|
            0 <= i < live_sockets@.len() ==> (#[trigger] live_sockets@[i])@ == resolved_socket@)
            ==> r is None,
{
    proof {
        if forall|i: int|
            0 <= i < live_sockets@.len() ==> (#[trigger] live_sockets@[i])@ == resolved_socket@ {
            lemma_no_other_paths(seq_views(live_sockets@), resolved_socket@);
        }
    }
    let misses: bool = match xdg_runtime_dir {
        None => true,
        Some(dir) => !is_same_path(dir.as_slice(), user_runtime),
    };
    if !misses {
        return None;
    }
    let mut others: Vec<Vec<u8>> = Vec::new();
    let ghost all = seq_views(live_sockets@);
    let ghost mut found: Seq<Seq<u8>> = Seq::empty();
    let mut i: usize = 0;
    assert(all.take(0) =~= Seq::empty());
    assert(seq_views(others@) =~= Seq::empty());
    while i < live_sockets.len()
        invariant
            i <= live_sockets@.len(),
            all == seq_views(live_sockets@),
            found == other_paths(all.take(i as int), resolved_socket@),
            seq_views(others@) == sorted_paths(found),
            others@.len() == found.len(),
            paths_ordered(seq_views(others@)),
        decreases live_sockets@.len() - i,
    {
        proof {
            assert(all.take(i + 1).drop_last() =~= all.take(i as int));
            assert(all.take(i + 1).last() == live_sockets@[i as int]@);
        }
        if !is_same_path(live_sockets[i].as_slice(), resolved_socket) {
            let ghost path = live_sockets@[i as int]@;
            insert_path(&mut others, live_sockets[i].clone());
            proof {
                assert(found.push(path).drop_last() =~= found);
                lemma_with_path_len(sorted_paths(found), path);
                found = found.push(path);
            }
        }
        i = i + 1;
    }
    assert(all.take(i as int) =~= all);
    if others.len() == 0 {
        return None;
    }
    Some(
        RuntimeDirMiss {
            resolved_socket: clone_bytes(resolved_socket),
            xdg_runtime_dir: match xdg_runtime_dir {
                Some(dir) => Some(dir.clone()),
                None => None,
            },
            user_runtime: clone_bytes(user_runtime),
            live_sockets: others,
        },
    )
}

proof fn lemma_no_other_paths(paths: Seq<Seq<u8>>, path: Seq<u8>)
    requires
        forall|i: int| 0 <= i < paths.len() ==> #[trigger] paths[i] == path,
    ensures
        other_paths(paths, path).len() == 0,
    decreases paths.len(),
{
    if paths.len() > 0 {
        assert(paths[paths.len() - 1] == path);
        lemma_no_other_paths(paths.drop_last(), path);
    }
}

proof fn lemma_with_path_len(sorted: Seq<Seq<u8>>, path: Seq<u8>)
    ensures
        with_path(sorted, path).len() == sorted.len() + 1,
    decreases sorted.len(),
{
    if sorted.len() > 0 && path_before(path, sorted.last()) {
        lemma_with_path_len(sorted.drop_last(), path);
    }
}

/// Diagnose a live mux of the user that this process does not use. `xdg` is what
/// the environment names, `entries` what the user's runtime directory holds.
pub fn diagnose_runtime_dir_miss_from_env(
    resolved_socket: &[u8],
    uid: u32,
    xdg: &Option<Vec<u8>>,
    entries: &Vec<SocketEntry>,
) -> (r: Option<RuntimeDirMiss>)
    ensures
        ({
            let user_runtime = encode_utf8("/run/user/"@ + decimal(uid as nat));
            let others = other_paths(sorted_paths(live_paths(entries@)), resolved_socket@);
            if xdg_misses(option_view(*xdg), user_runtime) && others.len() > 0 {
                r matches Some(miss) && {
                    &&& miss.resolved_socket@ == resolved_socket@
                    &&& option_view(miss.xdg_runtime_dir) == option_view(*xdg)
                    &&& miss.user_runtime@ == user_runtime
                    &&& seq_views(miss.live_sockets@) == sorted_paths(others)
                }
            } else {
                r is None
            }
        }),
{
    let user_runtime: Vec<u8> = systemd_user_runtime_dir(uid);
    let live: Vec<Vec<u8>> = live_pmux_sockets_in(entries);
    diagnose_runtime_dir_miss(resolved_socket, xdg, user_runtime.as_slice(), &live)
}

proof fn lemma_other_paths(paths: Seq<Seq<u8>>, path: Seq<u8>, p: Seq<u8>)
    requires
        other_paths(paths, path).contains(p),
    ensures
        paths.contains(p),
        !same_path(p, path),
    decreases paths.len(),
{
    let others = other_paths(paths, path);
    let k = choose|k: int| 0 <= k < others.len() && others[k] == p;
    if paths.len() > 0 {
        let head = paths.drop_last();
        let rest = other_paths(head, path);
        if same_path(paths.last(), path) || k < rest.len() {
            assert(rest[k] == p);
            lemma_other_paths(head, path, p);
            let j = choose|j: int| 0 <= j < head.len() && head[j] == p;
            assert(paths[j] == p);
        } else {
            assert(paths[paths.len() - 1] == p);
        }
    }
}

proof fn lemma_with_path(sorted: Seq<Seq<u8>>, path: Seq<u8>, p: Seq<u8>)
    requires
        with_path(sorted, path).contains(p),
    ensures
        p == path || sorted.contains(p),
    decreases sorted.len(),
{
    let after = with_path(sorted, path);
    let k = choose|k: int| 0 <= k < after.len() && after[k] == p;
    if sorted.len() == 0 || !path_before(path, sorted.last()) {
        if k < sorted.len() {
            assert(sorted[k] == p);
        }
    } else {
        let rest = with_path(sorted.drop_last(), path);
        if k < rest.len() {
            assert(rest[k] == p);
            lemma_with_path(sorted.drop_last(), path, p);
            if sorted.drop_last().contains(p) {
                let j = choose|j: int| 0 <= j < sorted.drop_last().len() && sorted.drop_last()[j]
                    == p;
                assert(sorted[j] == p);
            }
        } else {
            assert(sorted[sorted.len() - 1] == p);
        }
    }
}

proof fn lemma_sorted_paths(paths: Seq<Seq<u8>>, p: Seq<u8>)
    requires
        sorted_paths(paths).contains(p),
    ensures
        paths.contains(p),
    decreases paths.len(),
{
    if paths.len() > 0 {
        lemma_with_path(sorted_paths(paths.drop_last()), paths.last(), p);
        if p == paths.last() {
            assert(paths[paths.len() - 1] == p);
        } else {
            lemma_sorted_paths(paths.drop_last(), p);
            let j = choose|j: int| 0 <= j < paths.drop_last().len() && paths.drop_last()[j] == p;
            assert(paths[j] == p);
        }
    }
}

/// A miss never names the socket in use: it lists live sockets that are others.
pub proof fn a_miss_lists_other_sockets(live: Seq<Seq<u8>>, resolved: Seq<u8>, p: Seq<u8>)
    requires
        sorted_paths(other_paths(live, resolved)).contains(p),
    ensures
        live.contains(p),
        !same_path(p, resolved),
{
    lemma_sorted_paths(other_paths(live, resolved), p);
    lemma_other_paths(live, resolved, p);
}

} // verus!
