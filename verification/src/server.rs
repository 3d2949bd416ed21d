//! What the server decides around its socket: who is let in, what becomes of the
//! file, and how a failed start is undone.
use vstd::prelude::*;
use vstd::string::*;

use crate::discovery::SocketLiveness;

verus! {

/// At most so many connections are served at a time.
pub const MAX_CLIENTS: usize = 64;

/// Whether one more connection is served, next to so many.
pub fn admits(clients: usize) -> (r: bool)
    ensures
        r == (clients < MAX_CLIENTS),
{
    clients < MAX_CLIENTS
}

/// Refuses a peer that is another user.
pub fn verify_same_user(peer_uid: u32, own_uid: u32) -> (r: Result<(), String>)
    ensures
        if peer_uid == own_uid {
            r is Ok
        } else {
            r matches Err(message) && message@
                == "control connection peer uid does not match server uid"@
        },
{
    if peer_uid == own_uid {
        Ok(())
    } else {
        Err(String::from_str("control connection peer uid does not match server uid"))
    }
}

/// What is to be done with a path before a socket is bound to it.
#[derive(Debug, Clone, Copy, PartialEq, Eq, Structural)]
pub enum SocketPlan {
    Bind,
    /// Remove the leftover, then bind.
    Replace,
    /// Somebody serves there.
    InUse,
    /// It is not this user's to replace.
    Denied,
}

impl SocketPlan {
    pub open spec fn spec_message(self) -> Option<Seq<char>> {
        match self {
            SocketPlan::InUse => Some("control socket is already accepting connections"@),
            SocketPlan::Denied => Some("refusing to replace a non-socket or foreign-owned path"@),
            _ => None,
        }
    }

    /// Why nothing is bound there.
    pub fn message(&self) -> (s: Option<String>)
        ensures
            crate::event::option_text(s) == self.spec_message(),
    {
        match self {
            SocketPlan::InUse => Some(
                String::from_str("control socket is already accepting connections"),
            ),
            SocketPlan::Denied => Some(
                String::from_str("refusing to replace a non-socket or foreign-owned path"),
            ),
            _ => None,
        }
    }
}

/// Only a leftover of this user's is replaced.
pub fn prepare_socket_path(liveness: SocketLiveness) -> (r: SocketPlan)
    ensures
        r == match liveness {
            SocketLiveness::Missing => SocketPlan::Bind,
            SocketLiveness::Live => SocketPlan::InUse,
            SocketLiveness::Foreign => SocketPlan::Denied,
            SocketLiveness::Stale => SocketPlan::Replace,
        },
{
    match liveness {
        SocketLiveness::Missing => SocketPlan::Bind,
        SocketLiveness::Live => SocketPlan::InUse,
        SocketLiveness::Foreign => SocketPlan::Denied,
        SocketLiveness::Stale => SocketPlan::Replace,
    }
}

/// The steps of a start, in order.
#[derive(Debug, Clone, Copy, PartialEq, Eq, Structural)]
pub enum BindStage {
    /// Free the path.
    Prepare,
    /// Bind the socket to it.
    Listen,
    /// Close it to everyone else.
    Restrict,
    /// Let the accepting thread see the end of the server.
    Unblock,
    /// Start the accepting thread.
    Accept,
    /// Start the thread that looks after running children.
    Maintain,
}

/// What follows a step of a start.
#[derive(Debug, Clone, Copy, PartialEq, Eq, Structural)]
pub enum BindAction {
    Next(BindStage),
    Serving,
    /// The start failed: stop the accepting thread and remove the socket, as told.
    Undo { stop_accept: bool, remove_socket: bool },
}

/// The socket file is there once a stage is behind.
pub open spec fn has_socket(done: BindStage) -> bool {
    done != BindStage::Prepare
}

/// The accepting thread runs once a stage is behind.
pub open spec fn accepts(done: BindStage) -> bool {
    done == BindStage::Accept || done == BindStage::Maintain
}

/// The stage behind which a stage stands.
pub open spec fn stage_before(stage: BindStage) -> Option<BindStage> {
    match stage {
        BindStage::Prepare => None,
        BindStage::Listen => Some(BindStage::Prepare),
        BindStage::Restrict => Some(BindStage::Listen),
        BindStage::Unblock => Some(BindStage::Restrict),
        BindStage::Accept => Some(BindStage::Unblock),
        BindStage::Maintain => Some(BindStage::Accept),
    }
}

pub open spec fn bind_step(stage: BindStage, ok: bool, live: bool) -> BindAction {
    if !ok {
        match stage_before(stage) {
            None => BindAction::Undo { stop_accept: false, remove_socket: false },
            Some(done) => BindAction::Undo {
                stop_accept: accepts(done),
                remove_socket: has_socket(done),
            },
        }
    } else {
        match stage {
            BindStage::Prepare => BindAction::Next(BindStage::Listen),
            BindStage::Listen => BindAction::Next(BindStage::Restrict),
            BindStage::Restrict => BindAction::Next(BindStage::Unblock),
            BindStage::Unblock => BindAction::Next(BindStage::Accept),
            BindStage::Accept => if live {
                BindAction::Next(BindStage::Maintain)
            } else {
                BindAction::Serving
            },
            BindStage::Maintain => BindAction::Serving,
        }
    }
}

/// What follows a step of a start that went well, or did not. Only a plane with
/// running children is looked after.
pub fn bind(stage: BindStage, ok: bool, live: bool) -> (r: BindAction)
    ensures
        r == bind_step(stage, ok, live),
{
    match stage {
        BindStage::Prepare => if ok {
            BindAction::Next(BindStage::Listen)
        } else {
            BindAction::Undo { stop_accept: false, remove_socket: false }
        },
        BindStage::Listen => if ok {
            BindAction::Next(BindStage::Restrict)
        } else {
            BindAction::Undo { stop_accept: false, remove_socket: false }
        },
        BindStage::Restrict => if ok {
            BindAction::Next(BindStage::Unblock)
        } else {
            BindAction::Undo { stop_accept: false, remove_socket: true }
        },
        BindStage::Unblock => if ok {
            BindAction::Next(BindStage::Accept)
        } else {
            BindAction::Undo { stop_accept: false, remove_socket: true }
        },
        BindStage::Accept => if !ok {
            BindAction::Undo { stop_accept: false, remove_socket: true }
        } else if live {
            BindAction::Next(BindStage::Maintain)
        } else {
            BindAction::Serving
        },
        BindStage::Maintain => if ok {
            BindAction::Serving
        } else {
            BindAction::Undo { stop_accept: true, remove_socket: true }
        },
    }
}

/// A failed start leaves no socket behind, and removes none that it did not make.
pub proof fn failed_starts_leave_no_socket(stage: BindStage, live: bool)
    ensures
        bind_step(stage, false, live) == (BindAction::Undo {
            stop_accept: stage == BindStage::Maintain,
            remove_socket: stage != BindStage::Prepare && stage != BindStage::Listen,
        }),
{
}

} // verus!
