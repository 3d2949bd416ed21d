//! Input and output facts of a pane that gate automatic writes.
use vstd::prelude::*;
use vstd::string::*;

use crate::text::chars_of;

verus! {

/// Output within this time keeps a pane busy.
pub const MAIL_INJECT_QUIET_MS: u64 = 3_000;

/// Output bytes within the quiet window that make a pane busy.
pub const MAIL_INJECT_BUSY_BYTES: usize = 8_192;

/// Typing within this time defers an automatic write.
pub const MAIL_INJECT_INPUT_IDLE_MS: u64 = 10_000;

/// A partial line this old no longer blocks.
pub const MAIL_INJECT_DIRTY_IDLE_MS: u64 = 60_000;

/// Time since `at`; none, when the clock went back.
pub open spec fn since(at: u64, now: u64) -> int {
    if now >= at {
        now - at
    } else {
        0
    }
}

/// Whether a write ended the line that it wrote.
pub open spec fn ends_line(data: Seq<char>) -> bool {
    data.len() > 0 && data.last() == '\r'
}

pub fn write_ended_with_cr(data: &str) -> (r: bool)
    ensures
        r == ends_line(data@),
{
    let v: Vec<char> = chars_of(data);
    v.len() > 0 && v[v.len() - 1] == '\r'
}

/// An unsubmitted line is open until both input and output rest.
pub open spec fn dirty_input(
    written_at: Option<u64>,
    ended_with_cr: bool,
    output_at: Option<u64>,
    now: u64,
) -> bool {
    match written_at {
        None => false,
        Some(at) => !ended_with_cr && !(since(at, now) >= MAIL_INJECT_DIRTY_IDLE_MS && (
        output_at matches Some(out) ==> since(out, now) >= MAIL_INJECT_DIRTY_IDLE_MS)),
    }
}

pub fn dirty_input_still_open(
    last_controller_write_at_ms: Option<u64>,
    last_write_ended_with_cr: bool,
    last_output_at_ms: Option<u64>,
    now: u64,
) -> (r: bool)
    ensures
        r == dirty_input(
            last_controller_write_at_ms,
            last_write_ended_with_cr,
            last_output_at_ms,
            now,
        ),
{
    match last_controller_write_at_ms {
        None => false,
        Some(write_at) => {
            if last_write_ended_with_cr {
                return false;
            }
            let write_idle: bool = now.saturating_sub(write_at) >= MAIL_INJECT_DIRTY_IDLE_MS;
            let output_idle: bool = match last_output_at_ms {
                Some(at) => now.saturating_sub(at) >= MAIL_INJECT_DIRTY_IDLE_MS,
                None => true,
            };
            !(write_idle && output_idle)
        },
    }
}

/// The output entries that are left once the old ones at the front are gone.
pub open spec fn recent_output(s: Seq<(u64, usize)>, now: u64) -> Seq<(u64, usize)>
    decreases s.len(),
{
    if s.len() > 0 && since(s[0].0, now) >= MAIL_INJECT_QUIET_MS {
        recent_output(s.drop_first(), now)
    } else {
        s
    }
}

pub open spec fn output_total(s: Seq<(u64, usize)>) -> nat
    decreases s.len(),
{
    if s.len() == 0 {
        0
    } else {
        output_total(s.drop_last()) + s.last().1 as nat
    }
}

/// Whether a pane has written more than a prompt in the quiet window.
pub open spec fn output_busy(s: Seq<(u64, usize)>, now: u64) -> bool {
    output_total(recent_output(s, now)) >= MAIL_INJECT_BUSY_BYTES
}

/// The output entries after one more chunk.
pub open spec fn noted_output(s: Seq<(u64, usize)>, nbytes: usize, now: u64) -> Seq<(u64, usize)> {
    if nbytes == 0 {
        s
    } else {
        recent_output(s.push((now, nbytes)), now)
    }
}

pub fn prune_output(v: &Vec<(u64, usize)>, now: u64) -> (r: Vec<(u64, usize)>)
    ensures
        r@ == recent_output(v@, now),
{
    let mut i: usize = 0;
    assert(v@.skip(0) =~= v@);
    while i < v.len() && now.saturating_sub(v[i].0) >= MAIL_INJECT_QUIET_MS
        invariant
            i <= v@.len(),
            recent_output(v@, now) == recent_output(v@.skip(i as int), now),
        decreases v@.len() - i,
    {
        assert(v@.skip(i as int).drop_first() =~= v@.skip(i + 1));
        i = i + 1;
    }
    let mut r: Vec<(u64, usize)> = Vec::new();
    let mut j: usize = i;
    while j < v.len()
        invariant
            i <= j <= v@.len(),
            r@ =~= v@.subrange(i as int, j as int),
        decreases v@.len() - j,
    {
        r.push(v[j]);
        j = j + 1;
    }
    assert(r@ =~= v@.skip(i as int));
    r
}

pub fn note_output(v: &Vec<(u64, usize)>, nbytes: usize, now: u64) -> (r: Vec<(u64, usize)>)
    ensures
        r@ == noted_output(v@, nbytes, now),
{
    let mut all: Vec<(u64, usize)> = Vec::new();
    let mut j: usize = 0;
    while j < v.len()
        invariant
            j <= v@.len(),
            all@ =~= v@.take(j as int),
        decreases v@.len() - j,
    {
        all.push(v[j]);
        j = j + 1;
    }
    assert(v@.take(j as int) =~= v@);
    if nbytes == 0 {
        return all;
    }
    all.push((now, nbytes));
    prune_output(&all, now)
}

/// Bytes of the entries, or the largest number that can be counted.
pub fn output_sum(v: &Vec<(u64, usize)>) -> (n: usize)
    ensures
        n == if output_total(v@) <= usize::MAX {
            output_total(v@)
        } else {
            usize::MAX as nat
        },
{
    let mut n: usize = 0;
    let mut i: usize = 0;
    assert(v@.take(0).len() == 0);
    while i < v.len()
        invariant
            i <= v@.len(),
            n == if output_total(v@.take(i as int)) <= usize::MAX {
                output_total(v@.take(i as int))
            } else {
                usize::MAX as nat
            },
        decreases v@.len() - i,
    {
        assert(v@.take(i + 1).drop_last() =~= v@.take(i as int));
        n = n.saturating_add(v[i].1);
        i = i + 1;
    }
    assert(v@.take(i as int) =~= v@);
    n
}

/// Time only closes a dirty line: what does not block now does not block later
/// unless something is written.
pub proof fn dirty_input_expires(
    written_at: Option<u64>,
    ended_with_cr: bool,
    output_at: Option<u64>,
    now: u64,
    later: u64,
)
    requires
        now <= later,
        !dirty_input(written_at, ended_with_cr, output_at, now),
    ensures
        !dirty_input(written_at, ended_with_cr, output_at, later),
{
}

} // verus!
