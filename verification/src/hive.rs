//! Addresses of Hive cells.
use vstd::prelude::*;
use vstd::string::*;

use crate::plane::{ControlPlane, PlaneView};
use crate::text::{
    chars_of, decimal_value, hex_char, is_digit_char, is_hex_char, text_starts_with, trim, trimmed,
};

verus! {

/// What is said of anything that is not an address.
pub const HIVE_ADDRESS_MESSAGE: &'static str =
    "mail cell must be a Hive address (1b@1 or cell:<32 hex digits>@generation)";

pub open spec fn all_digits(s: Seq<char>) -> bool {
    forall|i: int| 0 <= i < s.len() ==> is_digit_char(#[trigger] s[i])
}

pub open spec fn all_hex(s: Seq<char>) -> bool {
    forall|i: int| 0 <= i < s.len() ==> is_hex_char(#[trigger] s[i])
}

/// A generation is a decimal number of at most twenty digits that fits 64 bits.
pub open spec fn is_generation(s: Seq<char>) -> bool {
    0 < s.len() <= 20 && all_digits(s) && decimal_value(s) <= u64::MAX
}

/// Hexadecimal digits, `@`, and a generation, split at `at`.
pub open spec fn splits_at(s: Seq<char>, at: int) -> bool {
    0 <= at < s.len() && s[at] == '@' && all_hex(s.take(at)) && is_generation(s.skip(at + 1))
}

/// An address with `least` to `most` hexadecimal digits.
pub open spec fn is_cell(s: Seq<char>, least: nat, most: nat) -> bool {
    exists|at: int| least <= at <= most && splits_at(s, at)
}

/// A cell address, lossless or padded.
pub open spec fn is_hive_address(s: Seq<char>) -> bool {
    if "cell:"@.is_prefix_of(s) {
        is_cell(s.skip(5), 32, 32)
    } else {
        is_cell(s, 1, 32)
    }
}

pub fn valid_hive_generation(gen: &str) -> (r: bool)
    ensures
        r == is_generation(gen@),
{
    let v: Vec<char> = chars_of(gen);
    assert(v@.skip(0) =~= v@);
    generation_from(&v, 0)
}

fn generation_from(v: &Vec<char>, from: usize) -> (r: bool)
    requires
        from <= v@.len(),
    ensures
        r == is_generation(v@.skip(from as int)),
{
    let ghost s = v@.skip(from as int);
    let n: usize = v.len() - from;
    if n == 0 || n > 20 {
        return false;
    }
    let mut value: u128 = 0;
    let mut i: usize = 0;
    assert(s.take(0) =~= Seq::empty());
    while i < n
        invariant
            i <= n <= 20,
            from + n == v.len(),
            n == v.len() - from,
            s == v@.skip(from as int),
            value == decimal_value(s.take(i as int)),
            value < pow10(i as nat),
            all_digits(s.take(i as int)),
        decreases n - i,
    {
        let c: char = v[from + i];
        let ghost head = s.take(i as int);
        let ghost next = s.take(i + 1);
        proof {
            assert(next.drop_last() =~= head);
            assert(next.last() == c);
            assert(c == s[i as int]);
            lemma_pow10(i as nat);
        }
        if !('0' <= c && c <= '9') {
            assert(!is_digit_char(s[i as int]));
            return false;
        }
        let digit: u128 = (c as u32 - '0' as u32) as u128;
        value = value * 10 + digit;
        proof {
            assert forall|k: int| 0 <= k < next.len() implies is_digit_char(#[trigger] next[k]) by {
                if k < i {
                    assert(head[k] == next[k]);
                }
            }
        }
        i = i + 1;
    }
    assert(s.take(n as int) =~= s);
    value <= 0xffff_ffff_ffff_ffff
}

spec fn pow10(n: nat) -> nat
    decreases n,
{
    if n == 0 {
        1
    } else {
        10 * pow10((n - 1) as nat)
    }
}

proof fn lemma_pow10(n: nat)
    requires
        n < 20,
    ensures
        pow10(n + 1) == 10 * pow10(n),
        pow10(n) <= 10_000_000_000_000_000_000,
{
    reveal_with_fuel(pow10, 21);
}

proof fn lemma_split_is_last(s: Seq<char>, at: int, other: int)
    requires
        splits_at(s, at),
        0 <= other < s.len(),
        s[other] == '@',
    ensures
        other == at,
{
    if other < at {
        assert(s.take(at)[other] == '@');
        assert(is_hex_char(s.take(at)[other]));
    }
    if other > at {
        let tail = s.skip(at + 1);
        assert(tail[other - at - 1] == '@');
        assert(is_digit_char(tail[other - at - 1]));
    }
}

fn cell_from(v: &Vec<char>, from: usize, least: usize, most: usize) -> (r: bool)
    requires
        from <= v@.len(),
    ensures
        r == is_cell(v@.skip(from as int), least as nat, most as nat),
{
    let ghost s = v@.skip(from as int);
    let mut i: usize = from;
    while i < v.len() && v[i] != '@'
        invariant
            from <= i <= v@.len(),
            s == v@.skip(from as int),
            forall|k: int| 0 <= k < i - from ==> is_hex_char(#[trigger] s[k]),
        decreases v@.len() - i,
    {
        if !hex_char(v[i]) {
            proof {
                let bad = i - from;
                assert(s[bad] == v@[i as int]);
                if is_cell(s, least as nat, most as nat) {
                    let at = choose|at: int| least <= at <= most && splits_at(s, at);
                    if bad < at {
                        assert(is_hex_char(s.take(at)[bad]));
                    } else if bad > at {
                        assert(s[at] == '@');
                        assert(is_hex_char(s[at]));
                    }
                }
            }
            return false;
        }
        i = i + 1;
    }
    if i == v.len() {
        proof {
            if is_cell(s, least as nat, most as nat) {
                let at = choose|at: int| least <= at <= most && splits_at(s, at);
                assert(is_hex_char(s[at]));
            }
        }
        return false;
    }
    let good: bool = generation_from(v, i + 1);
    let count: usize = i - from;
    proof {
        assert(s[count as int] == '@');
        assert(s.skip(count + 1) =~= v@.skip(i + 1));
        assert forall|k: int| 0 <= k < s.take(count as int).len() implies is_hex_char(
            #[trigger] s.take(count as int)[k],
        ) by {
            assert(is_hex_char(s[k]));
        }
        if good {
            assert(splits_at(s, count as int));
        }
        if is_cell(s, least as nat, most as nat) {
            let at = choose|at: int| least <= at <= most && splits_at(s, at);
            lemma_split_is_last(s, at, count as int);
        }
    }
    good && least <= count && count <= most
}

/// The address that a text names, without the white space around it. Labels such
/// as `cli` are no addresses.
pub fn parse_hive_cell_address(raw: &str) -> (r: Result<String, String>)
    ensures
        if is_hive_address(trimmed(raw@)) {
            r matches Ok(address) && address@ == trimmed(raw@)
        } else {
            r matches Err(message) && message@ == HIVE_ADDRESS_MESSAGE@
        },
{
    let address: String = trim(raw);
    let v: Vec<char> = chars_of(address.as_str());
    let padded: bool = text_starts_with(address.as_str(), "cell:");
    proof {
        reveal_strlit("cell:");
    }
    let good: bool = if padded {
        cell_from(&v, 5, 32, 32)
    } else {
        assert(v@.skip(0) =~= v@);
        cell_from(&v, 0, 1, 32)
    };
    if good {
        Ok(address)
    } else {
        Err(String::from_str(HIVE_ADDRESS_MESSAGE))
    }
}

/// What was parsed is an address in itself: parsing it again gives it back.
pub proof fn parsed_addresses_stay(raw: Seq<char>)
    requires
        is_hive_address(trimmed(raw)),
    ensures
        trimmed(trimmed(raw)) == trimmed(raw),
{
    crate::text::lemma_trimmed_twice(raw);
}

/// A pane with a child, and whether the process tree of that child and a bound
/// process meet.
#[derive(Debug, Clone, Copy, PartialEq, Eq, Structural)]
pub struct PaneTree {
    pub pane: u64,
    pub related: bool,
}

impl PlaneView {
    /// The pane of an entry may stand for a bound process.
    pub open spec fn houses(self, tree: PaneTree) -> bool {
        tree.related && self.panes[tree.pane].spawn is Some
    }
}

impl ControlPlane {
    /// The first pane whose process tree meets that of a bound process. `trees`
    /// lists the running children in the order they are looked at.
    pub fn pane_for_bound_pid(&self, bound: u32, trees: &Vec<PaneTree>) -> (r: Option<u64>)
        ensures
            match r {
                Some(pane) => bound != 0 && self@.live && exists|i: int|
                    0 <= i < trees@.len() && self@.houses(#[trigger] trees@[i]) && trees@[i].pane
                        == pane && forall|k: int|
                        0 <= k < i ==> !self@.houses(#[trigger] trees@[k]),
                None => bound == 0 || !self@.live || forall|i: int|
                    0 <= i < trees@.len() ==> !self@.houses(#[trigger] trees@[i]),
            },
    {
        if bound == 0 || !self.live {
            return None;
        }
        let mut i: usize = 0;
        while i < trees.len()
            invariant
                i <= trees@.len(),
                bound != 0,
                self.live,
                forall|k: int| 0 <= k < i ==> !self@.houses(#[trigger] trees@[k]),
            decreases trees@.len() - i,
        {
            let seated: bool = match self.panes.get(trees[i].pane) {
                Some(state) => state.spawn.is_some(),
                None => false,
            };
            if trees[i].related && seated {
                assert(self@.houses(trees@[i as int]));
                return Some(trees[i].pane);
            }
            i = i + 1;
        }
        None
    }
}

} // verus!
