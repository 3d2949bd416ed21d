//! What the text helpers do, said of the texts alone.
use vstd::prelude::*;

use crate::text::{
    decimal, decimal_value, digit_char, hex_digit, hex_value, is_control_char, is_white_space,
    trim_back, trim_front, trimmed,
};

verus! {

proof fn lemma_front(s: Seq<char>) -> (k: int)
    ensures
        0 <= k <= s.len(),
        trim_front(s) == s.skip(k),
        forall|i: int| 0 <= i < k ==> is_white_space(#[trigger] s[i]),
        k < s.len() ==> !is_white_space(s[k]),
    decreases s.len(),
{
    if s.len() > 0 && is_white_space(s[0]) {
        let rest = s.drop_first();
        let k = lemma_front(rest);
        assert(rest.skip(k) =~= s.skip(k + 1));
        assert forall|i: int| 0 <= i < k + 1 implies is_white_space(#[trigger] s[i]) by {
            if i > 0 {
                assert(rest[i - 1] == s[i]);
            }
        }
        if k < rest.len() {
            assert(rest[k] == s[k + 1]);
        }
        k + 1
    } else {
        assert(s.skip(0) =~= s);
        0
    }
}

proof fn lemma_back(s: Seq<char>) -> (k: int)
    ensures
        0 <= k <= s.len(),
        trim_back(s) == s.take(k),
        forall|i: int| k <= i < s.len() ==> is_white_space(#[trigger] s[i]),
        k > 0 ==> !is_white_space(s[k - 1]),
    decreases s.len(),
{
    if s.len() > 0 && is_white_space(s.last()) {
        let rest = s.drop_last();
        let k = lemma_back(rest);
        assert(rest.take(k) =~= s.take(k));
        assert forall|i: int| k <= i < s.len() implies is_white_space(#[trigger] s[i]) by {
            if i < rest.len() {
                assert(rest[i] == s[i]);
            }
        }
        k
    } else {
        assert(s.take(s.len() as int) =~= s);
        s.len() as int
    }
}

/// Trimming takes white space off both ends, all of it, and nothing else.
pub proof fn trimming_takes_white_space_off_the_ends(s: Seq<char>)
    ensures
        exists|a: int, b: int|
            0 <= a <= b <= s.len() && trimmed(s) == #[trigger] s.subrange(a, b) && (forall|i: int|
                (0 <= i < a || b <= i < s.len()) ==> is_white_space(#[trigger] s[i])),
        trimmed(s).len() > 0 ==> !is_white_space(trimmed(s)[0]) && !is_white_space(
            trimmed(s).last(),
        ),
{
    let a = lemma_front(s);
    let front = s.skip(a);
    let k = lemma_back(front);
    assert(front.take(k) =~= s.subrange(a, a + k));
    assert forall|i: int| (0 <= i < a || a + k <= i < s.len()) implies is_white_space(
        #[trigger] s[i],
    ) by {
        if i >= a {
            assert(front[i - a] == s[i]);
        }
    }
    if k > 0 {
        assert(front[0] == s[a]);
    }
}

/// White space is white space, and what can be seen is not.
pub proof fn white_space_is_not_visible(c: char)
    ensures
        is_white_space(' ') && is_white_space('\t') && is_white_space('\n') && is_white_space('\r'),
        '!' <= c <= '~' ==> !is_white_space(c) && !is_control_char(c),
        is_control_char('\n') && is_control_char('\t') && is_control_char('\0'),
        !is_control_char(' '),
        (c as u32) < 0x20 || c as u32 == 0x7f ==> is_control_char(c),
{
}

/// A number is written in digits that stand for it, without leading zeros.
pub proof fn a_decimal_stands_for_its_number(n: nat)
    ensures
        decimal_value(decimal(n)) == n,
        decimal(n).len() > 0,
        forall|i: int| 0 <= i < decimal(n).len() ==> '0' <= #[trigger] decimal(n)[i] <= '9',
        n > 0 ==> decimal(n)[0] != '0',
    decreases n,
{
    if n >= 10 {
        let head = decimal(n / 10);
        a_decimal_stands_for_its_number(n / 10);
        assert(decimal(n).drop_last() =~= head);
        assert(decimal(n)[0] == head[0]);
        assert(decimal(n).last() == digit_char(n % 10));
        assert(n == (n / 10) * 10 + n % 10);
        assert forall|i: int| 0 <= i < decimal(n).len() implies '0' <= #[trigger] decimal(n)[i]
            <= '9' by {
            if i < head.len() {
                assert(decimal(n)[i] == head[i]);
            }
        }
    } else {
        let s = decimal(n);
        assert(s.drop_last() =~= Seq::empty());
        assert(decimal_value(s.drop_last()) == 0);
    }
}

/// A hexadecimal digit stands for its value, in either case, and a number for the sum of
/// its digits at their places.
pub proof fn hexadecimal_digits_have_their_values(s: Seq<char>, c: char)
    ensures
        hex_digit('0') == 0 && hex_digit('9') == 9,
        hex_digit('a') == 10 && hex_digit('f') == 15,
        hex_digit('A') == 10 && hex_digit('F') == 15,
        hex_value(Seq::empty()) == 0,
        hex_value(s.push(c)) == 16 * hex_value(s) + hex_digit(c),
{
    assert(s.push(c).drop_last() =~= s);
}

} // verus!
