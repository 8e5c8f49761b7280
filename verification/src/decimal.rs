//! Decimal numbers as text.
//!
//! Terminals send coordinates and key codes as runs of ASCII digits, some of
//! them in lists with `;` between the numbers, and expect color components
//! in the same form. This module says what such a run is worth, how a number
//! is written, and that reading what was written gives the number back.

use vstd::prelude::*;
use std::collections::VecDeque;

verus! {

/// The largest number that a coordinate or a button code may be.
pub const NUMBER_MAX: u32 = 65535;

/// What `scan_number` returns for every number above `NUMBER_MAX`.
pub const TOO_BIG: u32 = 65536;

pub open spec fn is_digit(c: char) -> bool {
    '0' <= c <= '9'
}

pub open spec fn digit_value(c: char) -> nat
    recommends
        is_digit(c),
{
    (c as int - '0' as int) as nat
}

pub open spec fn digit_char(d: nat) -> char
    recommends
        d < 10,
{
    (d + '0' as nat) as char
}

pub open spec fn all_digits(s: Seq<char>) -> bool {
    forall|i: int| 0 <= i < s.len() ==> is_digit(#[trigger] s[i])
}

/// The number that a run of digits denotes, the first digit weighing most.
pub open spec fn value(s: Seq<char>) -> nat
    decreases s.len(),
{
    if s.len() == 0 {
        0
    } else {
        10 * value(s.drop_last()) + digit_value(s.last())
    }
}

/// The number that `s` denotes, if `s` is a number at all: one digit or more
/// and nothing else. Leading zeros are allowed; a sign is not.
pub open spec fn number(s: Seq<char>) -> Option<nat> {
    if s.len() > 0 && all_digits(s) {
        Some(value(s))
    } else {
        None
    }
}

/// A number cut off at `TOO_BIG`.
pub open spec fn capped(n: nat) -> u32 {
    if n >= TOO_BIG {
        TOO_BIG
    } else {
        n as u32
    }
}

/// The digits of `n`, without leading zeros.
pub open spec fn digits(n: nat) -> Seq<char>
    decreases n,
{
    if n < 10 {
        seq![digit_char(n)]
    } else {
        digits(n / 10).push(digit_char(n % 10))
    }
}

/// The digits of `n` as bytes.
pub open spec fn digit_bytes(n: nat) -> Seq<u8> {
    digits(n).map_values(|c: char| c as u8)
}

/// The place of the first `c` in `s` at or after `from`, or the length of `s`
/// if there is none.
pub open spec fn find(s: Seq<char>, c: char, from: int) -> int
    decreases s.len() - from,
{
    if from < 0 || from >= s.len() {
        s.len() as int
    } else if s[from] == c {
        from
    } else {
        find(s, c, from + 1)
    }
}

/// `find` returns a place between `from` and the end, the character there is
/// `c`, and no `c` stands before it.
pub proof fn lemma_find(s: Seq<char>, c: char, from: int)
    requires
        0 <= from <= s.len(),
    ensures
        from <= find(s, c, from) <= s.len(),
        find(s, c, from) < s.len() ==> s[find(s, c, from)] == c,
        forall|i: int| from <= i < find(s, c, from) ==> s[i] != c,
    decreases s.len() - from,
{
    if from < s.len() && s[from] != c {
        lemma_find(s, c, from + 1);
    }
}

/// Where a `c` stands at `at` and none between `from` and `at`, `find` stops
/// at `at`.
pub proof fn lemma_find_at(s: Seq<char>, c: char, from: int, at: int)
    requires
        0 <= from <= at < s.len(),
        s[at] == c,
        forall|i: int| from <= i < at ==> s[i] != c,
    ensures
        find(s, c, from) == at,
    decreases at - from,
{
    if from < at {
        lemma_find_at(s, c, from + 1, at);
    }
}

/// A number is written with one digit or more, and with digits only.
pub proof fn lemma_digits_are_digits(n: nat)
    ensures
        digits(n).len() > 0,
        all_digits(digits(n)),
    decreases n,
{
    if n >= 10 {
        lemma_digits_are_digits(n / 10);
    }
}

/// Reading what was written gives the number back.
pub proof fn lemma_value_of_digits(n: nat)
    ensures
        value(digits(n)) == n,
        number(digits(n)) == Some(n),
    decreases n,
{
    lemma_digits_are_digits(n);
    if n < 10 {
        assert(digits(n).drop_last() =~= Seq::<char>::empty());
        assert(value(digits(n).drop_last()) == 0);
    } else {
        lemma_value_of_digits(n / 10);
        assert(digits(n).drop_last() =~= digits(n / 10));
    }
}

/// Where no `c` stands at or after `from`, `find` returns the length.
pub proof fn lemma_find_none(s: Seq<char>, c: char, from: int)
    requires
        0 <= from <= s.len(),
        forall|i: int| from <= i < s.len() ==> s[i] != c,
    ensures
        find(s, c, from) == s.len(),
    decreases s.len() - from,
{
    if from < s.len() {
        lemma_find_none(s, c, from + 1);
    }
}

/// The three numbers of a list `a;b;c`.
pub open spec fn triple(text: Seq<char>) -> Option<(nat, nat, nat)> {
    let i = find(text, ';', 0);
    let j = find(text, ';', i + 1);
    if i < text.len() && j < text.len() {
        match (
            number(text.subrange(0, i)),
            number(text.subrange(i + 1, j)),
            number(text.subrange(j + 1, text.len() as int)),
        ) {
            (Some(a), Some(b), Some(c)) => Some((a, b, c)),
            _ => None,
        }
    } else {
        None
    }
}

/// The place of the first `c` among the first `to` characters of `q`, at or
/// after `from`; `to` if there is none.
pub fn find_char(q: &VecDeque<char>, c: char, from: usize, to: usize) -> (at: usize)
    requires
        from <= to <= q@.len(),
    ensures
        at == find(q@.take(to as int), c, from as int),
        from <= at <= to,
{
    let ghost s = q@.take(to as int);
    let mut i: usize = from;
    while i < to
        invariant
            from <= i <= to <= q@.len(),
            s == q@.take(to as int),
            forall|k: int| from <= k < i ==> s[k] != c,
        decreases to - i,
    {
        if q[i] == c {
            proof {
                lemma_find_at(s, c, from as int, i as int);
            }
            return i;
        }
        i += 1;
    }
    proof {
        lemma_find_none(s, c, from as int);
    }
    to
}

/// The number that the characters of `q` from `from` up to `to` denote, cut
/// off at `TOO_BIG`; `None` where they are not a number.
pub fn scan_number(q: &VecDeque<char>, from: usize, to: usize) -> (r: Option<u32>)
    requires
        from <= to <= q@.len(),
    ensures
        r == match number(q@.subrange(from as int, to as int)) {
            Some(n) => Some(capped(n)),
            None => None,
        },
{
    let ghost s = q@.subrange(from as int, to as int);
    if from == to {
        return None;
    }
    let mut acc: u32 = 0;
    let mut i: usize = from;
    while i < to
        invariant
            from <= i <= to <= q@.len(),
            s == q@.subrange(from as int, to as int),
            all_digits(s.take(i - from)),
            acc == capped(value(s.take(i - from))),
        decreases to - i,
    {
        let c = q[i];
        if !(c >= '0' && c <= '9') {
            assert(s[i - from] == c);
            return None;
        }
        let d: u32 = c as u32 - '0' as u32;
        proof {
            let before = s.take(i - from);
            let after = s.take(i - from + 1);
            assert(after.drop_last() =~= before);
            assert(after.last() == c);
            assert(value(after) == 10 * value(before) + d);
        }
        acc = if acc >= TOO_BIG {
            TOO_BIG
        } else {
            let next: u32 = acc * 10 + d;
            if next >= TOO_BIG {
                TOO_BIG
            } else {
                next
            }
        };
        i += 1;
    }
    assert(s.take(to - from) =~= s);
    Some(acc)
}

/// The three numbers of the list that the first `to` characters of `q`
/// are, each cut off at `TOO_BIG`; `None` where they are no such list.
pub fn scan_triple(q: &VecDeque<char>, to: usize) -> (r: Option<(u32, u32, u32)>)
    requires
        to <= q@.len(),
    ensures
        r == match triple(q@.take(to as int)) {
            Some((a, b, c)) => Some((capped(a), capped(b), capped(c))),
            None => None,
        },
{
    let ghost s = q@.take(to as int);
    let i = find_char(q, ';', 0, to);
    if i >= to {
        return None;
    }
    let j = find_char(q, ';', i + 1, to);
    if j >= to {
        return None;
    }
    assert(s.subrange(0, i as int) =~= q@.subrange(0, i as int));
    assert(s.subrange(i + 1, j as int) =~= q@.subrange(i + 1, j as int));
    assert(s.subrange(j + 1, s.len() as int) =~= q@.subrange(j + 1, to as int));
    match (scan_number(q, 0, i), scan_number(q, i + 1, j), scan_number(q, j + 1, to)) {
        (Some(a), Some(b), Some(c)) => Some((a, b, c)),
        _ => None,
    }
}

/// Appends the decimal digits of `n` to `out`.
pub fn push_decimal(out: &mut Vec<u8>, n: u8)
    ensures
        final(out)@ == old(out)@ + digit_bytes(n as nat),
{
    let ghost before = out@;
    let ghost m = n as nat;
    proof {
        reveal_with_fuel(digits, 3);
    }
    if n >= 100 {
        out.push(0x30u8 + n / 100);
    }
    if n >= 10 {
        out.push(0x30u8 + (n / 10) % 10);
    }
    out.push(0x30u8 + n % 10);
    assert(out@ =~= before + digit_bytes(m));
}

} // verus!
