//! The capabilities of a terminal.
//!
//! A terminfo entry names the byte strings that make a terminal do things:
//! `clear` to clear the screen, `cup` to move the cursor. Some of them hold
//! parameters, written in a small stack language, and must be expanded
//! before they are sent. The entry and the expansion come from the `term`
//! crate; this module states what the encoder relies on.
//!
//! The expansion of `term` stops the program on some strings: one that
//! divides by zero, one that asks for parameter 0, one whose sums or
//! products leave the range of its numbers, one that asks for a field wider
//! than memory. [`expandable`] is a test on the bytes of a string that rules
//! these out, and [`can_expand`] computes it, so that the encoder expands
//! what is safe to expand.
//!
//! The test rests on how `term` reads a string. It reads each byte once,
//! from left to right. It computes only at the byte after a `%` that it read
//! as the start of an operation, so a string without `%*` never multiplies.
//! It reads the digits of a width or a precision only in an unbroken run of
//! format bytes behind a `%`, the digits of a constant only behind `%{`, and
//! a character as a number only behind `%'`. And `%{n}%/` with no `%` before
//! it cannot be read in any other way than as pushing `n` and dividing by
//! it, nor `%p3%/` in any other way than as dividing by the third parameter.

use vstd::prelude::*;
use term::terminfo::TermInfo;
use term::terminfo::parm::{expand, Param, Variables};

verus! {

/// A terminfo entry, as `term` holds it.
#[verifier::external_type_specification]
#[verifier::external_body]
pub struct ExTermInfo(TermInfo);

/// The error of an expansion, as `term` reports it.
#[verifier::external_type_specification]
#[verifier::external_body]
pub struct ExParmError(term::terminfo::parm::Error);

/// The string capabilities of an entry by name: the field `strings`.
pub uninterp spec fn cap_strings(info: TermInfo) -> Map<Seq<char>, Seq<u8>>;

/// The names of the terminal of an entry: the field `names`.
pub uninterp spec fn term_names(info: TermInfo) -> Seq<Seq<char>>;

/// What `expand` of `term` makes of the string `cap` with the numbers
/// `params` as parameters and all variables zero; `None` where it reports an
/// error.
pub uninterp spec fn expansion(cap: Seq<u8>, params: Seq<i32>) -> Option<Seq<u8>>;

/// The most digits that the width or the precision of a format may have.
pub const DIGITS_MAX: usize = 4;

/// The bits that the code of a character takes at most.
pub const CHAR_BITS: u32 = 8;

/// The bits of the numbers of the interpreter, the sign not counted.
pub const NUMBER_BITS: u32 = 31;

pub open spec fn is_digit_byte(b: u8) -> bool {
    0x30 <= b <= 0x39
}

/// A byte that a format may hold before its letter: a digit or one of
/// `:`, `#`, a space, `.`, `-` and `+`.
pub open spec fn is_format_byte(b: u8) -> bool {
    is_digit_byte(b) || b == 0x3a || b == 0x23 || b == 0x20 || b == 0x2e || b == 0x2d || b
        == 0x2b
}

/// `%/` or `%m`: a division or a remainder.
pub open spec fn is_division(a: u8, b: u8) -> bool {
    a == 0x25 && (b == 0x2f || b == 0x6d)
}

/// `%*`: a product.
pub open spec fn is_product(a: u8, b: u8) -> bool {
    a == 0x25 && b == 0x2a
}

/// `%+`, `%-` or `%i`: a sum, a difference or an increment.
pub open spec fn is_sum(a: u8, b: u8) -> bool {
    a == 0x25 && (b == 0x2b || b == 0x2d || b == 0x69)
}

/// `%p0`: parameter 0, which does not exist.
pub open spec fn is_param_zero(cap: Seq<u8>, i: int) -> bool {
    0 <= i && i + 2 < cap.len() && cap[i] == 0x25 && cap[i + 1] == 0x70 && cap[i + 2] == 0x30
}

/// How many of the first `n` bytes of `cap` begin a sum.
pub open spec fn sums(cap: Seq<u8>, n: int) -> nat
    decreases n,
{
    if n <= 0 {
        0
    } else {
        sums(cap, n - 1) + if n < cap.len() && is_sum(cap[n - 1], cap[n]) {
            1nat
        } else {
            0nat
        }
    }
}

/// How many of the first `n` bytes of `cap` begin a product.
pub open spec fn products(cap: Seq<u8>, n: int) -> nat
    decreases n,
{
    if n <= 0 {
        0
    } else {
        products(cap, n - 1) + if n < cap.len() && is_product(cap[n - 1], cap[n]) {
            1nat
        } else {
            0nat
        }
    }
}

/// Whether byte `j` of `cap` may belong to a format: it is a format byte,
/// and format bytes and nothing else stand between it and a `%`.
pub open spec fn in_format(cap: Seq<u8>, j: int) -> bool
    decreases j,
{
    1 <= j < cap.len() && is_format_byte(cap[j]) && (cap[j - 1] == 0x25 || in_format(cap, j - 1))
}

/// How many digits of a format stand in a row right before place `n`.
pub open spec fn format_run(cap: Seq<u8>, n: int) -> nat
    decreases n,
{
    if 1 <= n <= cap.len() && is_digit_byte(cap[n - 1]) && in_format(cap, n - 1) {
        format_run(cap, n - 1) + 1
    } else {
        0
    }
}

/// Whether byte `j` of `cap` may be a digit of a constant: it is a digit,
/// and digits and nothing else stand between it and `%{`.
pub open spec fn in_constant(cap: Seq<u8>, j: int) -> bool
    decreases j,
{
    2 <= j < cap.len() && is_digit_byte(cap[j]) && ((cap[j - 1] == 0x7b && cap[j - 2] == 0x25)
        || in_constant(cap, j - 1))
}

/// How many digits of a constant stand in a row right before place `n`.
pub open spec fn constant_run(cap: Seq<u8>, n: int) -> nat
    decreases n,
{
    if 1 <= n <= cap.len() && in_constant(cap, n - 1) {
        constant_run(cap, n - 1) + 1
    } else {
        0
    }
}

/// The digits of the longest constant among the first `n` bytes of `cap`.
pub open spec fn constant_digits(cap: Seq<u8>, n: int) -> nat
    decreases n,
{
    if n <= 0 {
        0
    } else if constant_run(cap, n) >= constant_digits(cap, n - 1) {
        constant_run(cap, n)
    } else {
        constant_digits(cap, n - 1)
    }
}

/// Where the run of digits begins that ends right before place `e`.
pub open spec fn run_start(cap: Seq<u8>, e: int) -> int
    decreases e,
{
    if 0 < e <= cap.len() && is_digit_byte(cap[e - 1]) {
        run_start(cap, e - 1)
    } else {
        e
    }
}

/// Whether the division that begins at byte `i` of `cap` divides by a
/// constant that is not zero: `%{`, digits that are not all zero and `}`
/// stand right before it, and no `%` before them.
pub open spec fn divides_by_constant(cap: Seq<u8>, i: int) -> bool {
    let s = run_start(cap, i - 1);
    &&& 4 <= i <= cap.len()
    &&& cap[i - 1] == 0x7d
    &&& 2 <= s
    &&& cap[s - 1] == 0x7b
    &&& cap[s - 2] == 0x25
    &&& (s == 2 || cap[s - 3] != 0x25)
    &&& exists|d: int| s <= d < i - 1 && #[trigger] cap[d] != 0x30
}

/// Whether the division that begins at byte `i` of `cap` divides by a
/// parameter that is positive: `%p` and the digit of a parameter that is
/// there and above zero stand right before it, and no `%` before them.
pub open spec fn divides_by_parameter(cap: Seq<u8>, params: Seq<i32>, i: int) -> bool {
    &&& 3 <= i <= cap.len()
    &&& cap[i - 3] == 0x25
    &&& cap[i - 2] == 0x70
    &&& 0x31 <= cap[i - 1] <= 0x39
    &&& (i == 3 || cap[i - 4] != 0x25)
    &&& cap[i - 1] - 0x31 < params.len()
    &&& params[cap[i - 1] - 0x31] >= 1
}

/// Whether a `%'`, which begins a character taken as a number, stands among
/// the first `n` bytes of `cap`.
pub open spec fn holds_character(cap: Seq<u8>, n: int) -> bool
    decreases n,
{
    n > 0 && (holds_character(cap, n - 1) || (n < cap.len() && cap[n - 1] == 0x25 && cap[n]
        == 0x27))
}

/// The bits that the number `m` takes.
pub open spec fn bits_of(m: nat) -> nat
    decreases m,
{
    if m == 0 {
        0
    } else {
        1 + bits_of(m / 2)
    }
}

/// The bits that a parameter takes, the sign not counted: the least `a` with
/// `-2^a <= p < 2^a`.
pub open spec fn param_bits(p: i32) -> nat {
    if p >= 0 {
        bits_of(p as nat)
    } else {
        bits_of((-(p as int) - 1) as nat)
    }
}

/// The bits of the largest of the first `n` parameters.
pub open spec fn params_bits(params: Seq<i32>, n: int) -> nat
    decreases n,
{
    if n <= 0 {
        0
    } else if param_bits(params[n - 1]) >= params_bits(params, n - 1) {
        param_bits(params[n - 1])
    } else {
        params_bits(params, n - 1)
    }
}

/// The bits that a constant of `digits` digits takes at most: four for each
/// digit, and never more than a number has.
pub open spec fn digits_bits(digits: nat) -> nat {
    if digits >= 8 {
        NUMBER_BITS as nat
    } else {
        4 * digits
    }
}

/// The bits that the numbers take at most that `cap` starts from, other
/// than its parameters and constants: the code of a character where it
/// holds one, and else the one bit of a truth value.
pub open spec fn least_bits(cap: Seq<u8>) -> nat {
    if holds_character(cap, cap.len() as int) {
        CHAR_BITS as nat
    } else {
        1
    }
}

/// The bits that the numbers take at most that `cap` computes with: its
/// parameters, its constants, the codes of characters and truth values.
pub open spec fn atom_bits(cap: Seq<u8>, params: Seq<i32>) -> nat {
    let p = params_bits(params, params.len() as int);
    let c = digits_bits(constant_digits(cap, cap.len() as int));
    let l = least_bits(cap);
    if p >= c && p >= l {
        p
    } else if c >= l {
        c
    } else {
        l
    }
}

/// Whether no sum and no product of `cap` can leave the range of a number.
/// A sum takes at most one bit more than the larger of its two numbers, and
/// a product at most one bit more than both together. So after all sums and
/// then all products, which is the worst order, a number takes no more than
/// `(bits + sums + 1) * 2^products - 1` bits. A division makes no number
/// larger, nor does an operation on bits.
pub open spec fn in_range(cap: Seq<u8>, params: Seq<i32>) -> bool {
    let s = sums(cap, cap.len() as int);
    let m = products(cap, cap.len() as int);
    (atom_bits(cap, params) + s + 1) * two_to(m) <= NUMBER_BITS + 1
}

/// Whether `expand` can be called on `cap` and `params`:
/// - `cap` does not ask for parameter 0;
/// - it divides only by constants that are not zero and by parameters that
///   are positive;
/// - no width and no precision of a format has more than `DIGITS_MAX`
///   digits;
/// - its sums and products stay within the range of a number.
pub open spec fn expandable(cap: Seq<u8>, params: Seq<i32>) -> bool {
    &&& forall|i: int| 0 <= i < cap.len() ==> !#[trigger] is_param_zero(cap, i)
    &&& forall|i: int|
        0 <= i && i + 1 < cap.len() && is_division(#[trigger] cap[i], cap[i + 1])
            ==> divides_by_constant(cap, i) || divides_by_parameter(cap, params, i)
    &&& forall|i: int| 0 <= i <= cap.len() ==> #[trigger] format_run(cap, i) <= DIGITS_MAX
    &&& in_range(cap, params)
}

/// Two to the power of `k`.
pub open spec fn two_to(k: nat) -> nat
    decreases k,
{
    if k == 0 {
        1
    } else {
        2 * two_to((k - 1) as nat)
    }
}

/// A larger power of two is a larger number.
pub proof fn lemma_two_to_grows(j: nat, k: nat)
    requires
        j <= k,
    ensures
        two_to(j) <= two_to(k),
    decreases k,
{
    if j < k {
        lemma_two_to_grows(j, (k - 1) as nat);
    }
}

/// A number below two to the power of `k` takes no more than `k` bits.
pub proof fn lemma_bits_bound(m: nat, k: nat)
    requires
        m < two_to(k),
    ensures
        bits_of(m) <= k,
    decreases k,
{
    if m > 0 {
        lemma_bits_bound(m / 2, (k - 1) as nat);
    }
}

/// No parameter takes more bits than a number has.
pub proof fn lemma_params_bits_bound(params: Seq<i32>, n: int)
    ensures
        params_bits(params, n) <= NUMBER_BITS,
    decreases n,
{
    if n > 0 {
        lemma_params_bits_bound(params, n - 1);
        let p = params[n - 1];
        assert(two_to(31) == 0x8000_0000) by {
            reveal_with_fuel(two_to, 32);
        }
        if p >= 0 {
            lemma_bits_bound(p as nat, 31);
        } else {
            lemma_bits_bound((-(p as int) - 1) as nat, 31);
        }
    }
}

/// A string that holds no `%` computes nothing and formats nothing.
pub proof fn lemma_plain_string(cap: Seq<u8>, n: int)
    requires
        forall|i: int| 0 <= i < cap.len() ==> cap[i] != 0x25,
    ensures
        sums(cap, n) == 0,
        products(cap, n) == 0,
        !in_format(cap, n),
        format_run(cap, n) == 0,
        !in_constant(cap, n),
        constant_run(cap, n) == 0,
        constant_digits(cap, n) == 0,
        !holds_character(cap, n),
    decreases n,
{
    if n > 0 {
        lemma_plain_string(cap, n - 1);
    }
}

/// A string without sums and products stays within the range of a number,
/// whatever its parameters are.
pub proof fn law_in_range_without_arithmetic(cap: Seq<u8>, params: Seq<i32>)
    requires
        sums(cap, cap.len() as int) == 0,
        products(cap, cap.len() as int) == 0,
    ensures
        in_range(cap, params),
{
    lemma_params_bits_bound(params, params.len() as int);
    let a = atom_bits(cap, params);
    assert(a <= NUMBER_BITS);
    assert(two_to(0) == 1);
    assert((a + 0 + 1) * 1 == a + 1) by (nonlinear_arith);
}

/// A string that holds no `%`, which is every capability that takes no
/// parameters on most terminals, can be expanded with any parameters.
pub proof fn law_plain_string_is_expandable(cap: Seq<u8>, params: Seq<i32>)
    requires
        forall|i: int| 0 <= i < cap.len() ==> cap[i] != 0x25,
    ensures
        expandable(cap, params),
{
    lemma_plain_string(cap, cap.len() as int);
    law_in_range_without_arithmetic(cap, params);
    assert forall|i: int| 0 <= i <= cap.len() implies #[trigger] format_run(cap, i)
        <= DIGITS_MAX by {
        lemma_plain_string(cap, i);
    }
}

/// The bits that `m` takes.
fn bits(m: u32) -> (b: u32)
    ensures
        b == bits_of(m as nat),
{
    let mut rest: u32 = m;
    let mut count: u32 = 0;
    while rest > 0
        invariant
            count + bits_of(rest as nat) == bits_of(m as nat),
            count <= m - rest,
        decreases rest,
    {
        rest = rest / 2;
        count += 1;
    }
    count
}

/// The bits of the largest parameter.
fn bits_of_params(params: &[i32]) -> (b: u32)
    ensures
        b == params_bits(params@, params@.len() as int),
{
    let mut k: usize = 0;
    let mut most: u32 = 0;
    while k < params.len()
        invariant
            k <= params@.len(),
            most == params_bits(params@, k as int),
        decreases params@.len() - k,
    {
        let p = params[k];
        let size: u32 = if p >= 0 {
            p as u32
        } else {
            (-(p + 1)) as u32
        };
        let b = bits(size);
        if b >= most {
            most = b;
        }
        k += 1;
    }
    most
}

/// Whether the division that begins at byte `i` divides by a parameter that
/// is positive.
fn divisor_is_positive(cap: &[u8], params: &[i32], i: usize) -> (b: bool)
    requires
        i < cap@.len(),
    ensures
        b == divides_by_parameter(cap@, params@, i as int),
{
    if i < 3 || cap[i - 3] != 0x25 || cap[i - 2] != 0x70 || cap[i - 1] < 0x31 || cap[i - 1]
        > 0x39 {
        return false;
    }
    if i > 3 && cap[i - 4] == 0x25 {
        return false;
    }
    let place: usize = (cap[i - 1] - 0x31) as usize;
    place < params.len() && params[place] >= 1
}

/// Whether the division that begins at byte `i` divides by a constant that
/// is not zero.
fn division_is_safe(cap: &[u8], i: usize) -> (b: bool)
    requires
        i < cap@.len(),
    ensures
        b == divides_by_constant(cap@, i as int),
{
    if i < 4 || cap[i - 1] != 0x7d {
        return false;
    }
    let mut j: usize = i - 1;
    let mut nonzero = false;
    while j > 0 && cap[j - 1] >= 0x30 && cap[j - 1] <= 0x39
        invariant
            j <= i - 1,
            i < cap@.len(),
            run_start(cap@, i - 1) == run_start(cap@, j as int),
            nonzero == exists|d: int| j <= d < i - 1 && #[trigger] cap@[d] != 0x30,
        decreases j,
    {
        if cap[j - 1] != 0x30 {
            nonzero = true;
        }
        j -= 1;
    }
    j >= 2 && cap[j - 1] == 0x7b && cap[j - 2] == 0x25 && (j == 2 || cap[j - 3] != 0x25)
        && nonzero
}

/// Computes `expandable`.
pub fn can_expand(cap: &[u8], params: &[i32]) -> (b: bool)
    ensures
        b == expandable(cap@, params@),
{
    let n = cap.len();
    let mut i: usize = 0;
    let mut adds: usize = 0;
    let mut muls: usize = 0;
    let mut format = false;
    let mut format_digits: usize = 0;
    let mut constant = false;
    let mut constant_len: usize = 0;
    let mut longest: usize = 0;
    let mut character = false;
    while i < n
        invariant
            i <= n == cap@.len(),
            adds == sums(cap@, i as int),
            muls == products(cap@, i as int),
            adds <= i,
            muls <= i,
            format == (i >= 1 && in_format(cap@, i - 1)),
            format_digits == format_run(cap@, i as int),
            constant == (i >= 1 && in_constant(cap@, i - 1)),
            constant_len == constant_run(cap@, i as int),
            longest == constant_digits(cap@, i as int),
            constant_len <= i,
            longest <= i,
            character == holds_character(cap@, i as int),
            forall|k: int| 0 <= k <= i ==> #[trigger] format_run(cap@, k) <= DIGITS_MAX,
            forall|k: int| 0 <= k < i ==> !#[trigger] is_param_zero(cap@, k),
            forall|k: int|
                0 <= k < i && k + 1 < n && is_division(#[trigger] cap@[k], cap@[k + 1])
                    ==> divides_by_constant(cap@, k) || divides_by_parameter(
                    cap@,
                    params@,
                    k,
                ),
        decreases n - i,
    {
        let a = cap[i];
        let digit = a >= 0x30 && a <= 0x39;
        let flag = digit || a == 0x3a || a == 0x23 || a == 0x20 || a == 0x2e || a == 0x2d || a
            == 0x2b;
        format = flag && i >= 1 && (cap[i - 1] == 0x25 || format);
        format_digits = if digit && format {
            format_digits + 1
        } else {
            0
        };
        if format_digits > DIGITS_MAX {
            assert(format_run(cap@, i + 1) > DIGITS_MAX);
            return false;
        }
        constant = digit && i >= 2 && ((cap[i - 1] == 0x7b && cap[i - 2] == 0x25) || constant);
        constant_len = if constant {
            constant_len + 1
        } else {
            0
        };
        if constant_len >= longest {
            longest = constant_len;
        }
        if i + 1 < n {
            let b = cap[i + 1];
            if a == 0x25 && b == 0x70 && i + 2 < n && cap[i + 2] == 0x30 {
                assert(is_param_zero(cap@, i as int));
                return false;
            }
            if a == 0x25 && (b == 0x2f || b == 0x6d) {
                if !division_is_safe(cap, i) && !divisor_is_positive(cap, params, i) {
                    assert(is_division(cap@[i as int], cap@[i + 1]));
                    return false;
                }
            }
            if a == 0x25 && (b == 0x2b || b == 0x2d || b == 0x69) {
                adds += 1;
            }
            if a == 0x25 && b == 0x2a {
                muls += 1;
            }
            if a == 0x25 && b == 0x27 {
                character = true;
            }
        }
        i += 1;
    }
    let from_params = bits_of_params(params);
    let from_constants: u32 = if longest >= 8 {
        NUMBER_BITS
    } else {
        4 * (longest as u32)
    };
    let least: u32 = if character {
        CHAR_BITS
    } else {
        1
    };
    let most: u32 = if from_params >= from_constants && from_params >= least {
        from_params
    } else if from_constants >= least {
        from_constants
    } else {
        least
    };
    proof {
        lemma_params_bits_bound(params@, params@.len() as int);
    }
    if muls > 5 || adds > 32 {
        proof {
            lemma_two_to_grows(0, muls as nat);
            if muls > 5 {
                lemma_two_to_grows(5, muls as nat);
                assert(two_to(5) == 32) by {
                    reveal_with_fuel(two_to, 6);
                }
            }
        }
        assert(!in_range(cap@, params@)) by (nonlinear_arith)
            requires
                adds > 32 || 2 * two_to(muls as nat) > 32,
                two_to(muls as nat) >= 1,
                atom_bits(cap@, params@) >= 1,
                adds == sums(cap@, cap@.len() as int),
                muls == products(cap@, cap@.len() as int),
        {
        }
        return false;
    }
    let after_sums: u64 = most as u64 + adds as u64 + 1;
    let mut worst: u64 = after_sums;
    let mut k: usize = 0;
    while k < muls
        invariant
            k <= muls <= 5,
            after_sums <= 64,
            two_to(k as nat) <= 32,
            worst == after_sums * two_to(k as nat),
        decreases muls - k,
    {
        proof {
            lemma_two_to_grows((k + 1) as nat, 5);
            reveal_with_fuel(two_to, 6);
            assert(after_sums * two_to((k + 1) as nat) == 2 * (after_sums * two_to(k as nat)))
                by (nonlinear_arith)
                requires
                    two_to((k + 1) as nat) == 2 * two_to(k as nat),
            ;
            assert(after_sums * two_to(k as nat) <= 64 * 32) by (nonlinear_arith)
                requires
                    after_sums <= 64,
                    two_to(k as nat) <= 32,
            ;
        }
        worst = worst + worst;
        k += 1;
    }
    worst <= NUMBER_BITS as u64 + 1
}

/// `HashMap::get` on the field `strings` of an entry: the string of the
/// capability `name`, if the entry has it.
#[verifier::external_body]
pub(crate) fn capability<'a>(info: &'a TermInfo, name: &str) -> (r: Option<&'a Vec<u8>>)
    ensures
        r is Some == cap_strings(*info).contains_key(name@),
        r matches Some(v) ==> v@ == cap_strings(*info)[name@],
{
    info.strings.get(name)
}

/// `Vec::contains` on the field `names` of an entry: whether `name` is one
/// of the names of its terminal.
#[verifier::external_body]
pub(crate) fn has_name(info: &TermInfo, name: &String) -> (r: bool)
    ensures
        r == term_names(*info).contains(name@),
{
    info.names.contains(name)
}

/// `expand` of `term`, with numbers for parameters and fresh variables. The
/// call returns what the interpreter of `term` makes of the string, which
/// depends on the string and the parameters alone. `expandable` keeps away
/// the strings on which the interpreter stops the program: it indexes its
/// parameters with the digit after `%p` less one, divides only where `%/` or
/// `%m` stands, multiplies only where `%*` stands, adds only where `%+`,
/// `%-` or `%i` stands, and makes a field as wide as the digits of a format
/// say. A constant that is too large for a number it reports as an error. A
/// parameter that is positive stays so while the sums stay in range.
#[verifier::external_body]
pub(crate) fn expand_cap(cap: &[u8], params: &[i32]) -> (r: Result<
    Vec<u8>,
    term::terminfo::parm::Error,
>)
    requires
        expandable(cap@, params@),
    ensures
        r is Ok == expansion(cap@, params@) is Some,
        r matches Ok(v) ==> expansion(cap@, params@) == Some(v@),
{
    let numbers: Vec<Param> = params.iter().map(|n| Param::Number(*n)).collect();
    expand(cap, &numbers, &mut Variables::new())
}

} // verus!
