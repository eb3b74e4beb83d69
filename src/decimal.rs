//! Decimal text for integers and fixed-point amounts.
//!
//! Prices, quantities and confidences are fixed-point numbers with eight
//! fraction digits: the integer `150_000_000` stands for `1.5`. They are written
//! in the shortest decimal form (`"1.5"`, `"2000"`) and read back strictly.
use vstd::prelude::*;
use vstd::string::*;

verus! {

/// Number of fraction digits carried by a fixed-point amount.
pub const FRACTION_DIGITS: u64 = 8;

/// The fixed-point value of one whole unit (`1.0`).
pub const ONE: u64 = 100_000_000;

/// Ten to the power `n`.
pub open spec fn pow10(n: nat) -> nat
    decreases n,
{
    if n == 0 {
        1
    } else {
        10 * pow10((n - 1) as nat)
    }
}

pub open spec fn is_digit(c: char) -> bool {
    '0' <= c && c <= '9'
}

/// The value of a decimal digit character.
pub open spec fn digit_value(c: char) -> nat {
    ((c as u32) - 48) as nat
}

/// The character of a decimal digit `d` < 10.
pub open spec fn digit_char(d: nat) -> char {
    if d == 0 {
        '0'
    } else if d == 1 {
        '1'
    } else if d == 2 {
        '2'
    } else if d == 3 {
        '3'
    } else if d == 4 {
        '4'
    } else if d == 5 {
        '5'
    } else if d == 6 {
        '6'
    } else if d == 7 {
        '7'
    } else if d == 8 {
        '8'
    } else {
        '9'
    }
}

/// Shortest decimal digits of `n`.
pub open spec fn digits_text(n: nat) -> Seq<char>
    decreases n,
{
    if n < 10 {
        seq![digit_char(n)]
    } else {
        digits_text(n / 10).push(digit_char(n % 10))
    }
}

/// The lowest `w` digits of `n`, padded with leading zeros to exactly `w` characters.
pub open spec fn padded_text(n: nat, w: nat) -> Seq<char>
    decreases w,
{
    if w == 0 {
        Seq::empty()
    } else {
        padded_text(n / 10, (w - 1) as nat).push(digit_char(n % 10))
    }
}

/// The fraction `f / 10^w` written with `w` digits and its trailing zeros dropped.
pub open spec fn fraction_text(f: nat, w: nat) -> Seq<char>
    decreases w,
{
    if w == 0 || f == 0 {
        Seq::empty()
    } else if f % 10 == 0 {
        fraction_text(f / 10, (w - 1) as nat)
    } else {
        padded_text(f, w)
    }
}

/// Shortest decimal text of the fixed-point amount `u`: `"2000"`, `"0.5"`.
pub open spec fn amount_text(u: nat) -> Seq<char> {
    let whole = digits_text(u / (ONE as nat));
    let frac = u % (ONE as nat);
    if frac == 0 {
        whole
    } else {
        whole + seq!['.'] + fraction_text(frac, FRACTION_DIGITS as nat)
    }
}

/// Decimal text of a signed integer, with a leading `-` when negative.
pub open spec fn int_text(v: int) -> Seq<char> {
    if v < 0 {
        seq!['-'] + digits_text((-v) as nat)
    } else {
        digits_text(v as nat)
    }
}

/// Decimal text of a signed fixed-point amount, with a leading `-` when negative.
pub open spec fn signed_amount_text(v: int) -> Seq<char> {
    if v < 0 {
        seq!['-'] + amount_text((-v) as nat)
    } else {
        amount_text(v as nat)
    }
}

fn digit_str(d: u128) -> (r: &'static str)
    requires
        d < 10,
    ensures
        r@ == seq![digit_char(d as nat)],
{
    proof {
        reveal_strlit("0");
        reveal_strlit("1");
        reveal_strlit("2");
        reveal_strlit("3");
        reveal_strlit("4");
        reveal_strlit("5");
        reveal_strlit("6");
        reveal_strlit("7");
        reveal_strlit("8");
        reveal_strlit("9");
    }
    if d == 0 {
        "0"
    } else if d == 1 {
        "1"
    } else if d == 2 {
        "2"
    } else if d == 3 {
        "3"
    } else if d == 4 {
        "4"
    } else if d == 5 {
        "5"
    } else if d == 6 {
        "6"
    } else if d == 7 {
        "7"
    } else if d == 8 {
        "8"
    } else {
        "9"
    }
}

fn push_digits(out: &mut String, n: u128)
    ensures
        final(out)@ == old(out)@ + digits_text(n as nat),
    decreases n,
{
    if n >= 10 {
        push_digits(out, n / 10);
    }
    out.append(digit_str(n % 10));
}

fn push_padded(out: &mut String, n: u128, w: u64)
    ensures
        final(out)@ == old(out)@ + padded_text(n as nat, w as nat),
    decreases w,
{
    if w > 0 {
        push_padded(out, n / 10, w - 1);
        out.append(digit_str(n % 10));
    }
}

fn push_fraction(out: &mut String, f: u128, w: u64)
    ensures
        final(out)@ == old(out)@ + fraction_text(f as nat, w as nat),
    decreases w,
{
    if w == 0 || f == 0 {
    } else if f % 10 == 0 {
        push_fraction(out, f / 10, w - 1);
    } else {
        push_padded(out, f, w);
    }
}

fn push_amount(out: &mut String, u: u128)
    ensures
        final(out)@ == old(out)@ + amount_text(u as nat),
{
    let one = ONE as u128;
    push_digits(out, u / one);
    let frac = u % one;
    if frac != 0 {
        proof {
            reveal_strlit(".");
        }
        out.append(".");
        push_fraction(out, frac, FRACTION_DIGITS);
    }
    proof {
        assert(final(out)@ =~= old(out)@ + amount_text(u as nat));
    }
}

/// Decimal text of an unsigned integer: `"0"`, `"1700000000000"`.
pub fn uint_to_text(n: u128) -> (r: String)
    ensures
        r@ == digits_text(n as nat),
{
    let mut s = String::new();
    push_digits(&mut s, n);
    proof {
        assert(s@ =~= digits_text(n as nat));
    }
    s
}

/// Decimal text of a signed integer: `"-42"`, `"1700000000000"`.
pub fn int_to_text(v: i64) -> (r: String)
    ensures
        r@ == int_text(v as int),
{
    let mut s = String::new();
    if v < 0 {
        proof {
            reveal_strlit("-");
        }
        s.append("-");
        let m: u128 = (0i128 - v as i128) as u128;
        push_digits(&mut s, m);
    } else {
        push_digits(&mut s, v as u128);
    }
    proof {
        assert(s@ =~= int_text(v as int));
    }
    s
}

/// Shortest decimal text of a fixed-point amount: `150_000_000` gives `"1.5"`.
pub fn amount_to_text(u: u64) -> (r: String)
    ensures
        r@ == amount_text(u as nat),
{
    let mut s = String::new();
    push_amount(&mut s, u as u128);
    proof {
        assert(s@ =~= amount_text(u as nat));
    }
    s
}

/// Shortest decimal text of a signed fixed-point amount: `-2_000_000_000` gives `"-20"`.
pub fn signed_amount_to_text(v: i128) -> (r: String)
    ensures
        r@ == signed_amount_text(v as int),
{
    let mut s = String::new();
    if v < 0 {
        proof {
            reveal_strlit("-");
        }
        s.append("-");
        push_amount(&mut s, (0 - (v + 1)) as u128 + 1);
    } else {
        push_amount(&mut s, v as u128);
    }
    proof {
        assert(s@ =~= signed_amount_text(v as int));
    }
    s
}

/// Magnitude, in fixed-point, above which the amount reader gives up; it is
/// beyond what a `u64` or an `i128` holds.
pub const AMOUNT_READ_BOUND: u128 = 200_000_000_000_000_000_000_000_000_000_000_000_000;

/// Whole part above which the amount reader gives up.
const WHOLE_LIMIT: u128 = 2_000_000_000_000_000_000_000_000_000_000;

/// One or more decimal digits and nothing else.
pub open spec fn is_digits(s: Seq<char>) -> bool {
    s.len() > 0 && forall|i: int| 0 <= i < s.len() ==> is_digit(#[trigger] s[i])
}

/// Value of a sequence of decimal digits, most significant first.
pub open spec fn digits_value(s: Seq<char>) -> nat
    decreases s.len(),
{
    if s.len() == 0 {
        0
    } else {
        digits_value(s.drop_last()) * 10 + digit_value(s.last())
    }
}

/// Value of an unsigned decimal integer text; leading zeros are allowed.
pub open spec fn uint_value(s: Seq<char>) -> Option<nat> {
    if is_digits(s) {
        Some(digits_value(s))
    } else {
        None
    }
}

/// Value of a signed decimal integer text.
pub open spec fn int_value(s: Seq<char>) -> Option<int> {
    if s.len() > 0 && s[0] == '-' {
        match uint_value(s.drop_first()) {
            Some(n) => Some(-n),
            None => None,
        }
    } else {
        match uint_value(s) {
            Some(n) => Some(n as int),
            None => None,
        }
    }
}

/// Fixed-point value of an unsigned decimal text: digits, optionally followed
/// by a point and one to eight fraction digits.
pub open spec fn amount_value(s: Seq<char>) -> Option<nat> {
    match s.index_of_first('.') {
        None => if is_digits(s) {
            Some(digits_value(s) * (ONE as nat))
        } else {
            None
        },
        Some(i) => {
            let whole = s.subrange(0, i);
            let frac = s.subrange(i + 1, s.len() as int);
            if is_digits(whole) && is_digits(frac) && frac.len() <= FRACTION_DIGITS {
                Some(
                    digits_value(whole) * (ONE as nat) + digits_value(frac) * pow10(
                        (FRACTION_DIGITS - frac.len()) as nat,
                    ),
                )
            } else {
                None
            }
        },
    }
}

/// Fixed-point value of a signed decimal text.
pub open spec fn signed_amount_value(s: Seq<char>) -> Option<int> {
    if s.len() > 0 && s[0] == '-' {
        match amount_value(s.drop_first()) {
            Some(n) => Some(-n),
            None => None,
        }
    } else {
        match amount_value(s) {
            Some(n) => Some(n as int),
            None => None,
        }
    }
}

proof fn lemma_digits_value_grows(s: Seq<char>, i: int, j: int)
    requires
        0 <= i <= j <= s.len(),
    ensures
        digits_value(s.subrange(0, i)) <= digits_value(s.subrange(0, j)),
    decreases j - i,
{
    if i < j {
        lemma_digits_value_grows(s, i, j - 1);
        assert(s.subrange(0, j).drop_last() =~= s.subrange(0, j - 1));
    }
}

/// Reads the digits `s[from..to]`; `None` unless they are all digits, at least
/// one, with a value of at most `limit`.
fn read_digits(s: &str, from: usize, to: usize, limit: u128) -> (r: Option<u128>)
    requires
        from <= to <= s@.len(),
        limit <= 10_000_000_000_000_000_000_000_000_000_000_000_000,
    ensures
        ({
            let t = s@.subrange(from as int, to as int);
            &&& r is Some <==> (is_digits(t) && digits_value(t) <= limit)
            &&& r is Some ==> r->0 == digits_value(t)
        }),
{
    if from == to {
        return None;
    }
    let ghost t = s@.subrange(from as int, to as int);
    let mut v: u128 = 0;
    let mut i: usize = from;
    while i < to
        invariant
            from <= i <= to <= s@.len(),
            t == s@.subrange(from as int, to as int),
            v <= limit,
            limit <= 10_000_000_000_000_000_000_000_000_000_000_000_000,
            v == digits_value(s@.subrange(from as int, i as int)),
            forall|k: int| from <= k < i ==> is_digit(#[trigger] s@[k]),
        decreases to - i,
    {
        let c = s.get_char(i);
        if !('0' <= c && c <= '9') {
            proof {
                assert(t[i - from] == c);
            }
            return None;
        }
        let d = (c as u32 - 48) as u128;
        proof {
            assert(s@.subrange(from as int, i + 1).drop_last() =~= s@.subrange(
                from as int,
                i as int,
            ));
        }
        v = v * 10 + d;
        i = i + 1;
        if v > limit {
            proof {
                assert(t.subrange(0, i - from) =~= s@.subrange(from as int, i as int));
                assert(t.subrange(0, t.len() as int) =~= t);
                lemma_digits_value_grows(t, i - from, t.len() as int);
            }
            return None;
        }
    }
    proof {
        assert(s@.subrange(from as int, i as int) =~= t);
        assert forall|k: int| 0 <= k < t.len() implies is_digit(#[trigger] t[k]) by {
            assert(t[k] == s@[from + k]);
        }
    }
    Some(v)
}

/// Reads an unsigned decimal integer.
pub fn parse_uint(s: &str) -> (r: Option<u64>)
    ensures
        r is Some <==> (uint_value(s@) is Some && uint_value(s@)->0 <= u64::MAX),
        r is Some ==> r->0 == uint_value(s@)->0,
{
    let n = s.unicode_len();
    proof {
        assert(s@.subrange(0, n as int) =~= s@);
    }
    match read_digits(s, 0, n, u64::MAX as u128) {
        Some(v) => Some(v as u64),
        None => None,
    }
}

/// Reads a signed decimal integer such as `"-42"`.
pub fn parse_int(s: &str) -> (r: Option<i64>)
    ensures
        r is Some <==> (int_value(s@) is Some && i64::MIN <= int_value(s@)->0 <= i64::MAX),
        r is Some ==> r->0 == int_value(s@)->0,
{
    let n = s.unicode_len();
    if n > 0 && s.get_char(0) == '-' {
        proof {
            assert(s@.subrange(1, n as int) =~= s@.drop_first());
        }
        match read_digits(s, 1, n, 9_223_372_036_854_775_808) {
            Some(v) => Some((0i128 - v as i128) as i64),
            None => None,
        }
    } else {
        proof {
            assert(s@.subrange(0, n as int) =~= s@);
        }
        match read_digits(s, 0, n, i64::MAX as u128) {
            Some(v) => Some(v as i64),
            None => None,
        }
    }
}

fn pow10_exec(n: u64) -> (r: u128)
    requires
        n <= FRACTION_DIGITS,
    ensures
        r == pow10(n as nat),
        r <= ONE,
    decreases n,
{
    if n == 0 {
        1
    } else {
        let p = pow10_exec(n - 1);
        proof {
            lemma_pow10_below((n - 1) as u64);
        }
        10 * p
    }
}

proof fn lemma_pow10_below(n: u64)
    requires
        n < FRACTION_DIGITS,
    ensures
        pow10(n as nat) * 10 <= ONE,
    decreases n,
{
    reveal_with_fuel(pow10, 9);
}

/// Reads the magnitude of a fixed-point amount from `s[from..]`.
fn read_amount(s: &str, from: usize) -> (r: Option<u128>)
    requires
        from <= s@.len(),
    ensures
        ({
            let t = s@.subrange(from as int, s@.len() as int);
            &&& r is Some ==> amount_value(t) == Some(r->0 as nat)
            &&& r is None ==> (amount_value(t) is None || amount_value(t)->0
                > AMOUNT_READ_BOUND)
        }),
{
    let n = s.unicode_len();
    let ghost t = s@.subrange(from as int, n as int);
    let mut i: usize = from;
    while i < n && s.get_char(i) != '.'
        invariant
            from <= i <= n == s@.len(),
            t == s@.subrange(from as int, n as int),
            forall|k: int| from <= k < i ==> s@[k] != '.',
        decreases n - i,
    {
        i = i + 1;
    }
    proof {
        t.index_of_first_ensures('.');
    }
    if i == n {
        proof {
            assert forall|k: int| 0 <= k < t.len() implies t[k] != '.' by {
                assert(t[k] == s@[from + k]);
            }
            assert(!t.contains('.'));
            if is_digits(t) && digits_value(t) > WHOLE_LIMIT {
                lemma_whole_too_large(digits_value(t), 0);
            }
        }
        match read_digits(s, from, n, WHOLE_LIMIT) {
            Some(w) => Some(w * (ONE as u128)),
            None => None,
        }
    } else {
        let ghost j = i - from;
        let ghost whole = t.subrange(0, j);
        let ghost frac = t.subrange(j + 1, t.len() as int);
        proof {
            assert(t[j] == '.');
            assert(t.contains('.'));
            let k = t.index_of_first('.')->0;
            if k < j {
                assert(t[k] == s@[from + k]);
            }
            assert(k == j);
            assert(whole =~= s@.subrange(from as int, i as int));
            assert(frac =~= s@.subrange(i + 1, n as int));
        }
        if n - (i + 1) > FRACTION_DIGITS as usize {
            return None;
        }
        let w = read_digits(s, from, i, WHOLE_LIMIT);
        let f = read_digits(s, i + 1, n, ONE as u128);
        proof {
            if is_digits(frac) {
                lemma_fraction_digits_bound(frac);
                lemma_pow10_monotone(frac.len(), FRACTION_DIGITS as nat);
            }
        }
        match (w, f) {
            (Some(w), Some(f)) => {
                let p = pow10_exec(FRACTION_DIGITS - (n - (i + 1)) as u64);
                proof {
                    assert(f * p <= ONE * ONE) by (nonlinear_arith)
                        requires
                            f <= ONE,
                            p <= ONE,
                    ;
                }
                Some(w * (ONE as u128) + f * p)
            },
            _ => {
                proof {
                    if is_digits(whole) && digits_value(whole) > WHOLE_LIMIT {
                        lemma_whole_too_large(
                            digits_value(whole),
                            digits_value(frac) * pow10((FRACTION_DIGITS - frac.len()) as nat),
                        );
                    }
                }
                None
            },
        }
    }
}

proof fn lemma_whole_too_large(w: nat, rest: nat)
    requires
        w > WHOLE_LIMIT,
    ensures
        w * (ONE as nat) + rest > AMOUNT_READ_BOUND,
{
    assert(w * (ONE as nat) >= (WHOLE_LIMIT + 1) * (ONE as nat)) by (nonlinear_arith)
        requires
            w >= WHOLE_LIMIT + 1,
    ;
}

proof fn lemma_pow10_monotone(a: nat, b: nat)
    requires
        a <= b,
    ensures
        pow10(a) <= pow10(b),
        b == FRACTION_DIGITS ==> pow10(b) == ONE,
    decreases b,
{
    if a < b {
        lemma_pow10_monotone(a, (b - 1) as nat);
    }
    reveal_with_fuel(pow10, 9);
}

proof fn lemma_fraction_digits_bound(s: Seq<char>)
    requires
        is_digits(s),
    ensures
        digits_value(s) < pow10(s.len()),
    decreases s.len(),
{
    let p = s.drop_last();
    let d = digit_value(s.last());
    assert(is_digit(s[s.len() - 1]));
    assert(d < 10);
    assert(digits_value(s) == digits_value(p) * 10 + d);
    assert(pow10(s.len()) == 10 * pow10(p.len()));
    if s.len() == 1 {
        assert(p.len() == 0);
        assert(digits_value(p) == 0);
        assert(pow10(0) == 1);
    } else {
        assert forall|k: int| 0 <= k < p.len() implies is_digit(#[trigger] p[k]) by {
            assert(p[k] == s[k]);
        }
        lemma_fraction_digits_bound(p);
        let a = digits_value(p);
        let b = pow10(p.len());
        assert(a * 10 + d < b * 10) by (nonlinear_arith)
            requires
                a < b,
                d < 10,
        ;
    }
}

/// Reads an unsigned fixed-point amount such as `"0.5"` or `"2000"`.
pub fn parse_amount(s: &str) -> (r: Option<u64>)
    ensures
        r is Some <==> (amount_value(s@) is Some && amount_value(s@)->0 <= u64::MAX),
        r is Some ==> r->0 == amount_value(s@)->0,
{
    proof {
        assert(s@.subrange(0, s@.len() as int) =~= s@);
    }
    match read_amount(s, 0) {
        Some(v) => if v <= u64::MAX as u128 {
            Some(v as u64)
        } else {
            None
        },
        None => None,
    }
}

/// Reads a signed fixed-point amount such as `"-20"`, within the range of `i128`.
pub fn parse_signed_amount(s: &str) -> (r: Option<i128>)
    ensures
        r is Some <==> (signed_amount_value(s@) is Some && i128::MIN <= signed_amount_value(
            s@,
        )->0 <= i128::MAX),
        r is Some ==> r->0 == signed_amount_value(s@)->0,
{
    let n = s.unicode_len();
    let neg = n > 0 && s.get_char(0) == '-';
    let from: usize = if neg {
        1
    } else {
        0
    };
    proof {
        if neg {
            assert(s@.subrange(1, n as int) =~= s@.drop_first());
        } else {
            assert(s@.subrange(0, n as int) =~= s@);
        }
    }
    match read_amount(s, from) {
        Some(v) => if neg {
            if v == 0 {
                Some(0)
            } else if v - 1 > i128::MAX as u128 {
                None
            } else {
                Some(0 - ((v - 1) as i128) - 1)
            }
        } else if v > i128::MAX as u128 {
            None
        } else {
            Some(v as i128)
        },
        None => None,
    }
}

proof fn lemma_digits_text(n: nat)
    ensures
        is_digits(digits_text(n)),
        digits_value(digits_text(n)) == n,
    decreases n,
{
    let t = digits_text(n);
    if n < 10 {
        assert(t.drop_last().len() == 0);
        assert(digits_value(t.drop_last()) == 0);
        assert(t.last() == digit_char(n));
        assert(digit_value(digit_char(n)) == n);
    } else {
        lemma_digits_text(n / 10);
        assert(t.drop_last() =~= digits_text(n / 10));
        assert(t.last() == digit_char(n % 10));
        assert(digit_value(digit_char(n % 10)) == n % 10);
        assert(n == (n / 10) * 10 + n % 10);
        assert forall|i: int| 0 <= i < t.len() implies is_digit(#[trigger] t[i]) by {
            if i < t.len() - 1 {
                assert(t[i] == digits_text(n / 10)[i]);
            }
        }
    }
}

proof fn lemma_padded_text(n: nat, w: nat)
    ensures
        padded_text(n, w).len() == w,
        forall|i: int| 0 <= i < w ==> is_digit(#[trigger] padded_text(n, w)[i]),
        digits_value(padded_text(n, w)) == n % pow10(w),
    decreases w,
{
    if w > 0 {
        let p = (w - 1) as nat;
        let t = padded_text(n, w);
        lemma_padded_text(n / 10, p);
        assert(t.drop_last() =~= padded_text(n / 10, p));
        assert(digit_value(digit_char(n % 10)) == n % 10);
        assert forall|i: int| 0 <= i < w implies is_digit(#[trigger] t[i]) by {
            if i < w - 1 {
                assert(t[i] == padded_text(n / 10, p)[i]);
            }
        }
        lemma_pow10_positive(p);
        let q = pow10(p);
        assert((n / 10) % q * 10 + n % 10 == n % (10 * q)) by (nonlinear_arith)
            requires
                q > 0,
        {
            vstd::arithmetic::div_mod::lemma_breakdown(n as int, 10, q as int);
        }
    }
}

proof fn lemma_pow10_positive(n: nat)
    ensures
        pow10(n) > 0,
    decreases n,
{
    if n > 0 {
        lemma_pow10_positive((n - 1) as nat);
    }
}

proof fn lemma_fraction_text(f: nat, w: nat)
    requires
        0 < f < pow10(w),
    ensures
        1 <= fraction_text(f, w).len() <= w,
        is_digits(fraction_text(f, w)),
        digits_value(fraction_text(f, w)) * pow10((w - fraction_text(f, w).len()) as nat) == f,
    decreases w,
{
    let t = fraction_text(f, w);
    if w == 0 {
        assert(pow10(0) == 1);
    } else if f % 10 == 0 {
        let p = (w - 1) as nat;
        assert(pow10(w) == 10 * pow10(p));
        assert(f / 10 < pow10(p));
        assert(f / 10 > 0);
        lemma_fraction_text(f / 10, p);
        let l = t.len();
        let q = pow10((p - l) as nat);
        assert(((w - l) as nat - 1) as nat == (p - l) as nat);
        assert(pow10((w - l) as nat) == 10 * q);
        let v = digits_value(t);
        assert(t == fraction_text(f / 10, p));
        assert(v * q == f / 10);
        assert(v * (10 * q) == (v * q) * 10) by (nonlinear_arith);
        assert(v * pow10((w - l) as nat) == v * (10 * q));
        assert(f == (f / 10) * 10);
    } else {
        lemma_padded_text(f, w);
        assert(f % pow10(w) == f) by {
            vstd::arithmetic::div_mod::lemma_small_mod(f, pow10(w));
        }
        assert(t == padded_text(f, w));
        assert(pow10(0) == 1);
        assert(digits_value(t) * pow10(0) == digits_value(t));
    }
}

/// Reading a written amount gives it back.
pub proof fn lemma_amount_round_trip(u: nat)
    ensures
        amount_value(amount_text(u)) == Some(u),
{
    let one = ONE as nat;
    let w = u / one;
    let f = u % one;
    let whole = digits_text(w);
    lemma_digits_text(w);
    assert(u == w * one + f) by {
        vstd::arithmetic::div_mod::lemma_fundamental_div_mod(u as int, one as int);
    }
    let s = amount_text(u);
    assert forall|i: int| 0 <= i < whole.len() implies whole[i] != '.' by {
        assert(is_digit(whole[i]));
    }
    if f == 0 {
        assert(!s.contains('.'));
        s.index_of_first_ensures('.');
    } else {
        lemma_pow10_monotone(FRACTION_DIGITS as nat, FRACTION_DIGITS as nat);
        lemma_fraction_text(f, FRACTION_DIGITS as nat);
        let frac = fraction_text(f, FRACTION_DIGITS as nat);
        let k = whole.len() as int;
        assert(s == whole + seq!['.'] + frac);
        assert(s[k] == '.');
        assert(s.contains('.'));
        s.index_of_first_ensures('.');
        let i = s.index_of_first('.')->0;
        if i < k {
            assert(s[i] == whole[i]);
        }
        assert(i == k);
        assert(s.subrange(0, k) =~= whole);
        assert(s.subrange(k + 1, s.len() as int) =~= frac);
    }
}

/// Reading a written integer gives it back.
pub proof fn lemma_int_round_trip(v: int)
    ensures
        int_value(int_text(v)) == Some(v),
{
    if v < 0 {
        let t = digits_text((-v) as nat);
        lemma_digits_text((-v) as nat);
        assert((seq!['-'] + t).drop_first() =~= t);
    } else {
        let t = digits_text(v as nat);
        lemma_digits_text(v as nat);
        assert(is_digit(t[0]));
    }
}

/// Reading a written signed amount gives it back.
pub proof fn lemma_signed_amount_round_trip(v: int)
    ensures
        signed_amount_value(signed_amount_text(v)) == Some(v),
{
    if v < 0 {
        let t = amount_text((-v) as nat);
        lemma_amount_round_trip((-v) as nat);
        assert((seq!['-'] + t).drop_first() =~= t);
    } else {
        let t = amount_text(v as nat);
        lemma_amount_round_trip(v as nat);
        let w = digits_text(v as nat / (ONE as nat));
        lemma_digits_text(v as nat / (ONE as nat));
        assert(t[0] == w[0]);
        assert(is_digit(w[0]));
    }
}

} // verus!
