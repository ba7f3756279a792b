//! Decimal number text and fixed-point integers.
//!
//! Volumes and percentages are held as integers in a fixed unit of
//! `10^-places`: `0.6` at nine places is `600_000_000`. Number text is read
//! with an optional sign, digits with an optional decimal point, and an
//! optional exponent (`1e-6`, `2.5E+1`). Every such text is read: digits
//! past the unit are cut off (rounding toward zero), and a magnitude over
//! `LIMIT` units is held at `LIMIT`.
use vstd::arithmetic::div_mod::{lemma_basic_div, lemma_div_denominator, lemma_fundamental_div_mod, lemma_mod_pos_bound};
use vstd::prelude::*;

verus! {

/// Significant digits of mantissa that are kept; later ones are dropped.
pub const MAX_DIGITS: u32 = 36;

/// Where the counts of fraction digits and of dropped integer digits stop.
pub const COUNT_CAP: u32 = 1_000_000_000;

/// Above this, exponent digits no longer change the exponent.
pub const EXP_CAP: u32 = 100_000_000;

/// Largest magnitude of a fixed-point value; larger values saturate to it.
pub const LIMIT: u128 = 1_000_000_000_000_000_000;

/// Places of a volume: one unit is `10^-9`.
pub const VOLUME_PLACES: u32 = 9;

/// Places of a percentage delta: one unit is `10^-7` percent, which is one
/// volume unit.
pub const PERCENT_PLACES: u32 = 7;

/// One whole volume (`1.0`) in volume units.
pub const ONE: i64 = 1_000_000_000;

pub open spec fn is_digit(c: char) -> bool {
    '0' <= c && c <= '9'
}

pub open spec fn digit_val(c: char) -> int {
    c as int - '0' as int
}

pub open spec fn is_exp_mark(c: char) -> bool {
    c == 'e' || c == 'E'
}

pub open spec fn pow10(n: nat) -> nat
    decreases n,
{
    if n == 0 {
        1
    } else {
        10 * pow10((n - 1) as nat)
    }
}

/// Where the reading of a number text stands.
#[derive(PartialEq, Eq, Structural, Clone, Copy, Debug)]
pub enum Phase {
    /// Nothing read yet.
    Start,
    /// In the integer digits, or just after the sign.
    Int,
    /// After the decimal point.
    Frac,
    /// Just after `e` or `E`.
    ExpStart,
    /// Just after the exponent's sign.
    ExpSigned,
    /// In the exponent's digits.
    Exp,
    /// The text is not a number.
    Bad,
}

/// The state of a reading: what has been gathered from the text so far.
#[derive(PartialEq, Eq, Structural, Clone, Copy, Debug)]
pub struct Scan {
    pub phase: Phase,
    pub neg: bool,
    /// The kept significant digits of the mantissa, as one integer.
    pub mant: u128,
    /// How many significant digits `mant` holds.
    pub ndigits: u32,
    /// Whether any mantissa digit was read.
    pub any_digit: bool,
    /// How many fraction digits were read before the precision ran out.
    pub nfrac: u32,
    /// How many integer digits were dropped past the precision.
    pub skipped: u32,
    pub exp: u32,
    pub exp_neg: bool,
}

pub open spec fn scan_start() -> Scan {
    Scan {
        phase: Phase::Start,
        neg: false,
        mant: 0,
        ndigits: 0,
        any_digit: false,
        nfrac: 0,
        skipped: 0,
        exp: 0,
        exp_neg: false,
    }
}

pub open spec fn with_phase(s: Scan, p: Phase) -> Scan {
    Scan { phase: p, ..s }
}

/// `n + 1`, stopping at `COUNT_CAP`.
pub open spec fn count_up(n: u32) -> u32 {
    if n >= COUNT_CAP {
        n
    } else {
        (n + 1) as u32
    }
}

/// Reads a mantissa digit; `frac` says whether it follows the point. A
/// leading zero only moves the point; a digit past the kept precision is
/// dropped, and where it is an integer digit it still scales the value.
pub open spec fn push_digit(s: Scan, c: char, p: Phase, frac: bool) -> Scan {
    if s.mant == 0 && digit_val(c) == 0 {
        Scan { phase: p, any_digit: true, nfrac: if frac { count_up(s.nfrac) } else { s.nfrac }, ..s }
    } else if s.ndigits >= MAX_DIGITS {
        Scan {
            phase: p,
            any_digit: true,
            skipped: if frac { s.skipped } else { count_up(s.skipped) },
            ..s
        }
    } else {
        Scan {
            phase: p,
            any_digit: true,
            mant: (s.mant * 10 + digit_val(c)) as u128,
            ndigits: (s.ndigits + 1) as u32,
            nfrac: if frac { count_up(s.nfrac) } else { s.nfrac },
            ..s
        }
    }
}

/// Reads an exponent digit.
pub open spec fn push_exp_digit(s: Scan, c: char) -> Scan {
    Scan {
        phase: Phase::Exp,
        exp: if s.exp > EXP_CAP { s.exp } else { (s.exp * 10 + digit_val(c)) as u32 },
        ..s
    }
}

/// Reads one more character.
pub open spec fn step(s: Scan, c: char) -> Scan {
    match s.phase {
        Phase::Start => if c == '+' || c == '-' {
            Scan { phase: Phase::Int, neg: c == '-', ..s }
        } else if c == '.' {
            with_phase(s, Phase::Frac)
        } else if is_digit(c) {
            push_digit(s, c, Phase::Int, false)
        } else {
            with_phase(s, Phase::Bad)
        },
        Phase::Int => if is_digit(c) {
            push_digit(s, c, Phase::Int, false)
        } else if c == '.' {
            with_phase(s, Phase::Frac)
        } else if is_exp_mark(c) && s.any_digit {
            with_phase(s, Phase::ExpStart)
        } else {
            with_phase(s, Phase::Bad)
        },
        Phase::Frac => if is_digit(c) {
            push_digit(s, c, Phase::Frac, true)
        } else if is_exp_mark(c) && s.any_digit {
            with_phase(s, Phase::ExpStart)
        } else {
            with_phase(s, Phase::Bad)
        },
        Phase::ExpStart => if c == '+' || c == '-' {
            Scan { phase: Phase::ExpSigned, exp_neg: c == '-', ..s }
        } else if is_digit(c) {
            push_exp_digit(s, c)
        } else {
            with_phase(s, Phase::Bad)
        },
        Phase::ExpSigned | Phase::Exp => if is_digit(c) {
            push_exp_digit(s, c)
        } else {
            with_phase(s, Phase::Bad)
        },
        Phase::Bad => s,
    }
}

/// The state after reading all of `t`, left to right.
pub open spec fn scan(t: Seq<char>) -> Scan
    decreases t.len(),
{
    if t.len() == 0 {
        scan_start()
    } else {
        step(scan(t.drop_last()), t.last())
    }
}

/// A whole number text was read: an optional sign, digits with at most one
/// decimal point and at least one digit, then optionally `e` or `E`, an
/// optional sign and at least one digit.
pub open spec fn scan_complete(s: Scan) -> bool {
    ((s.phase == Phase::Int || s.phase == Phase::Frac) && s.any_digit) || s.phase == Phase::Exp
}

/// `m` moved `k` decimal places: multiplied by `10^k`, or for a negative `k`
/// divided by `10^-k` with the remainder dropped.
pub open spec fn shift(m: nat, k: int) -> nat {
    if k >= 0 {
        m * pow10(k as nat)
    } else {
        m / pow10((-k) as nat)
    }
}

/// How far the kept mantissa moves to give units of `10^-places`.
pub open spec fn shift_of(s: Scan, places: nat) -> int {
    places + (if s.exp_neg { -(s.exp as int) } else { s.exp as int }) - s.nfrac + s.skipped
}

/// `m`, held at most `LIMIT`.
pub open spec fn saturate(m: nat) -> nat {
    if m > LIMIT {
        LIMIT as nat
    } else {
        m
    }
}

/// The value of a number text in units of `10^-places`, cut toward zero and
/// held within `[-LIMIT, LIMIT]`; `None` where the text is no number.
pub open spec fn decimal_value(t: Seq<char>, places: nat) -> Option<int> {
    let s = scan(t);
    let m = saturate(shift(s.mant as nat, shift_of(s, places)));
    if !scan_complete(s) {
        None
    } else if s.neg {
        Some(-m)
    } else {
        Some(m as int)
    }
}

pub open spec fn scan_wf(s: Scan) -> bool {
    &&& s.ndigits <= MAX_DIGITS
    &&& s.mant < pow10(s.ndigits as nat)
    &&& s.nfrac <= COUNT_CAP
    &&& s.skipped <= COUNT_CAP
    &&& s.exp <= EXP_CAP * 10 + 9
}

proof fn lemma_pow10_bounds()
    ensures
        pow10(MAX_DIGITS as nat) <= 1_000_000_000_000_000_000_000_000_000_000_000_000,
{
    reveal_with_fuel(pow10, 37);
}

pub proof fn lemma_pow10_18()
    ensures
        pow10(18) == 1_000_000_000_000_000_000,
        pow10(9) == 1_000_000_000,
        pow10(7) == 10_000_000,
{
    reveal_with_fuel(pow10, 19);
}

pub proof fn lemma_pow10_positive(n: nat)
    ensures
        pow10(n) >= 1,
    decreases n,
{
    if n > 0 {
        lemma_pow10_positive((n - 1) as nat);
    }
}

pub proof fn lemma_pow10_monotone(a: nat, b: nat)
    requires
        a <= b,
    ensures
        pow10(a) <= pow10(b),
    decreases b,
{
    if a < b {
        lemma_pow10_monotone(a, (b - 1) as nat);
        lemma_pow10_positive((b - 1) as nat);
    }
}

fn is_digit_exec(c: char) -> (r: bool)
    ensures
        r == is_digit(c),
{
    '0' <= c && c <= '9'
}

fn count_up_exec(n: u32) -> (r: u32)
    ensures
        r == count_up(n),
{
    if n >= COUNT_CAP {
        n
    } else {
        n + 1
    }
}

fn push_digit_exec(s: Scan, c: char, p: Phase, frac: bool) -> (r: Scan)
    requires
        scan_wf(s),
        is_digit(c),
    ensures
        r == push_digit(s, c, p, frac),
        scan_wf(r),
{
    let d = (c as u32 - '0' as u32) as u128;
    if s.mant == 0 && d == 0 {
        Scan {
            phase: p,
            any_digit: true,
            nfrac: if frac {
                count_up_exec(s.nfrac)
            } else {
                s.nfrac
            },
            ..s
        }
    } else if s.ndigits >= MAX_DIGITS {
        Scan {
            phase: p,
            any_digit: true,
            skipped: if frac {
                s.skipped
            } else {
                count_up_exec(s.skipped)
            },
            ..s
        }
    } else {
        proof {
            lemma_pow10_bounds();
            lemma_pow10_monotone((s.ndigits + 1) as nat, MAX_DIGITS as nat);
            assert(s.mant * 10 + digit_val(c) < pow10((s.ndigits + 1) as nat)) by (nonlinear_arith)
                requires
                    s.mant < pow10(s.ndigits as nat),
                    pow10((s.ndigits + 1) as nat) == 10 * pow10(s.ndigits as nat),
                    0 <= digit_val(c) < 10,
            ;
        }
        Scan {
            phase: p,
            any_digit: true,
            mant: s.mant * 10 + d,
            ndigits: s.ndigits + 1,
            nfrac: if frac {
                count_up_exec(s.nfrac)
            } else {
                s.nfrac
            },
            ..s
        }
    }
}

fn push_exp_digit_exec(s: Scan, c: char) -> (r: Scan)
    requires
        scan_wf(s),
        is_digit(c),
    ensures
        r == push_exp_digit(s, c),
        scan_wf(r),
{
    let d = c as u32 - '0' as u32;
    Scan {
        phase: Phase::Exp,
        exp: if s.exp > EXP_CAP {
            s.exp
        } else {
            s.exp * 10 + d
        },
        ..s
    }
}

fn step_exec(s: Scan, c: char) -> (r: Scan)
    requires
        scan_wf(s),
    ensures
        r == step(s, c),
        scan_wf(r),
{
    let bad = Scan { phase: Phase::Bad, ..s };
    match s.phase {
        Phase::Start => if c == '+' || c == '-' {
            Scan { phase: Phase::Int, neg: c == '-', ..s }
        } else if c == '.' {
            Scan { phase: Phase::Frac, ..s }
        } else if is_digit_exec(c) {
            push_digit_exec(s, c, Phase::Int, false)
        } else {
            bad
        },
        Phase::Int => if is_digit_exec(c) {
            push_digit_exec(s, c, Phase::Int, false)
        } else if c == '.' {
            Scan { phase: Phase::Frac, ..s }
        } else if (c == 'e' || c == 'E') && s.any_digit {
            Scan { phase: Phase::ExpStart, ..s }
        } else {
            bad
        },
        Phase::Frac => if is_digit_exec(c) {
            push_digit_exec(s, c, Phase::Frac, true)
        } else if (c == 'e' || c == 'E') && s.any_digit {
            Scan { phase: Phase::ExpStart, ..s }
        } else {
            bad
        },
        Phase::ExpStart => if c == '+' || c == '-' {
            Scan { phase: Phase::ExpSigned, exp_neg: c == '-', ..s }
        } else if is_digit_exec(c) {
            push_exp_digit_exec(s, c)
        } else {
            bad
        },
        Phase::ExpSigned | Phase::Exp => if is_digit_exec(c) {
            push_exp_digit_exec(s, c)
        } else {
            bad
        },
        Phase::Bad => s,
    }
}

/// Reads the characters `from..to` of `t`.
fn scan_range(t: &str, from: usize, to: usize) -> (r: Scan)
    requires
        from <= to <= t@.len(),
    ensures
        r == scan(t@.subrange(from as int, to as int)),
        scan_wf(r),
{
    let mut s = Scan {
        phase: Phase::Start,
        neg: false,
        mant: 0,
        ndigits: 0,
        any_digit: false,
        nfrac: 0,
        skipped: 0,
        exp: 0,
        exp_neg: false,
    };
    let mut i: usize = from;
    proof {
        assert(t@.subrange(from as int, from as int).len() == 0);
        reveal_with_fuel(pow10, 1);
    }
    while i < to
        invariant
            from <= i <= to <= t@.len(),
            s == scan(t@.subrange(from as int, i as int)),
            scan_wf(s),
        decreases to - i,
    {
        let c = t.get_char(i);
        s = step_exec(s, c);
        proof {
            let next = t@.subrange(from as int, i + 1);
            assert(next.drop_last() =~= t@.subrange(from as int, i as int));
        }
        i = i + 1;
    }
    s
}

/// `m` moved `k` places, held at most `LIMIT`.
fn shift_exec(m: u128, k: i64) -> (r: u128)
    ensures
        r == saturate(shift(m as nat, k as int)),
{
    let mut cur: u128 = m;
    let mut j: u64 = 0;
    if k >= 0 {
        let n = k as u64;
        proof {
            lemma_pow10_positive(n as nat);
        }
        assert(pow10(0) == 1);
        assert(m * pow10(0) == m);
        if cur > LIMIT {
            proof {
                assert(m * pow10(n as nat) >= m) by (nonlinear_arith)
                    requires
                        pow10(n as nat) >= 1,
                ;
            }
            return LIMIT;
        }
        while j < n
            invariant
                j <= n,
                n == k,
                cur == m * pow10(j as nat),
                cur <= LIMIT,
            decreases n - j,
        {
            proof {
                assert(m * pow10((j + 1) as nat) == cur * 10) by (nonlinear_arith)
                    requires
                        cur == m * pow10(j as nat),
                        pow10((j + 1) as nat) == 10 * pow10(j as nat),
                ;
            }
            cur = cur * 10;
            j = j + 1;
            if cur > LIMIT {
                proof {
                    lemma_pow10_monotone(j as nat, n as nat);
                    assert(m * pow10(n as nat) >= m * pow10(j as nat)) by (nonlinear_arith)
                        requires
                            pow10(n as nat) >= pow10(j as nat),
                    ;
                }
                return LIMIT;
            }
        }
        cur
    } else {
        let n: u64 = if k == i64::MIN {
            i64::MAX as u64 + 1
        } else {
            (-k) as u64
        };
        assert(pow10(0) == 1);
        assert(m as nat / pow10(0) == m);
        while j < n && cur > 0
            invariant
                j <= n,
                n == -k,
                cur == m as nat / pow10(j as nat),
            decreases n - j,
        {
            proof {
                lemma_pow10_positive(j as nat);
                lemma_div_denominator(m as int, pow10(j as nat) as int, 10);
                assert(pow10(j as nat) * 10 == pow10((j + 1) as nat));
            }
            cur = cur / 10;
            j = j + 1;
        }
        if j < n {
            proof {
                lemma_pow10_positive(j as nat);
                lemma_fundamental_div_mod(m as int, pow10(j as nat) as int);
                lemma_mod_pos_bound(m as int, pow10(j as nat) as int);
                let p = pow10(j as nat) as int;
                assert(cur == 0);
                assert((m as int) / p == 0);
                assert(p * ((m as int) / p) == 0);
                assert(m < pow10(j as nat));
                lemma_pow10_monotone(j as nat, n as nat);
                lemma_basic_div(m as int, pow10(n as nat) as int);
            }
        }
        if cur > LIMIT {
            LIMIT
        } else {
            cur
        }
    }
}

/// The value of the characters `from..to` of `t`, as `decimal_value` gives it.
fn decimal_value_range(t: &str, from: usize, to: usize, places: u32) -> (r: Option<i64>)
    requires
        from <= to <= t@.len(),
    ensures
        r matches Some(v) ==> decimal_value(t@.subrange(from as int, to as int), places as nat)
            == Some(v as int),
        r is None ==> decimal_value(t@.subrange(from as int, to as int), places as nat) is None,
{
    let s = scan_range(t, from, to);
    let complete = ((s.phase == Phase::Int || s.phase == Phase::Frac) && s.any_digit) || s.phase
        == Phase::Exp;
    if !complete {
        return None;
    }
    let e: i64 = if s.exp_neg {
        -(s.exp as i64)
    } else {
        s.exp as i64
    };
    let k: i64 = places as i64 + e - s.nfrac as i64 + s.skipped as i64;
    let m = shift_exec(s.mant, k);
    if s.neg {
        Some(-(m as i64))
    } else {
        Some(m as i64)
    }
}

/// The value of the number text `t` in units of `10^-places`.
pub fn parse_decimal(t: &str, places: u32) -> (r: Option<i64>)
    ensures
        r matches Some(v) ==> decimal_value(t@, places as nat) == Some(v as int),
        r is None ==> decimal_value(t@, places as nat) is None,
{
    let n = t.unicode_len();
    proof {
        assert(t@.subrange(0, n as int) =~= t@);
    }
    decimal_value_range(t, 0, n, places)
}

/// The value of a percentage text such as `+1%` or `-0.5%`: a number text
/// followed by `%`, in units of `10^-7` percent.
pub open spec fn percent_value(t: Seq<char>) -> Option<int> {
    if t.len() > 0 && t.last() == '%' {
        decimal_value(t.drop_last(), PERCENT_PLACES as nat)
    } else {
        None
    }
}

/// Reads a percentage delta such as `+1%`, `-0.5%` or `12.25%`.
pub fn parse_percentage(value: &str) -> (r: Option<i64>)
    ensures
        r matches Some(v) ==> percent_value(value@) == Some(v as int),
        r is None ==> percent_value(value@) is None,
{
    let n = value.unicode_len();
    if n == 0 || value.get_char(n - 1) != '%' {
        return None;
    }
    proof {
        assert(value@.subrange(0, n - 1) =~= value@.drop_last());
    }
    decimal_value_range(value, 0, n - 1, PERCENT_PLACES)
}

/// Whether `value` is a decimal percentage: a number text followed by `%`.
pub fn is_decimal_percentage(value: &str) -> (r: bool)
    ensures
        r == percent_value(value@) is Some,
{
    parse_percentage(value).is_some()
}

} // verus!
