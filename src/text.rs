//! Writing integers and fixed-point values as decimal text.
use crate::fixed::pow10;
use vstd::prelude::*;

verus! {

pub open spec fn digit_char(d: nat) -> char {
    ((d as u8) + 48u8) as char
}

/// The decimal digits of `n`, without leading zeros.
pub open spec fn nat_text(n: nat) -> Seq<char>
    decreases n,
{
    if n < 10 {
        seq![digit_char(n)]
    } else {
        nat_text(n / 10).push(digit_char(n % 10))
    }
}

/// `n` in decimal, with `-` before a negative value.
pub open spec fn int_text(n: int) -> Seq<char> {
    if n < 0 {
        seq!['-'] + nat_text((-n) as nat)
    } else {
        nat_text(n as nat)
    }
}

/// The last `w` decimal digits of `n`, with leading zeros.
pub open spec fn padded(n: nat, w: nat) -> Seq<char>
    decreases w,
{
    if w == 0 {
        seq![]
    } else {
        padded(n / 10, (w - 1) as nat).push(digit_char(n % 10))
    }
}

/// `s` without its trailing zeros, keeping the first character.
pub open spec fn trim_zeros(s: Seq<char>) -> Seq<char>
    decreases s.len(),
{
    if s.len() > 1 && s.last() == '0' {
        trim_zeros(s.drop_last())
    } else {
        s
    }
}

/// The fixed-point value `n` at `places` places as decimal text, with at
/// least one digit after the point: `0.6`, `1.0`, `-0.25`.
pub open spec fn fixed_text(n: int, places: nat) -> Seq<char> {
    let a: nat = if n < 0 { (-n) as nat } else { n as nat };
    let sign = if n < 0 { seq!['-'] } else { seq![] };
    sign + nat_text(a / pow10(places)) + seq!['.'] + trim_zeros(padded(a % pow10(places), places))
}

/// Relies on `String`'s `FromIterator<char>`: the characters in order.
#[verifier::external_body]
pub fn string_of(chars: &Vec<char>) -> (r: String)
    ensures
        r@ == chars@,
{
    chars.iter().collect::<String>()
}

/// Appends the characters of `lit`.
pub fn push_str(out: &mut Vec<char>, lit: &str)
    ensures
        final(out)@ == old(out)@ + lit@,
{
    let n = lit.unicode_len();
    let mut i: usize = 0;
    while i < n
        invariant
            n == lit@.len(),
            i <= n,
            out@ == old(out)@ + lit@.subrange(0, i as int),
        decreases n - i,
    {
        let c = lit.get_char(i);
        out.push(c);
        proof {
            assert(lit@.subrange(0, i + 1) =~= lit@.subrange(0, i as int).push(c));
        }
        i = i + 1;
    }
    proof {
        assert(lit@.subrange(0, n as int) =~= lit@);
    }
}

fn digit_exec(d: u128) -> (c: char)
    requires
        d < 10,
    ensures
        c == digit_char(d as nat),
{
    ((d as u8) + 48u8) as char
}

/// Appends the decimal digits of `n`.
pub fn push_nat(out: &mut Vec<char>, n: u128)
    ensures
        final(out)@ == old(out)@ + nat_text(n as nat),
    decreases n,
{
    if n < 10 {
        out.push(digit_exec(n));
        assert(out@ =~= old(out)@ + nat_text(n as nat));
    } else {
        push_nat(out, n / 10);
        out.push(digit_exec(n % 10));
        assert(out@ =~= old(out)@ + nat_text(n as nat));
    }
}

/// Appends `n` in decimal.
pub fn push_int(out: &mut Vec<char>, n: i128)
    ensures
        final(out)@ == old(out)@ + int_text(n as int),
{
    if n < 0 {
        out.push('-');
        let a: u128 = if n == i128::MIN {
            i128::MAX as u128 + 1
        } else {
            (-n) as u128
        };
        push_nat(out, a);
        assert(out@ =~= old(out)@ + int_text(n as int));
    } else {
        push_nat(out, n as u128);
    }
}

fn push_padded(out: &mut Vec<char>, n: u128, w: u32)
    ensures
        final(out)@ == old(out)@ + padded(n as nat, w as nat),
    decreases w,
{
    if w > 0 {
        push_padded(out, n / 10, w - 1);
        out.push(digit_exec(n % 10));
        assert(out@ =~= old(out)@ + padded(n as nat, w as nat));
    } else {
        assert(out@ =~= old(out)@ + padded(n as nat, w as nat));
    }
}

/// Appends the fixed-point value `n` at `places` places.
pub fn push_fixed(out: &mut Vec<char>, n: i64, places: u32)
    requires
        1 <= places <= 18,
    ensures
        final(out)@ == old(out)@ + fixed_text(n as int, places as nat),
{
    let a: u64 = if n == i64::MIN {
        i64::MAX as u64 + 1
    } else if n < 0 {
        (-n) as u64
    } else {
        n as u64
    };
    let mut unit: u64 = 1;
    let mut j: u32 = 0;
    assert(pow10(0) == 1);
    while j < places
        invariant
            j <= places <= 18,
            unit == pow10(j as nat),
            unit >= 1,
        decreases places - j,
    {
        proof {
            crate::fixed::lemma_pow10_monotone((j + 1) as nat, 18);
            crate::fixed::lemma_pow10_18();
        }
        unit = unit * 10;
        j = j + 1;
    }
    if n < 0 {
        out.push('-');
    }
    push_nat(out, (a / unit) as u128);
    out.push('.');
    let mut frac: Vec<char> = Vec::new();
    push_padded(&mut frac, (a % unit) as u128, places);
    while frac.len() > 1 && frac[frac.len() - 1] == '0'
        invariant
            trim_zeros(frac@) == trim_zeros(padded((a % unit) as nat, places as nat)),
        decreases frac.len(),
    {
        let ghost prev = frac@;
        frac.pop();
        proof {
            assert(frac@ =~= prev.drop_last());
        }
    }
    let ghost before = out@;
    let mut i: usize = 0;
    while i < frac.len()
        invariant
            i <= frac@.len(),
            out@ == before + frac@.subrange(0, i as int),
        decreases frac.len() - i,
    {
        out.push(frac[i]);
        proof {
            assert(frac@.subrange(0, i + 1) =~= frac@.subrange(0, i as int).push(frac@[i as int]));
        }
        i = i + 1;
    }
    proof {
        assert(frac@.subrange(0, frac@.len() as int) =~= frac@);
        assert(trim_zeros(frac@) == frac@);
        assert(out@ =~= old(out)@ + fixed_text(n as int, places as nat));
    }
}

} // verus!
