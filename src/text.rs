//! Decimal rendering of integers, fixed-point quotients and byte sizes.
use vstd::prelude::*;
use vstd::string::*;

verus! {

/// The decimal digit `d` (for `0 <= d < 10`) as a character.
pub open spec fn digit_char(d: int) -> char {
    if d == 0 {
        '0'
    } else if d == 1 {
        '1'
    } else if d == 2 {
        '2'
    } else if d == 3 {
        '3'
    } else if d == 4 {
        '4'
    } else if d == 5 {
        '5'
    } else if d == 6 {
        '6'
    } else if d == 7 {
        '7'
    } else if d == 8 {
        '8'
    } else {
        '9'
    }
}

/// The decimal text of a natural number, without leading zeros.
pub open spec fn nat_text(n: nat) -> Seq<char>
    decreases n,
{
    if n < 10 {
        seq![digit_char(n as int)]
    } else {
        nat_text(n / 10).push(digit_char((n % 10) as int))
    }
}

/// The decimal text of an integer, with a leading `-` when it is negative.
pub open spec fn int_text(n: int) -> Seq<char> {
    if n < 0 {
        seq!['-'] + nat_text((-n) as nat)
    } else {
        nat_text(n as nat)
    }
}

pub open spec fn abs(x: int) -> nat {
    if x < 0 {
        (-x) as nat
    } else {
        x as nat
    }
}

/// `num / den` rounded to the nearest integer, ties to the even neighbour.
pub open spec fn round_half_even(num: nat, den: nat) -> nat {
    let q = num / den;
    let r = num % den;
    if 2 * r > den {
        q + 1
    } else if 2 * r < den {
        q
    } else if q % 2 == 0 {
        q
    } else {
        q + 1
    }
}

/// A magnitude given in hundredths, written with two decimals and an optional sign.
pub open spec fn fixed2_text(neg: bool, hundredths: nat) -> Seq<char> {
    (if neg {
        seq!['-']
    } else {
        Seq::<char>::empty()
    }) + nat_text(hundredths / 100) + seq![
        '.',
        digit_char(((hundredths % 100) / 10) as int),
        digit_char((hundredths % 10) as int),
    ]
}

/// The quotient `num / den` written with two decimals, as a binary floating-point
/// division of the two integers would print it: the exact quotient rounded half to
/// even, a sign kept on a negative zero, and `inf`, `-inf` or `NaN` for a zero divisor.
pub open spec fn ratio_text(num: int, den: int) -> Seq<char> {
    if den == 0 {
        if num > 0 {
            "inf"@
        } else if num < 0 {
            "-inf"@
        } else {
            "NaN"@
        }
    } else {
        fixed2_text(
            if num == 0 {
                den < 0
            } else {
                (num < 0) != (den < 0)
            },
            round_half_even(100 * abs(num), abs(den)),
        )
    }
}

/// `1024` to the power `k`.
pub open spec fn pow1024(k: nat) -> nat
    decreases k,
{
    if k == 0 {
        1
    } else {
        1024 * pow1024((k - 1) as nat)
    }
}

/// How many times a size of `b` bytes is divided by 1024 before it is shown, starting
/// from `k` divisions: as long as the quotient is at least 1024 and a larger unit exists.
pub open spec fn unit_steps(b: int, k: nat) -> nat
    decreases 8 - k,
{
    if k < 8 && b >= pow1024(k + 1) {
        unit_steps(b, k + 1)
    } else {
        k
    }
}

/// The name of the unit reached after `k` divisions by 1024.
pub open spec fn unit_name(k: nat) -> Seq<char> {
    if k == 0 {
        "B"@
    } else if k == 1 {
        "KB"@
    } else if k == 2 {
        "MB"@
    } else if k == 3 {
        "GB"@
    } else if k == 4 {
        "TB"@
    } else if k == 5 {
        "PB"@
    } else if k == 6 {
        "EB"@
    } else if k == 7 {
        "ZB"@
    } else {
        "YB"@
    }
}

/// A byte count in the largest binary unit that keeps it at 1 or more: whole bytes
/// as an integer, larger units with two decimals (`"512 B"`, `"1.50 KB"`).
pub open spec fn pretty_bytes_text(b: int) -> Seq<char> {
    let k = unit_steps(b, 0);
    if k == 0 {
        int_text(b) + " "@ + unit_name(0)
    } else {
        ratio_text(b, pow1024(k) as int) + " "@ + unit_name(k)
    }
}

/// Relies on String::push: the character is appended at the end.
#[verifier::external_body]
pub(crate) fn push_char(s: &mut String, c: char)
    ensures
        final(s)@ == old(s)@.push(c),
{
    s.push(c);
}

fn digit_of(d: u128) -> (c: char)
    requires
        d < 10,
    ensures
        c == digit_char(d as int),
{
    if d == 0 {
        '0'
    } else if d == 1 {
        '1'
    } else if d == 2 {
        '2'
    } else if d == 3 {
        '3'
    } else if d == 4 {
        '4'
    } else if d == 5 {
        '5'
    } else if d == 6 {
        '6'
    } else if d == 7 {
        '7'
    } else if d == 8 {
        '8'
    } else {
        '9'
    }
}

/// Appends the decimal text of `n`.
pub fn push_nat(s: &mut String, n: u128)
    ensures
        final(s)@ == old(s)@ + nat_text(n as nat),
    decreases n,
{
    if n >= 10 {
        push_nat(s, n / 10);
    }
    push_char(s, digit_of(n % 10));
    assert(s@ =~= old(s)@ + nat_text(n as nat));
}

/// Appends the decimal text of `n`, with a `-` when it is negative.
pub fn push_int(s: &mut String, n: i64)
    ensures
        final(s)@ == old(s)@ + int_text(n as int),
{
    if n < 0 {
        push_char(s, '-');
        let m: i128 = -(n as i128);
        push_nat(s, m as u128);
        assert(s@ =~= old(s)@ + int_text(n as int));
    } else {
        push_nat(s, n as u128);
    }
}

/// Appends `num / den` with two decimals, as `ratio_text` describes it.
pub fn push_ratio(s: &mut String, num: i128, den: i128)
    requires
        -0x10000000000000000000000000 <= num <= 0x10000000000000000000000000,
        -0x10000000000000000000000000 <= den <= 0x10000000000000000000000000,
    ensures
        final(s)@ == old(s)@ + ratio_text(num as int, den as int),
{
    if den == 0 {
        if num > 0 {
            s.append("inf");
        } else if num < 0 {
            s.append("-inf");
        } else {
            s.append("NaN");
        }
    } else {
        let neg: bool = if num == 0 {
            den < 0
        } else {
            (num < 0) != (den < 0)
        };
        let n: u128 = if num < 0 {
            (-num) as u128
        } else {
            num as u128
        };
        let d: u128 = if den < 0 {
            (-den) as u128
        } else {
            den as u128
        };
        let scaled: u128 = 100 * n;
        let q: u128 = scaled / d;
        let r: u128 = scaled % d;
        assert(q <= scaled) by (nonlinear_arith)
            requires
                d >= 1,
                q == scaled / d,
        ;
        let mag: u128 = if 2 * r > d {
            q + 1
        } else if 2 * r < d {
            q
        } else if q % 2 == 0 {
            q
        } else {
            q + 1
        };
        assert(mag == round_half_even(100 * abs(num as int), abs(den as int)));
        let ghost start = s@;
        if neg {
            push_char(s, '-');
        }
        push_nat(s, mag / 100);
        push_char(s, '.');
        push_char(s, digit_of((mag % 100) / 10));
        push_char(s, digit_of(mag % 10));
        assert(s@ =~= start + fixed2_text(neg, mag as nat));
    }
}

fn unit_str(k: usize) -> (r: &'static str)
    requires
        k <= 8,
    ensures
        r@ == unit_name(k as nat),
{
    if k == 0 {
        "B"
    } else if k == 1 {
        "KB"
    } else if k == 2 {
        "MB"
    } else if k == 3 {
        "GB"
    } else if k == 4 {
        "TB"
    } else if k == 5 {
        "PB"
    } else if k == 6 {
        "EB"
    } else if k == 7 {
        "ZB"
    } else {
        "YB"
    }
}

proof fn lemma_pow1024_bounds(k: nat)
    requires
        k <= 8,
    ensures
        1 <= pow1024(k) <= 0x100000000000000000000,
{
    assert(pow1024(0) == 1);
    assert(pow1024(1) == 0x400);
    assert(pow1024(2) == 0x100000);
    assert(pow1024(3) == 0x40000000);
    assert(pow1024(4) == 0x10000000000);
    assert(pow1024(5) == 0x4000000000000);
    assert(pow1024(6) == 0x1000000000000000);
    assert(pow1024(7) == 0x400000000000000000);
    assert(pow1024(8) == 0x100000000000000000000);
}

/// Appends `bytes` in the unit that `pretty_bytes_text` picks.
pub fn push_pretty_bytes(s: &mut String, bytes: i64)
    ensures
        final(s)@ == old(s)@ + pretty_bytes_text(bytes as int),
{
    let mut k: usize = 0;
    let mut p: i128 = 1;
    while k < 8 && (bytes as i128) >= p * 1024
        invariant
            k <= 8,
            p == pow1024(k as nat),
            1 <= p <= 0x100000000000000000000,
            unit_steps(bytes as int, 0) == unit_steps(bytes as int, k as nat),
        decreases 8 - k,
    {
        proof {
            lemma_pow1024_bounds((k + 1) as nat);
            assert(pow1024((k + 1) as nat) == 1024 * pow1024(k as nat));
        }
        p = p * 1024;
        k = k + 1;
    }
    proof {
        lemma_pow1024_bounds(k as nat);
    }
    if k == 0 {
        push_int(s, bytes);
        s.append(" ");
        s.append(unit_str(0));
    } else {
        push_ratio(s, bytes as i128, p);
        s.append(" ");
        s.append(unit_str(k));
    }
}

/// The size in the largest binary unit that keeps it at 1 or more, e.g. `"1.50 KB"`.
pub fn bytes_to_pretty_string(bytes: i64) -> (r: String)
    ensures
        r@ == pretty_bytes_text(bytes as int),
{
    let mut s = String::new();
    push_pretty_bytes(&mut s, bytes);
    assert(s@ =~= pretty_bytes_text(bytes as int));
    s
}

proof fn lemma_unit_steps_at_least(b: int, k: nat)
    requires
        k <= 8,
    ensures
        k <= unit_steps(b, k) <= 8,
    decreases 8 - k,
{
    if k < 8 && b >= pow1024(k + 1) {
        lemma_unit_steps_at_least(b, k + 1);
    }
}

/// A larger byte count is never shown in a smaller unit.
pub proof fn law_unit_monotone(a: int, b: int)
    requires
        a <= b,
    ensures
        unit_steps(a, 0) <= unit_steps(b, 0),
{
    lemma_unit_monotone_from(a, b, 0);
}

proof fn lemma_unit_monotone_from(a: int, b: int, k: nat)
    requires
        a <= b,
        k <= 8,
    ensures
        unit_steps(a, k) <= unit_steps(b, k),
    decreases 8 - k,
{
    if k < 8 {
        if a >= pow1024(k + 1) {
            lemma_unit_monotone_from(a, b, k + 1);
        } else if b >= pow1024(k + 1) {
            lemma_unit_steps_at_least(b, k + 1);
        }
    }
}

} // verus!
