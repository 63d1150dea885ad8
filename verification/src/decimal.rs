//! Integers written in decimal.

use vstd::prelude::*;

verus! {

/// The character of the decimal digit `d`.
pub open spec fn digit_char(d: nat) -> char {
    if d == 0 {
        '0'
    } else if d == 1 {
        '1'
    } else if d == 2 {
        '2'
    } else if d == 3 {
        '3'
    } else if d == 4 {
        '4'
    } else if d == 5 {
        '5'
    } else if d == 6 {
        '6'
    } else if d == 7 {
        '7'
    } else if d == 8 {
        '8'
    } else {
        '9'
    }
}

/// The decimal digits of `n`, most significant first, without leading zeros.
pub open spec fn decimal(n: nat) -> Seq<char>
    decreases n,
{
    if n < 10 {
        seq![digit_char(n)]
    } else {
        decimal(n / 10).push(digit_char(n % 10))
    }
}

/// The decimal form of a signed integer: a minus sign before the digits of
/// a negative one.
pub open spec fn signed_decimal(n: int) -> Seq<char> {
    if n < 0 {
        seq!['-'] + decimal((-n) as nat)
    } else {
        decimal(n as nat)
    }
}

/// The digits that are still to come for `m`: none for zero.
pub open spec fn leading(m: nat) -> Seq<char> {
    if m > 0 {
        decimal(m)
    } else {
        Seq::empty()
    }
}

/// The one-character string of a decimal digit.
fn digit_str(d: u8) -> (r: &'static str)
    requires
        d < 10,
    ensures
        r@ == seq![digit_char(d as nat)],
{
    proof {
        reveal_strlit("0");
        reveal_strlit("1");
        reveal_strlit("2");
        reveal_strlit("3");
        reveal_strlit("4");
        reveal_strlit("5");
        reveal_strlit("6");
        reveal_strlit("7");
        reveal_strlit("8");
        reveal_strlit("9");
    }
    let r = match d {
        0 => "0",
        1 => "1",
        2 => "2",
        3 => "3",
        4 => "4",
        5 => "5",
        6 => "6",
        7 => "7",
        8 => "8",
        _ => "9",
    };
    assert(r@ =~= seq![digit_char(d as nat)]);
    r
}

/// Appends the decimal digits of `n` to `out`.
pub fn push_decimal(out: &mut String, n: u64)
    ensures
        final(out)@ == old(out)@ + decimal(n as nat),
{
    let mut digits: Vec<u8> = Vec::new();
    digits.push((n % 10) as u8);
    let mut m: u64 = n / 10;
    let ghost mut tail: Seq<char> = seq![digit_char((n % 10) as nat)];
    assert(decimal(n as nat) =~= leading(m as nat) + tail);
    while m > 0
        invariant
            decimal(n as nat) == leading(m as nat) + tail,
            tail.len() == digits.len(),
            digits.len() >= 1,
            forall|k: int| 0 <= k < digits.len() ==> (#[trigger] digits[k]) < 10,
            forall|k: int|
                0 <= k < tail.len() ==> #[trigger] tail[k] == digit_char(
                    digits[digits.len() - 1 - k] as nat,
                ),
        decreases m,
    {
        let d = (m % 10) as u8;
        proof {
            let next = seq![digit_char(d as nat)] + tail;
            assert(decimal(m as nat) =~= leading((m / 10) as nat) + seq![digit_char(d as nat)]);
            assert(leading(m as nat) + tail =~= leading((m / 10) as nat) + next);
            tail = next;
        }
        digits.push(d);
        m = m / 10;
    }
    assert(decimal(n as nat) =~= tail);
    let mut i: usize = digits.len();
    assert(tail.subrange(0, 0) =~= Seq::<char>::empty());
    while i > 0
        invariant
            i <= digits.len(),
            tail.len() == digits.len(),
            forall|k: int| 0 <= k < digits.len() ==> (#[trigger] digits[k]) < 10,
            forall|k: int|
                0 <= k < tail.len() ==> #[trigger] tail[k] == digit_char(
                    digits[digits.len() - 1 - k] as nat,
                ),
            out@ == old(out)@ + tail.subrange(0, digits.len() - i),
        decreases i,
    {
        i -= 1;
        out.append(digit_str(digits[i]));
        proof {
            let k = digits.len() - 1 - i;
            assert(tail[k] == digit_char(digits[i as int] as nat));
            assert(tail.subrange(0, k + 1) =~= tail.subrange(0, k).push(tail[k]));
            assert(out@ =~= old(out)@ + tail.subrange(0, k + 1));
        }
    }
    assert(tail.subrange(0, tail.len() as int) =~= tail);
}

/// The decimal form of `n`.
pub fn decimal_string(n: u64) -> (r: String)
    ensures
        r@ == decimal(n as nat),
{
    let mut out = String::new();
    push_decimal(&mut out, n);
    assert(Seq::<char>::empty() + decimal(n as nat) =~= decimal(n as nat));
    out
}

/// The decimal form of `n`, with a minus sign where `n` is negative.
pub fn signed_decimal_string(n: i64) -> (r: String)
    ensures
        r@ == signed_decimal(n as int),
{
    if n < 0 {
        let magnitude: u64 = if n == i64::MIN {
            0x8000_0000_0000_0000
        } else {
            (-n) as u64
        };
        let mut out = "-".to_owned();
        proof {
            reveal_strlit("-");
            assert("-"@ =~= seq!['-']);
        }
        push_decimal(&mut out, magnitude);
        out
    } else {
        decimal_string(n as u64)
    }
}

} // verus!
