//! Fixed four-decimal text of amounts.
use vstd::prelude::*;

verus! {

pub open spec fn digit_char(d: nat) -> char {
    (48 + d) as char
}

/// The decimal digits of `n`, most significant first, with no leading zero.
pub open spec fn digits(n: nat) -> Seq<char>
    decreases n,
{
    if n < 10 {
        seq![digit_char(n)]
    } else {
        digits(n / 10).push(digit_char(n % 10))
    }
}

/// The text of `v` ten-thousandths: an optional minus sign, the whole part,
/// a point and exactly four fractional digits (`-12345` is `-1.2345`).
pub open spec fn fixed4(v: int) -> Seq<char> {
    let m: nat = if v < 0 {
        (-v) as nat
    } else {
        v as nat
    };
    let f: nat = m % 10000;
    let sign = if v < 0 {
        seq!['-']
    } else {
        Seq::empty()
    };
    sign + digits(m / 10000) + seq![
        '.',
        digit_char(f / 1000),
        digit_char(f / 100 % 10),
        digit_char(f / 10 % 10),
        digit_char(f % 10),
    ]
}

fn digit(d: u128) -> (c: char)
    requires
        d < 10,
    ensures
        c == digit_char(d as nat),
{
    ((48 + d) as u8) as char
}

fn push_digits(out: &mut Vec<char>, n: u128)
    ensures
        final(out)@ == old(out)@ + digits(n as nat),
    decreases n,
{
    if n >= 10 {
        push_digits(out, n / 10);
    }
    out.push(digit(n % 10));
    proof {
        if n >= 10 {
            assert(out@ =~= old(out)@ + digits(n as nat));
        } else {
            assert(out@ =~= old(out)@ + digits(n as nat));
        }
    }
}

/// Relies on `String`'s `FromIterator<char>`: the string holds the
/// characters in the order given.
#[verifier::external_body]
fn string_from_chars(chars: Vec<char>) -> (r: String)
    ensures
        r@ == chars@,
{
    chars.into_iter().collect()
}

/// The text of `v` ten-thousandths, with four decimal places.
pub fn units_to_string(v: i128) -> (r: String)
    ensures
        r@ == fixed4(v as int),
{
    let m: u128 = if v < 0 {
        (-(v + 1)) as u128 + 1
    } else {
        v as u128
    };
    let mut out: Vec<char> = Vec::new();
    if v < 0 {
        out.push('-');
    }
    push_digits(&mut out, m / 10000);
    let f = m % 10000;
    out.push('.');
    out.push(digit(f / 1000));
    out.push(digit(f / 100 % 10));
    out.push(digit(f / 10 % 10));
    out.push(digit(f % 10));
    assert(out@ =~= fixed4(v as int));
    string_from_chars(out)
}

} // verus!
