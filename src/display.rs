//! Text shown to the user that follows a rule of its own: block heights with
//! thousands separators.

use vstd::prelude::*;

verus! {

/// The decimal digit for `d` (0 to 9).
pub open spec fn digit_char(d: int) -> char {
    if d == 0 { '0' }
    else if d == 1 { '1' }
    else if d == 2 { '2' }
    else if d == 3 { '3' }
    else if d == 4 { '4' }
    else if d == 5 { '5' }
    else if d == 6 { '6' }
    else if d == 7 { '7' }
    else if d == 8 { '8' }
    else { '9' }
}

/// The decimal digits of `n`, most significant first, without leading zeros.
pub open spec fn decimal_digits(n: nat) -> Seq<char>
    decreases n,
{
    if n < 10 {
        seq![digit_char(n as int)]
    } else {
        decimal_digits(n / 10).push(digit_char((n % 10) as int))
    }
}

/// `d` with a comma before every group of three counted from the right.
pub open spec fn grouped(d: Seq<char>) -> Seq<char>
    decreases d.len(),
{
    if d.len() <= 3 {
        d
    } else {
        grouped(d.subrange(0, d.len() - 3)) + seq![','] + d.subrange(d.len() - 3, d.len() as int)
    }
}

/// Relies on `String::push`, which appends one character.
#[verifier::external_body]
fn push_char(s: &mut String, c: char)
    ensures
        final(s)@ == old(s)@.push(c),
{
    s.push(c)
}

fn digit(d: u64) -> (r: char)
    requires
        d < 10,
    ensures
        r == digit_char(d as int),
{
    if d == 0 { '0' }
    else if d == 1 { '1' }
    else if d == 2 { '2' }
    else if d == 3 { '3' }
    else if d == 4 { '4' }
    else if d == 5 { '5' }
    else if d == 6 { '6' }
    else if d == 7 { '7' }
    else if d == 8 { '8' }
    else { '9' }
}

fn digits_of(n: u64) -> (r: Vec<char>)
    ensures
        r@ == decimal_digits(n as nat),
    decreases n,
{
    if n < 10 {
        vec![digit(n)]
    } else {
        let mut v = digits_of(n / 10);
        v.push(digit(n % 10));
        v
    }
}

fn grouped_prefix(d: &Vec<char>, hi: usize) -> (r: String)
    requires
        hi <= d.len(),
    ensures
        r@ == grouped(d@.subrange(0, hi as int)),
    decreases hi,
{
    let ghost s = d@.subrange(0, hi as int);
    let mut out: String;
    let lo: usize;
    if hi <= 3 {
        out = String::new();
        lo = 0;
    } else {
        out = grouped_prefix(d, hi - 3);
        push_char(&mut out, ',');
        lo = hi - 3;
        assert(s.subrange(0, s.len() - 3) =~= d@.subrange(0, hi - 3));
    }
    let ghost start = out@;
    let mut i: usize = lo;
    while i < hi
        invariant
            lo <= i <= hi <= d.len(),
            out@ == start + d@.subrange(lo as int, i as int),
        decreases hi - i,
    {
        push_char(&mut out, d[i]);
        assert(d@.subrange(lo as int, i + 1) =~= d@.subrange(lo as int, i as int).push(d@[i as int]));
        i = i + 1;
    }
    proof {
        if hi <= 3 {
            assert(out@ =~= s);
        } else {
            assert(s.subrange(s.len() - 3, s.len() as int) =~= d@.subrange(lo as int, hi as int));
        }
    }
    out
}

/// A block height as shown: decimal, with a comma between groups of three
/// digits (`895234` reads `895,234`).
pub fn format_height(n: u64) -> (r: String)
    ensures
        r@ == grouped(decimal_digits(n as nat)),
{
    let d = digits_of(n);
    assert(d@.subrange(0, d@.len() as int) =~= d@);
    grouped_prefix(&d, d.len())
}

} // verus!
