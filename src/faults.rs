//! Log lines that a party emits when it detects or accuses a faulty peer.
use vstd::prelude::*;

verus! {

/// The decimal digits of `n`, most significant first.
pub open spec fn decimal(n: nat) -> Seq<char>
    decreases n,
{
    if n < 10 {
        seq![digit_char(n)]
    } else {
        decimal(n / 10).push(digit_char(n % 10))
    }
}

pub open spec fn digit_char(d: nat) -> char {
    if d == 0 { '0' } else if d == 1 { '1' } else if d == 2 { '2' } else if d == 3 { '3' }
    else if d == 4 { '4' } else if d == 5 { '5' } else if d == 6 { '6' } else if d == 7 { '7' }
    else if d == 8 { '8' } else { '9' }
}

/// The line logged when party `me` detects `fault` by `faulter`.
pub open spec fn detect_line(me: nat, faulter: nat, fault: Seq<char>) -> Seq<char> {
    "party "@ + decimal(me) + " detect ["@ + fault + "] by "@ + decimal(faulter)
}

/// The line logged when party `me` accuses `faulter` of `fault`.
pub open spec fn accuse_line(me: nat, faulter: nat, fault: Seq<char>) -> Seq<char> {
    "party "@ + decimal(me) + " accuse "@ + decimal(faulter) + " of ["@ + fault + "]"@
}

fn digit_str(d: usize) -> (r: &'static str)
    requires
        d < 10,
    ensures
        r@ == seq![digit_char(d as nat)],
{
    proof {
        reveal_strlit("0");
        reveal_strlit("1");
        reveal_strlit("2");
        reveal_strlit("3");
        reveal_strlit("4");
        reveal_strlit("5");
        reveal_strlit("6");
        reveal_strlit("7");
        reveal_strlit("8");
        reveal_strlit("9");
    }
    if d == 0 { "0" } else if d == 1 { "1" } else if d == 2 { "2" } else if d == 3 { "3" }
    else if d == 4 { "4" } else if d == 5 { "5" } else if d == 6 { "6" } else if d == 7 { "7" }
    else if d == 8 { "8" } else { "9" }
}

/// Appends the decimal digits of `n` to `s`.
pub fn push_decimal(s: &mut String, n: usize)
    ensures
        final(s)@ == old(s)@ + decimal(n as nat),
    decreases n,
{
    if n < 10 {
        s.append(digit_str(n));
    } else {
        push_decimal(s, n / 10);
        s.append(digit_str(n % 10));
    }
}

/// Informational line: party `me` detected `fault` by `faulter`.
pub fn log_fault_info(me: usize, faulter: usize, fault: &str) -> (r: String)
    ensures
        r@ == detect_line(me as nat, faulter as nat, fault@),
{
    detect_message(me, faulter, fault)
}

/// Warning line: party `me` detected `fault` by `faulter`.
pub fn log_fault_warn(me: usize, faulter: usize, fault: &str) -> (r: String)
    ensures
        r@ == detect_line(me as nat, faulter as nat, fault@),
{
    detect_message(me, faulter, fault)
}

fn detect_message(me: usize, faulter: usize, fault: &str) -> (r: String)
    ensures
        r@ == detect_line(me as nat, faulter as nat, fault@),
{
    let mut s = String::from_str("party ");
    push_decimal(&mut s, me);
    s.append(" detect [");
    s.append(fault);
    s.append("] by ");
    push_decimal(&mut s, faulter);
    assert(s@ =~= detect_line(me as nat, faulter as nat, fault@));
    s
}

/// Warning line: party `me` accuses `faulter` of `fault`.
pub fn log_accuse_warn(me: usize, faulter: usize, fault: &str) -> (r: String)
    ensures
        r@ == accuse_line(me as nat, faulter as nat, fault@),
{
    let mut s = String::from_str("party ");
    push_decimal(&mut s, me);
    s.append(" accuse ");
    push_decimal(&mut s, faulter);
    s.append(" of [");
    s.append(fault);
    s.append("]");
    assert(s@ =~= accuse_line(me as nat, faulter as nat, fault@));
    s
}

} // verus!
