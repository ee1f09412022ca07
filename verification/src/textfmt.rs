//! Plain-text output the core owes its callers: single characters,
//! decimal numerals, and the connection hint written after a successful
//! start.

use vstd::prelude::*;
use vstd::string::StringExecFns;

verus! {

/// Relies on `String::push` of std: appends the given character to the
/// end of the string.
#[verifier::external_body]
pub fn push_char(s: &mut String, c: char)
    ensures
        final(s)@ == old(s)@.push(c),
{
    s.push(c);
}

/// The digit character for a value below ten.
pub open spec fn digit_char(d: int) -> char {
    if d == 0 {
        '0'
    } else if d == 1 {
        '1'
    } else if d == 2 {
        '2'
    } else if d == 3 {
        '3'
    } else if d == 4 {
        '4'
    } else if d == 5 {
        '5'
    } else if d == 6 {
        '6'
    } else if d == 7 {
        '7'
    } else if d == 8 {
        '8'
    } else {
        '9'
    }
}

/// The decimal numeral of `n`, most significant digit first, no sign and
/// no leading zeros.
pub open spec fn dec_digits(n: int) -> Seq<char>
    decreases n,
{
    if n < 10 {
        seq![digit_char(n)]
    } else {
        dec_digits(n / 10).push(digit_char(n % 10))
    }
}

fn digit_of(d: usize) -> (c: char)
    requires
        d < 10,
    ensures
        c == digit_char(d as int),
{
    if d == 0 {
        '0'
    } else if d == 1 {
        '1'
    } else if d == 2 {
        '2'
    } else if d == 3 {
        '3'
    } else if d == 4 {
        '4'
    } else if d == 5 {
        '5'
    } else if d == 6 {
        '6'
    } else if d == 7 {
        '7'
    } else if d == 8 {
        '8'
    } else {
        '9'
    }
}

/// The decimal numeral of `n` as text, exactly [`dec_digits`].
pub fn decimal(n: usize) -> (r: String)
    ensures
        r@ == dec_digits(n as int),
    decreases n,
{
    if n < 10 {
        let mut s = String::new();
        push_char(&mut s, digit_of(n));
        s
    } else {
        let mut s = decimal(n / 10);
        push_char(&mut s, digit_of(n % 10));
        s
    }
}

/// The connection hint persisted on a successful start: the bound port
/// and the hostname in a human-readable connect instruction.
pub open spec fn hint_text_spec(port: int, host: Seq<char>) -> Seq<char> {
    "Connect via:\n\tssh -N -L "@ + dec_digits(port) + ":"@ + host
        + ":3000 <your-username>@<your-machine>\nVisit http://localhost:3000 to join the office hours queue.\n"@
}

/// Builds the text of the connection-hint file for a bound port and a
/// hostname. The caller replaces the hint file's whole content with it.
pub fn connection_hint(port: u16, host: &str) -> (r: String)
    ensures
        r@ == hint_text_spec(port as int, host@),
{
    let mut out = String::new();
    out.append("Connect via:\n\tssh -N -L ");
    let p = decimal(port as usize);
    out.append(p.as_str());
    out.append(":");
    out.append(host);
    out.append(
        ":3000 <your-username>@<your-machine>\nVisit http://localhost:3000 to join the office hours queue.\n",
    );
    proof {
        assert(out@ =~= hint_text_spec(port as int, host@));
    }
    out
}

} // verus!
