//! Decimal digits of counters and the assembly of texts from pieces.
use vstd::prelude::*;
use vstd::string::*;

verus! {

/// The character of the decimal digit `d` (below ten).
pub open spec fn digit_char(d: nat) -> char {
    (('0' as nat) + d) as char
}

/// The decimal digits of `n`, most significant first, with no leading zero.
pub open spec fn decimal(n: nat) -> Seq<char>
    decreases n,
{
    if n < 10 {
        seq![digit_char(n)]
    } else {
        decimal(n / 10).push(digit_char(n % 10))
    }
}

/// The text of the decimal digit `d`.
fn digit_text(d: u64) -> (s: &'static str)
    requires
        d < 10,
    ensures
        s@ == seq![digit_char(d as nat)],
{
    proof {
        reveal_strlit("0");
        reveal_strlit("1");
        reveal_strlit("2");
        reveal_strlit("3");
        reveal_strlit("4");
        reveal_strlit("5");
        reveal_strlit("6");
        reveal_strlit("7");
        reveal_strlit("8");
        reveal_strlit("9");
    }
    let s = match d {
        0 => "0",
        1 => "1",
        2 => "2",
        3 => "3",
        4 => "4",
        5 => "5",
        6 => "6",
        7 => "7",
        8 => "8",
        _ => "9",
    };
    assert(s@ =~= seq![digit_char(d as nat)]);
    s
}

/// `n` written in decimal, without sign or leading zeros.
fn decimal_text(n: u64) -> (s: String)
    ensures
        s@ == decimal(n as nat),
    decreases n,
{
    if n < 10 {
        digit_text(n).to_owned()
    } else {
        let mut s = decimal_text(n / 10);
        s.append(digit_text(n % 10));
        s
    }
}

/// `n` written in decimal, as `usize::to_string` writes it.
pub(crate) fn usize_decimal(n: usize) -> (s: String)
    ensures
        s@ == decimal(n as nat),
{
    decimal_text(n as u64)
}

/// `n` written in decimal, as `u32::to_string` writes it.
pub(crate) fn u32_decimal(n: u32) -> (s: String)
    ensures
        s@ == decimal(n as nat),
{
    decimal_text(n as u64)
}

/// The opening of an element's summary, with the element's name.
pub open spec fn summary_head(name: Seq<char>) -> Seq<char> {
    "\n\n        ##### "@ + name + " #####\n\n        "@
}

/// The opening of an element's summary.
pub fn summary_head_text(name: &str) -> (s: String)
    ensures
        s@ == summary_head(name@),
{
    "\n\n        ##### ".to_owned().concat(name).concat(" #####\n\n        ")
}

} // verus!
