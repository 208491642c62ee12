use vstd::prelude::*;
use vstd::string::StringExecFns;

verus! {

/// The decimal numeral of a single digit `d < 10`.
pub open spec fn digit_text(d: nat) -> Seq<char> {
    seq![seq!['0', '1', '2', '3', '4', '5', '6', '7', '8', '9'][d as int]]
}

/// The decimal numeral of `n`, most significant digit first, without leading zeros.
pub open spec fn decimal(n: nat) -> Seq<char>
    decreases n,
{
    if n < 10 {
        digit_text(n)
    } else {
        decimal(n / 10) + digit_text(n % 10)
    }
}

/// The reply that reports a count: `Counted: <n> times.`.
pub open spec fn count_text(n: nat) -> Seq<char> {
    "Counted: "@ + decimal(n) + " times."@
}

fn digit_str(d: u64) -> (r: &'static str)
    requires
        d < 10,
    ensures
        r@ == digit_text(d as nat),
{
    proof {
        reveal_strlit("0");
        reveal_strlit("1");
        reveal_strlit("2");
        reveal_strlit("3");
        reveal_strlit("4");
        reveal_strlit("5");
        reveal_strlit("6");
        reveal_strlit("7");
        reveal_strlit("8");
        reveal_strlit("9");
    }
    let r = match d {
        0 => "0",
        1 => "1",
        2 => "2",
        3 => "3",
        4 => "4",
        5 => "5",
        6 => "6",
        7 => "7",
        8 => "8",
        _ => "9",
    };
    assert(r@ =~= digit_text(d as nat));
    r
}

fn append_decimal(s: &mut String, n: u64)
    ensures
        final(s)@ == old(s)@ + decimal(n as nat),
    decreases n,
{
    if n >= 10 {
        append_decimal(s, n / 10);
    }
    s.append(digit_str(n % 10));
    assert(s@ =~= old(s)@ + decimal(n as nat));
}

/// The decimal numeral of `n` as a string.
pub fn decimal_string(n: u64) -> (r: String)
    ensures
        r@ == decimal(n as nat),
{
    let mut s = String::from_str("");
    proof {
        reveal_strlit("");
    }
    append_decimal(&mut s, n);
    assert(s@ =~= decimal(n as nat));
    s
}

/// The reply that reports the count `n`.
pub fn count_message(n: u64) -> (r: String)
    ensures
        r@ == count_text(n as nat),
{
    let digits = decimal_string(n);
    let mut s = String::from_str("Counted: ");
    s.append(digits.as_str());
    s.append(" times.");
    s
}

} // verus!
