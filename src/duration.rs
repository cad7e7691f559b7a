use vstd::prelude::*;

verus! {

pub open spec fn digit_char(d: nat) -> char {
    if d == 0 {
        '0'
    } else if d == 1 {
        '1'
    } else if d == 2 {
        '2'
    } else if d == 3 {
        '3'
    } else if d == 4 {
        '4'
    } else if d == 5 {
        '5'
    } else if d == 6 {
        '6'
    } else if d == 7 {
        '7'
    } else if d == 8 {
        '8'
    } else {
        '9'
    }
}

/// The decimal digits of `n`, without leading zeros.
pub open spec fn decimal(n: nat) -> Seq<char>
    decreases n,
{
    if n < 10 {
        seq![digit_char(n)]
    } else {
        decimal(n / 10).push(digit_char(n % 10))
    }
}

/// `f` (below 1000) written with exactly three digits.
pub open spec fn three_digits(f: nat) -> Seq<char> {
    if f < 10 {
        "00"@ + decimal(f)
    } else if f < 100 {
        "0"@ + decimal(f)
    } else {
        decimal(f)
    }
}

/// A duration of `ms` milliseconds as the viewer shows it: whole
/// milliseconds under one second ("250ms"), else seconds with three
/// decimals ("1.500s").
pub open spec fn duration_text(ms: nat) -> Seq<char> {
    if ms < 1000 {
        decimal(ms) + "ms"@
    } else {
        decimal(ms / 1000) + "."@ + three_digits(ms % 1000) + "s"@
    }
}

/// The one-character text of digit `d`.
fn digit_str(d: u64) -> (r: &'static str)
    requires
        d < 10,
    ensures
        r@ == seq![digit_char(d as nat)],
{
    proof {
        reveal_strlit("0");
        reveal_strlit("1");
        reveal_strlit("2");
        reveal_strlit("3");
        reveal_strlit("4");
        reveal_strlit("5");
        reveal_strlit("6");
        reveal_strlit("7");
        reveal_strlit("8");
        reveal_strlit("9");
    }
    if d == 0 {
        "0"
    } else if d == 1 {
        "1"
    } else if d == 2 {
        "2"
    } else if d == 3 {
        "3"
    } else if d == 4 {
        "4"
    } else if d == 5 {
        "5"
    } else if d == 6 {
        "6"
    } else if d == 7 {
        "7"
    } else if d == 8 {
        "8"
    } else {
        "9"
    }
}

/// `n` in decimal digits without leading zeros.
pub fn decimal_string(n: u64) -> (r: String)
    ensures
        r@ == decimal(n as nat),
    decreases n,
{
    if n < 10 {
        String::from_str(digit_str(n))
    } else {
        let mut r = decimal_string(n / 10);
        r.append(digit_str(n % 10));
        r
    }
}

/// Formats a duration given in milliseconds.
pub fn format_duration(duration: u64) -> (r: String)
    ensures
        r@ == duration_text(duration as nat),
{
    if duration < 1000 {
        let mut r = decimal_string(duration);
        r.append("ms");
        r
    } else {
        let mut r = decimal_string(duration / 1000);
        r.append(".");
        let frac = duration % 1000;
        if frac < 10 {
            r.append("00");
        } else if frac < 100 {
            r.append("0");
        }
        let digits = decimal_string(frac);
        r.append(digits.as_str());
        r.append("s");
        assert(r@ =~= duration_text(duration as nat));
        r
    }
}

} // verus!
