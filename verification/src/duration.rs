//! Durations as the statistics screens print them.
use vstd::prelude::*;
use vstd::string::StringExecFns;

verus! {

/// The character of a decimal digit.
pub open spec fn digit_char(d: nat) -> char {
    if d == 0 {
        '0'
    } else if d == 1 {
        '1'
    } else if d == 2 {
        '2'
    } else if d == 3 {
        '3'
    } else if d == 4 {
        '4'
    } else if d == 5 {
        '5'
    } else if d == 6 {
        '6'
    } else if d == 7 {
        '7'
    } else if d == 8 {
        '8'
    } else {
        '9'
    }
}

/// The decimal digits of `n`, most significant first, without leading zeros.
pub open spec fn digits(n: nat) -> Seq<char>
    decreases n,
{
    if n < 10 {
        seq![digit_char(n)]
    } else {
        digits(n / 10).push(digit_char(n % 10))
    }
}

/// `n` in decimal, with a leading `-` when negative.
pub open spec fn decimal(n: int) -> Seq<char> {
    if n < 0 {
        seq!['-'] + digits((-n) as nat)
    } else {
        digits(n as nat)
    }
}

/// How `fmt_duration` prints `secs` seconds: seconds below a minute, minutes
/// and seconds below an hour, hours and minutes from an hour on.
pub open spec fn duration_text(secs: int) -> Seq<char> {
    if secs < 60 {
        decimal(secs) + "초"@
    } else if secs < 3600 {
        decimal(secs / 60) + "분 "@ + decimal(secs % 60) + "초"@
    } else {
        decimal(secs / 3600) + "시간 "@ + decimal((secs % 3600) / 60) + "분"@
    }
}

fn digit_str(d: u64) -> (r: &'static str)
    requires
        d < 10,
    ensures
        r@ == seq![digit_char(d as nat)],
{
    proof {
        reveal_strlit("0");
        reveal_strlit("1");
        reveal_strlit("2");
        reveal_strlit("3");
        reveal_strlit("4");
        reveal_strlit("5");
        reveal_strlit("6");
        reveal_strlit("7");
        reveal_strlit("8");
        reveal_strlit("9");
    }
    if d == 0 {
        "0"
    } else if d == 1 {
        "1"
    } else if d == 2 {
        "2"
    } else if d == 3 {
        "3"
    } else if d == 4 {
        "4"
    } else if d == 5 {
        "5"
    } else if d == 6 {
        "6"
    } else if d == 7 {
        "7"
    } else if d == 8 {
        "8"
    } else {
        "9"
    }
}

fn push_digits(s: &mut String, n: u64)
    ensures
        final(s)@ == old(s)@ + digits(n as nat),
    decreases n,
{
    if n >= 10 {
        push_digits(s, n / 10);
    }
    s.append(digit_str(n % 10));
    proof {
        if n >= 10 {
            assert(old(s)@ + digits((n / 10) as nat) + seq![digit_char((n % 10) as nat)]
                =~= old(s)@ + digits(n as nat));
        } else {
            assert(n % 10 == n);
        }
    }
}

/// Appends `n` in decimal.
pub fn push_decimal(s: &mut String, n: i64)
    ensures
        final(s)@ == old(s)@ + decimal(n as int),
{
    if n < 0 {
        proof {
            reveal_strlit("-");
        }
        s.append("-");
        let magnitude: u64 = if n == i64::MIN {
            9_223_372_036_854_775_808u64
        } else {
            (-n) as u64
        };
        push_digits(s, magnitude);
        assert(old(s)@ + seq!['-'] + digits(magnitude as nat) =~= old(s)@ + decimal(n as int));
    } else {
        push_digits(s, n as u64);
    }
}

/// Prints a number of seconds for the usage lists: `"45초"`, `"2분 5초"`,
/// `"1시간 30분"`.
pub fn fmt_duration(secs: i64) -> (r: String)
    ensures
        r@ == duration_text(secs as int),
{
    let mut s = String::new();
    if secs < 60 {
        push_decimal(&mut s, secs);
        s.append("초");
        assert(s@ =~= duration_text(secs as int));
    } else if secs < 3600 {
        push_decimal(&mut s, secs / 60);
        s.append("분 ");
        push_decimal(&mut s, secs % 60);
        s.append("초");
        assert(s@ =~= duration_text(secs as int));
    } else {
        push_decimal(&mut s, secs / 3600);
        s.append("시간 ");
        push_decimal(&mut s, (secs % 3600) / 60);
        s.append("분");
        assert(s@ =~= duration_text(secs as int));
    }
    s
}

} // verus!
