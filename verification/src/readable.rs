//! Durations in a form that people read: seconds broken down into days,
//! hours, minutes and seconds.

use vstd::prelude::*;
use vstd::string::*;

verus! {

/// The seconds in a minute.
pub const MINUTE: i64 = 60;

/// The seconds in an hour.
pub const HOUR: i64 = 3600;

/// The seconds in a day.
pub const DAY: i64 = 86400;

/// The ten decimal digits in order.
pub open spec fn digits() -> Seq<char> {
    seq!['0', '1', '2', '3', '4', '5', '6', '7', '8', '9']
}

/// The decimal notation of a natural number, without leading zeros.
pub open spec fn decimal(n: nat) -> Seq<char>
    decreases n,
{
    if n < 10 {
        seq![digits()[n as int]]
    } else {
        decimal(n / 10).push(digits()[(n % 10) as int])
    }
}

/// The decimal notation of an integer: a minus sign before a negative one.
pub open spec fn signed_decimal(x: int) -> Seq<char> {
    if x < 0 {
        seq!['-'] + decimal((-x) as nat)
    } else {
        decimal(x as nat)
    }
}

/// The readable form of a count of seconds. Each unit holds what is left
/// once the larger units are taken out; the largest unit shown is the
/// largest that is not zero; nothing is padded or rounded. Days are marked
/// `j`, hours `h`, minutes `m` and seconds `s`. A negative count is written
/// as that many seconds.
pub open spec fn readable(secs: int) -> Seq<char> {
    if secs < MINUTE {
        signed_decimal(secs) + seq!['s']
    } else if secs < HOUR {
        decimal((secs / 60) as nat) + seq!['m'] + decimal((secs % 60) as nat) + seq!['s']
    } else if secs < DAY {
        decimal((secs / 3600) as nat) + seq!['h'] + decimal((secs / 60 % 60) as nat) + seq!['m']
            + decimal((secs % 60) as nat) + seq!['s']
    } else {
        decimal((secs / 86400) as nat) + seq!['j'] + decimal((secs / 3600 % 24) as nat) + seq!['h']
            + decimal((secs / 60 % 60) as nat) + seq!['m'] + decimal((secs % 60) as nat) + seq![
            's',
        ]
    }
}

/// The text of one decimal digit.
fn digit_text(d: u64) -> (text: &'static str)
    requires
        d < 10,
    ensures
        text@ == seq![digits()[d as int]],
{
    proof {
        reveal_strlit("0");
        reveal_strlit("1");
        reveal_strlit("2");
        reveal_strlit("3");
        reveal_strlit("4");
        reveal_strlit("5");
        reveal_strlit("6");
        reveal_strlit("7");
        reveal_strlit("8");
        reveal_strlit("9");
    }
    let text: &'static str = if d == 0 {
        "0"
    } else if d == 1 {
        "1"
    } else if d == 2 {
        "2"
    } else if d == 3 {
        "3"
    } else if d == 4 {
        "4"
    } else if d == 5 {
        "5"
    } else if d == 6 {
        "6"
    } else if d == 7 {
        "7"
    } else if d == 8 {
        "8"
    } else {
        "9"
    };
    assert(text@ =~= seq![digits()[d as int]]);
    text
}

/// Appends the decimal notation of `n` to `out`.
pub fn push_decimal(out: &mut String, n: u64)
    ensures
        final(out)@ == old(out)@ + decimal(n as nat),
    decreases n,
{
    if n >= 10 {
        push_decimal(out, n / 10);
    }
    out.append(digit_text(n % 10));
    assert(out@ =~= old(out)@ + decimal(n as nat));
}

/// Appends a unit mark to `out`.
fn push_mark(out: &mut String, mark: &'static str, c: char)
    requires
        mark@ =~= seq![c],
    ensures
        final(out)@ == old(out)@ + seq![c],
{
    out.append(mark);
}

/// Returns a count of seconds in readable form, such as `2m5s` for 125.
pub fn time_to_readable(secs: i64) -> (text: String)
    ensures
        text@ == readable(secs as int),
{
    proof {
        reveal_strlit("-");
        reveal_strlit("s");
        reveal_strlit("m");
        reveal_strlit("h");
        reveal_strlit("j");
    }
    let mut out = String::new();
    if secs < MINUTE {
        if secs < 0 {
            push_mark(&mut out, "-", '-');
            let size: u64 = if secs == i64::MIN {
                9_223_372_036_854_775_808u64
            } else {
                (-secs) as u64
            };
            push_decimal(&mut out, size);
        } else {
            push_decimal(&mut out, secs as u64);
        }
        push_mark(&mut out, "s", 's');
        assert(out@ =~= readable(secs as int));
        return out;
    }
    let n: u64 = secs as u64;
    if secs >= DAY {
        push_decimal(&mut out, n / 86400);
        push_mark(&mut out, "j", 'j');
        push_decimal(&mut out, n / 3600 % 24);
        push_mark(&mut out, "h", 'h');
    } else if secs >= HOUR {
        push_decimal(&mut out, n / 3600);
        push_mark(&mut out, "h", 'h');
    }
    push_decimal(&mut out, n / 60 % 60);
    push_mark(&mut out, "m", 'm');
    push_decimal(&mut out, n % 60);
    push_mark(&mut out, "s", 's');
    assert(out@ =~= readable(secs as int));
    out
}

} // verus!
