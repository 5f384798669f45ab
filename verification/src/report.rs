//! The lines a run prints.

use vstd::prelude::*;

verus! {

/// The status of a response that makes its source available.
pub const STATUS_OK: u16 = 200;

/// The character of one decimal digit.
pub open spec fn digit(d: nat) -> char {
    if d == 0 {
        '0'
    } else if d == 1 {
        '1'
    } else if d == 2 {
        '2'
    } else if d == 3 {
        '3'
    } else if d == 4 {
        '4'
    } else if d == 5 {
        '5'
    } else if d == 6 {
        '6'
    } else if d == 7 {
        '7'
    } else if d == 8 {
        '8'
    } else {
        '9'
    }
}

/// A number in decimal digits, without leading zeros.
pub open spec fn decimal(n: nat) -> Seq<char>
    decreases n,
{
    if n < 10 {
        seq![digit(n)]
    } else {
        decimal(n / 10).push(digit(n % 10))
    }
}

/// The line for a download that has been written to `path`.
pub open spec fn download_report(path: Seq<char>) -> Seq<char> {
    "File downloaded successfully to: "@ + path
}

/// The line for a source at `url` that answered with `status`.
pub open spec fn probe_report(url: Seq<char>, status: u16) -> Seq<char> {
    if status == STATUS_OK {
        url + " is available"@
    } else {
        url + " responded with "@ + decimal(status as nat)
    }
}

/// One decimal digit as a text.
fn digit_text(d: u16) -> (text: &'static str)
    requires
        d < 10,
    ensures
        text@ == seq![digit(d as nat)],
{
    proof {
        reveal_strlit("0");
        reveal_strlit("1");
        reveal_strlit("2");
        reveal_strlit("3");
        reveal_strlit("4");
        reveal_strlit("5");
        reveal_strlit("6");
        reveal_strlit("7");
        reveal_strlit("8");
        reveal_strlit("9");
    }
    match d {
        0 => "0",
        1 => "1",
        2 => "2",
        3 => "3",
        4 => "4",
        5 => "5",
        6 => "6",
        7 => "7",
        8 => "8",
        _ => "9",
    }
}

/// Adds the decimal digits of `n` to the end of `line`.
fn push_decimal(line: &mut String, n: u16)
    ensures
        final(line)@ == old(line)@ + decimal(n as nat),
    decreases n,
{
    if n >= 10 {
        push_decimal(line, n / 10);
    }
    line.append(digit_text(n % 10));
}

/// The line that tells of a finished download.
pub fn download_line(path: &str) -> (line: String)
    ensures
        line@ == download_report(path@),
{
    let mut line = "File downloaded successfully to: ".to_owned();
    line.append(path);
    line
}

/// The line that tells how a source answered: available on status 200, on
/// any other status the status in decimal.
pub fn probe_line(url: &str, status: u16) -> (line: String)
    ensures
        line@ == probe_report(url@, status),
{
    let mut line = url.to_owned();
    if status == STATUS_OK {
        line.append(" is available");
    } else {
        line.append(" responded with ");
        push_decimal(&mut line, status);
    }
    line
}

} // verus!
