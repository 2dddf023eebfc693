//! The texts shown in the cells of the process table.
use vstd::prelude::*;
use vstd::string::StringExecFns;

use crate::models::ProcessInfo;

verus! {

/// The character of the decimal digit `d`.
pub open spec fn digit_char(d: nat) -> char {
    (48 + d) as char
}

/// The decimal digits of `n`, without leading zeros.
pub open spec fn decimal(n: nat) -> Seq<char>
    decreases n,
{
    if n < 10 {
        seq![digit_char(n)]
    } else {
        decimal(n / 10).push(digit_char(n % 10))
    }
}

/// `n` in decimal, with a leading zero when it has a single digit (`{:02}`).
pub open spec fn two_digits(n: nat) -> Seq<char> {
    if n < 10 {
        seq!['0'] + decimal(n)
    } else {
        decimal(n)
    }
}

/// A duration as `hours:minutes:seconds`, minutes and seconds on two digits.
pub open spec fn hh_mm_ss(total_seconds: nat) -> Seq<char> {
    decimal(total_seconds / 3600) + seq![':'] + two_digits((total_seconds % 3600) / 60) + seq![':']
        + two_digits(total_seconds % 60)
}

/// `u64::to_string`: the decimal digits of `n`.
#[verifier::external_body]
fn decimal_string(n: u64) -> (r: String)
    ensures
        r@ == decimal(n as nat),
{
    n.to_string()
}

/// Appends `n` on two digits to `s`.
fn push_two_digits(s: &mut String, n: u64)
    ensures
        final(s)@ == old(s)@ + two_digits(n as nat),
{
    if n < 10 {
        s.append("0");
        proof {
            reveal_strlit("0");
        }
    }
    let digits = decimal_string(n);
    s.append(digits.as_str());
    assert(final(s)@ =~= old(s)@ + two_digits(n as nat));
}

/// A duration in seconds as `hours:minutes:seconds`, minutes and seconds on
/// two digits (such as `1:01:01`).
pub fn format_to_hh_mm_ss(total_seconds: u64) -> (r: String)
    ensures
        r@ == hh_mm_ss(total_seconds as nat),
{
    let hours = total_seconds / 3600;
    let minutes = (total_seconds % 3600) / 60;
    let seconds = total_seconds % 60;
    let mut s = decimal_string(hours);
    s.append(":");
    proof {
        reveal_strlit(":");
    }
    push_two_digits(&mut s, minutes);
    s.append(":");
    push_two_digits(&mut s, seconds);
    assert(s@ =~= hh_mm_ss(total_seconds as nat));
    s
}

/// The pid cell: the pid, marked `<w>` for the watched process.
pub open spec fn pid_text(pid: u64, watched_pid: u64) -> Seq<char> {
    if pid == watched_pid {
        seq!['<', 'w', '>'] + decimal(pid as nat)
    } else {
        decimal(pid as nat)
    }
}

/// `" |"` repeated `n` times.
pub open spec fn indent(n: nat) -> Seq<char>
    decreases n,
{
    if n == 0 {
        seq![]
    } else {
        indent((n - 1) as nat) + seq![' ', '|']
    }
}

/// The command cell: `<>` for a process without a parent; else the command
/// after one `" |"` per level of depth and a `-`.
pub open spec fn command_text(info: ProcessInfo) -> Seq<char> {
    match info.parent_pid {
        None => seq!['<', '>'],
        Some(_) => indent(info.pid_lvl as usize as nat) + seq!['-'] + info.command@,
    }
}

/// The text of the pid cell of `info` when `watched_pid` is watched.
pub fn pid_label(info: &ProcessInfo, watched_pid: u64) -> (r: String)
    ensures
        r@ == pid_text(info.pid, watched_pid),
{
    let digits = decimal_string(info.pid);
    if watched_pid == info.pid {
        let mut s = String::new();
        s.append("<w>");
        proof {
            reveal_strlit("<w>");
        }
        s.append(digits.as_str());
        assert(s@ =~= pid_text(info.pid, watched_pid));
        s
    } else {
        digits
    }
}

/// The text of the command cell of `info`.
pub fn command_label(info: &ProcessInfo) -> (r: String)
    ensures
        r@ == command_text(*info),
{
    match info.parent_pid {
        None => {
            let mut s = String::new();
            s.append("<>");
            proof {
                reveal_strlit("<>");
            }
            assert(s@ =~= command_text(*info));
            s
        },
        Some(_) => {
            let n = #[verifier::truncate] (info.pid_lvl as usize);
            let mut s = String::new();
            let mut k: usize = 0;
            proof {
                reveal_strlit(" |");
                reveal_strlit("-");
            }
            assert(s@ =~= indent(0));
            while k < n
                invariant
                    k <= n,
                    s@ == indent(k as nat),
                decreases n - k,
            {
                s.append(" |");
                proof {
                    reveal_strlit(" |");
                }
                k = k + 1;
                assert(s@ =~= indent(k as nat));
            }
            s.append("-");
            s.append(info.command.as_str());
            assert(s@ =~= command_text(*info));
            s
        },
    }
}

} // verus!
