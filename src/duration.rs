//! Durations in seconds, split into weeks, days, hours, minutes and seconds
//! and written out for people.
use vstd::prelude::*;

verus! {

/// The decimal digits of a natural number, most significant first.
pub open spec fn digits(n: nat) -> Seq<char>
    decreases n,
{
    if n < 10 {
        seq![(n + '0' as nat) as char]
    } else {
        digits(n / 10) + seq![((n % 10) + '0' as nat) as char]
    }
}

/// How an integer is written in decimal: a `-` before the digits of a
/// negative number.
pub open spec fn decimal(n: int) -> Seq<char> {
    if n < 0 {
        seq!['-'] + digits((-n) as nat)
    } else {
        digits(n as nat)
    }
}

/// Relies on `i64`'s `Display`, through `to_string`: the number in decimal,
/// with a leading `-` when negative.
#[verifier::external_body]
fn decimal_string(n: i64) -> (r: String)
    ensures
        r@ == decimal(n as int),
{
    n.to_string()
}

/// Weeks, days, hours, minutes and seconds of `seconds` seconds, with the
/// sign of `seconds` on every part (a week is seven days of 24 hours).
pub open spec fn split_of(seconds: int) -> (int, int, int, int, int) {
    let m = if seconds < 0 { -seconds } else { seconds };
    let (w, d, h, mi, s) = (m / 604800, m / 86400 % 7, m / 3600 % 24, m / 60 % 60, m % 60);
    if seconds < 0 {
        (-w, -d, -h, -mi, -s)
    } else {
        (w, d, h, mi, s)
    }
}

/// Splits a number of seconds into weeks, days, hours, minutes and seconds.
pub fn split_duration(seconds: i64) -> (r: (i64, i64, i64, i64, i64))
    ensures
        (r.0 as int, r.1 as int, r.2 as int, r.3 as int, r.4 as int) == split_of(seconds as int),
        r.0 * 604800 + r.1 * 86400 + r.2 * 3600 + r.3 * 60 + r.4 == seconds,
{
    let negative = seconds < 0;
    let m: u64 = if negative {
        (-(seconds as i128)) as u64
    } else {
        seconds as u64
    };
    assert(m as int == if negative { -seconds } else { seconds as int });
    let weeks = (m / 604800) as i64;
    let days = (m / 86400 % 7) as i64;
    let hours = (m / 3600 % 24) as i64;
    let minutes = (m / 60 % 60) as i64;
    let secs = (m % 60) as i64;
    assert(m / 86400 == (m / 604800) * 7 + m / 86400 % 7) by (nonlinear_arith)
        requires m / 604800 == (m / 86400) / 7;
    assert(m == weeks * 604800 + days * 86400 + hours * 3600 + minutes * 60 + secs) by (nonlinear_arith)
        requires
            weeks == m / 604800,
            days == m / 86400 % 7,
            hours == m / 3600 % 24,
            minutes == m / 60 % 60,
            secs == m % 60,
            m / 86400 == (m / 604800) * 7 + m / 86400 % 7,
    ;
    if negative {
        (-weeks, -days, -hours, -minutes, -secs)
    } else {
        (weeks, days, hours, minutes, secs)
    }
}

/// `W:D:H:M:S` for a duration of `seconds` seconds.
pub open spec fn duration_text(seconds: int) -> Seq<char> {
    let (w, d, h, m, s) = split_of(seconds);
    decimal(w) + seq![':'] + decimal(d) + seq![':'] + decimal(h) + seq![':'] + decimal(m) + seq![
        ':',
    ] + decimal(s)
}

/// One line of the long form: the unit's label, `: `, the number, a newline.
pub open spec fn unit_line(label: Seq<char>, n: int) -> Seq<char> {
    label + seq![':', ' '] + decimal(n) + seq!['\n']
}

/// The long form of a duration: one line per unit, starting at the largest
/// unit that is not zero, and always a last line of seconds.
pub open spec fn duration_multiline_text(seconds: int) -> Seq<char> {
    let (w, d, h, m, s) = split_of(seconds);
    (if w != 0 {
        unit_line(seq!['W', 'e', 'e', 'k', 's'], w)
    } else {
        Seq::empty()
    }) + (if w != 0 || d != 0 {
        unit_line(seq!['D', 'a', 'y', 's'], d)
    } else {
        Seq::empty()
    }) + (if w != 0 || d != 0 || h != 0 {
        unit_line(seq!['H', 'o', 'u', 'r', 's'], h)
    } else {
        Seq::empty()
    }) + (if w != 0 || d != 0 || h != 0 || m != 0 {
        unit_line(seq!['M', 'i', 'n', 'u', 't', 'e', 's'], m)
    } else {
        Seq::empty()
    }) + seq!['S', 'e', 'c', 'o', 'n', 'd', 's', ':', ' '] + decimal(s)
}

/// A duration on one line, as `W:D:H:M:S`.
pub fn display_duration(seconds: i64) -> (r: String)
    ensures
        r@ == duration_text(seconds as int),
{
    let (w, d, h, m, s) = split_duration(seconds);
    proof {
        reveal_strlit(":");
    }
    let mut out = decimal_string(w);
    out.append(":");
    out.append(decimal_string(d).as_str());
    out.append(":");
    out.append(decimal_string(h).as_str());
    out.append(":");
    out.append(decimal_string(m).as_str());
    out.append(":");
    out.append(decimal_string(s).as_str());
    out
}

/// Appends `label: n` and a newline.
fn push_unit_line(out: &mut String, label: &str, n: i64)
    ensures
        final(out)@ == old(out)@ + unit_line(label@, n as int),
{
    proof {
        reveal_strlit(": ");
        reveal_strlit("\n");
    }
    out.append(label);
    out.append(": ");
    out.append(decimal_string(n).as_str());
    out.append("\n");
}

/// A duration over several lines, one per unit from the largest that is
/// not zero (see [`duration_multiline_text`]).
pub fn display_duration_multiline(seconds: i64) -> (r: String)
    ensures
        r@ == duration_multiline_text(seconds as int),
{
    let (w, d, h, m, s) = split_duration(seconds);
    proof {
        reveal_strlit("Weeks");
        reveal_strlit("Days");
        reveal_strlit("Hours");
        reveal_strlit("Minutes");
        reveal_strlit("Seconds: ");
    }
    let mut out = String::new();
    if w != 0 {
        push_unit_line(&mut out, "Weeks", w);
    }
    if w != 0 || d != 0 {
        push_unit_line(&mut out, "Days", d);
    }
    if w != 0 || d != 0 || h != 0 {
        push_unit_line(&mut out, "Hours", h);
    }
    if w != 0 || d != 0 || h != 0 || m != 0 {
        push_unit_line(&mut out, "Minutes", m);
    }
    out.append("Seconds: ");
    out.append(decimal_string(s).as_str());
    out
}

} // verus!
