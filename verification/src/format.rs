//! Human-readable byte counts and durations.

use vstd::prelude::*;
use vstd::string::*;

use crate::text::{decimal, digit_char, push_decimal};

verus! {

/// `n / unit` in tenths, rounded to the nearest tenth, ties to even (as
/// decimal formatting of the exact quotient does).
pub open spec fn tenths_rounded(n: nat, unit: nat) -> nat
    recommends
        unit > 0,
{
    let q = (n * 10) / unit;
    let r = (n * 10) % unit;
    if 2 * r > unit || (2 * r == unit && q % 2 == 1) {
        q + 1
    } else {
        q
    }
}

/// A count of tenths written with one decimal, such as "1.5".
pub open spec fn one_decimal(t: nat) -> Seq<char> {
    decimal(t / 10).push('.').push(digit_char(t % 10))
}

pub open spec fn kib() -> nat {
    1024
}

pub open spec fn mib() -> nat {
    1024 * 1024
}

pub open spec fn gib() -> nat {
    1024 * 1024 * 1024
}

/// The text for `n` bytes: whole bytes below one KB, else the largest of
/// KB, MB, GB (powers of 1024) that `n` reaches, with one decimal.
pub open spec fn bytes_text(n: nat) -> Seq<char> {
    if n < kib() {
        decimal(n) + " B"@
    } else if n < mib() {
        one_decimal(tenths_rounded(n, kib())) + " KB"@
    } else if n < gib() {
        one_decimal(tenths_rounded(n, mib())) + " MB"@
    } else {
        one_decimal(tenths_rounded(n, gib())) + " GB"@
    }
}

fn tenths(n: u64, unit: u64) -> (t: u64)
    requires
        unit >= 1024,
    ensures
        t == tenths_rounded(n as nat, unit as nat),
{
    let big: u128 = (n as u128) * 10;
    let u: u128 = unit as u128;
    let q: u128 = big / u;
    let r: u128 = big % u;
    assert(q <= big / 1024) by (nonlinear_arith)
        requires
            u >= 1024,
            q == big / u,
            big >= 0,
    ;
    assert(q < 0xffff_ffff_ffff_ffff);
    if 2 * r > u || (2 * r == u && q % 2 == 1) {
        (q + 1) as u64
    } else {
        q as u64
    }
}

fn push_one_decimal(s: &mut String, t: u64)
    ensures
        final(s)@ == old(s)@ + one_decimal(t as nat),
{
    push_decimal(s, t / 10);
    s.push('.');
    let d: u8 = 48u8 + ((t % 10) as u8);
    s.push(d as char);
    assert(s@ =~= old(s)@ + one_decimal(t as nat));
}

/// Formats a byte count: "0 B", "1023 B", "1.0 KB", "1.5 KB", "3.2 MB".
pub fn format_bytes(n: u64) -> (r: String)
    ensures
        r@ == bytes_text(n as nat),
{
    let mut s = String::new();
    if n < 1024 {
        push_decimal(&mut s, n);
        s.append(" B");
    } else if n < 1024 * 1024 {
        push_one_decimal(&mut s, tenths(n, 1024));
        s.append(" KB");
    } else if n < 1024 * 1024 * 1024 {
        push_one_decimal(&mut s, tenths(n, 1024 * 1024));
        s.append(" MB");
    } else {
        push_one_decimal(&mut s, tenths(n, 1024 * 1024 * 1024));
        s.append(" GB");
    }
    s
}

/// The text for a duration of `secs` seconds: seconds below a minute,
/// minutes and seconds below an hour, hours and minutes below a day, days
/// and hours beyond.
pub open spec fn uptime_text(secs: nat) -> Seq<char> {
    if secs < 60 {
        decimal(secs) + "s"@
    } else if secs < 3600 {
        decimal(secs / 60) + "m "@ + decimal(secs % 60) + "s"@
    } else if secs < 86400 {
        decimal(secs / 3600) + "h "@ + decimal((secs % 3600) / 60) + "m"@
    } else {
        decimal(secs / 86400) + "d "@ + decimal((secs % 86400) / 3600) + "h"@
    }
}

/// Formats a duration given in whole seconds: "12s", "5m 30s", "2h 14m",
/// "3d 1h".
pub fn format_uptime(secs: u64) -> (r: String)
    ensures
        r@ == uptime_text(secs as nat),
{
    let mut s = String::new();
    if secs < 60 {
        push_decimal(&mut s, secs);
        s.append("s");
    } else if secs < 3600 {
        push_decimal(&mut s, secs / 60);
        s.append("m ");
        push_decimal(&mut s, secs % 60);
        s.append("s");
    } else if secs < 86400 {
        push_decimal(&mut s, secs / 3600);
        s.append("h ");
        push_decimal(&mut s, (secs % 3600) / 60);
        s.append("m");
    } else {
        push_decimal(&mut s, secs / 86400);
        s.append("d ");
        push_decimal(&mut s, (secs % 86400) / 3600);
        s.append("h");
    }
    s
}

/// `t` shows a duration of `secs` seconds as `big` whole units of `unit`
/// seconds (marked `big_mark`) and `small` whole units of `sub` seconds
/// (marked `small_mark`) of what is left: `big` is at least one, `small`
/// stays below one `unit`, and no whole `sub` is left over.
pub open spec fn shows_two_units(
    t: Seq<char>,
    secs: nat,
    unit: nat,
    sub: nat,
    big: nat,
    small: nat,
    big_mark: Seq<char>,
    small_mark: Seq<char>,
) -> bool {
    &&& t == decimal(big) + big_mark + decimal(small) + small_mark
    &&& 1 <= big
    &&& small * sub < unit
    &&& big * unit + small * sub <= secs < big * unit + small * sub + sub
}

/// The uptime text shows the largest whole unit the duration reaches and
/// then the next smaller one: seconds alone below a minute, minutes and
/// seconds below an hour, hours and minutes below a day, and days and hours
/// from a day on. Each number is the count of whole units in what the
/// larger unit before it leaves over.
pub proof fn law_uptime_shows_largest_units(secs: nat)
    ensures
        secs < 60 ==> uptime_text(secs) == decimal(secs) + "s"@,
        60 <= secs < 3600 ==> exists|big: nat, small: nat|
            #[trigger] shows_two_units(uptime_text(secs), secs, 60, 1, big, small, "m "@, "s"@),
        3600 <= secs < 86400 ==> exists|big: nat, small: nat|
            #[trigger] shows_two_units(uptime_text(secs), secs, 3600, 60, big, small, "h "@, "m"@),
        86400 <= secs ==> exists|big: nat, small: nat|
            #[trigger] shows_two_units(uptime_text(secs), secs, 86400, 3600, big, small, "d "@, "h"@),
{
    if 60 <= secs < 3600 {
        let big = secs / 60;
        let small = secs % 60;
        assert(shows_two_units(uptime_text(secs), secs, 60, 1, big, small, "m "@, "s"@));
    } else if 3600 <= secs < 86400 {
        let big = secs / 3600;
        let small = (secs % 3600) / 60;
        assert(shows_two_units(uptime_text(secs), secs, 3600, 60, big, small, "h "@, "m"@));
    } else if 86400 <= secs {
        let big = secs / 86400;
        let small = (secs % 86400) / 3600;
        assert(shows_two_units(uptime_text(secs), secs, 86400, 3600, big, small, "d "@, "h"@));
    }
}

} // verus!
