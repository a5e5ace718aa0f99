//! How sizes, speeds and durations are shown.

use vstd::prelude::*;
use crate::text::{cat, decimal, decimal_of, two_digits, two_digits_of};

verus! {

// ---------------------------------------------------------------------------------------------
// Rounding
// ---------------------------------------------------------------------------------------------

/// `n / d`, rounded to the nearest integer; to the even one if two are equally near.
pub open spec fn nearest(n: nat, d: nat) -> nat {
    let q = n / d;
    let r = n % d;
    if 2 * r > d || (2 * r == d && q % 2 == 1) {
        q + 1
    } else {
        q
    }
}

fn round(n: u128, d: u128) -> (r: u128)
    requires
        0 < d <= 0x1_0000_0000,
        n < 0x100_0000_0000_0000_0000_0000,
    ensures
        r == nearest(n as nat, d as nat),
{
    let q: u128 = n / d;
    let m: u128 = n % d;
    assert(q <= n) by (nonlinear_arith)
        requires
            q == n / d,
            d > 0,
    ;
    if 2 * m > d || (2 * m == d && q % 2 == 1) {
        q + 1
    } else {
        q
    }
}

/// The spacing of double-precision numbers at `b`: 1 below 2^53, then twice as much with each
/// further binary digit.
pub open spec fn spacing(b: nat) -> nat
    decreases b,
{
    if b < 0x20_0000_0000_0000 {
        1
    } else {
        2 * spacing(b / 2)
    }
}

/// The double-precision number nearest to `b`.
pub open spec fn double(b: nat) -> nat {
    nearest(b, spacing(b)) * spacing(b)
}

fn spacing_of(b: u64) -> (r: u64)
    ensures
        r == spacing(b as nat),
        r == 1 || r * 0x10_0000_0000_0000 <= b,
        r >= 1,
    decreases b,
{
    if b < 0x20_0000_0000_0000 {
        1
    } else {
        2 * spacing_of(b / 2)
    }
}

fn double_of(b: u64) -> (r: u128)
    ensures
        r == double(b as nat),
        r <= b + 0x1000,
{
    let unit: u64 = spacing_of(b);
    let n: u128 = round(b as u128, unit as u128);
    assert(n * unit <= b + unit) by (nonlinear_arith)
        requires
            n <= b / unit + 1,
            unit >= 1,
    ;
    n * (unit as u128)
}

// ---------------------------------------------------------------------------------------------
// Sizes and speeds
// ---------------------------------------------------------------------------------------------

/// A number of hundredths, with two decimals.
pub open spec fn hundredths(n: nat) -> Seq<char> {
    decimal(n / 100) + "."@ + two_digits(n % 100)
}

/// A number of tenths, with one decimal.
pub open spec fn tenths(n: nat) -> Seq<char> {
    decimal(n / 10) + "."@ + decimal(n % 10)
}

/// A size in the largest of the units GB, MB, KB and B that it reaches, each 1024 times the next:
/// GB and MB with two decimals, KB with one. The size is taken in double precision, and what is
/// shown is that number, correctly rounded.
pub open spec fn size_text(b: u64) -> Seq<char> {
    let f = double(b as nat);
    if f >= 0x4000_0000 {
        hundredths(nearest(100 * f, 0x4000_0000)) + " GB"@
    } else if f >= 0x10_0000 {
        hundredths(nearest(100 * f, 0x10_0000)) + " MB"@
    } else if f >= 0x400 {
        tenths(nearest(10 * f, 0x400)) + " KB"@
    } else {
        decimal(f) + " B"@
    }
}

fn show_hundredths(n: u128, unit: &str) -> (r: String)
    requires
        n <= 0xffff_ffff_ffff_ffff,
    ensures
        r@ == hundredths(n as nat) + unit@,
{
    let mut r = decimal_of((n / 100) as u64);
    r.append(".");
    let rest = two_digits_of((n % 100) as u64);
    r.append(rest.as_str());
    r.append(unit);
    r
}

fn show_tenths(n: u128, unit: &str) -> (r: String)
    requires
        n <= 0xffff_ffff_ffff_ffff,
    ensures
        r@ == tenths(n as nat) + unit@,
{
    let mut r = decimal_of((n / 10) as u64);
    r.append(".");
    let rest = decimal_of((n % 10) as u64);
    r.append(rest.as_str());
    r.append(unit);
    r
}

/// A size as it is shown, such as `1.50 MB`.
pub fn fmt_size(b: u64) -> (r: String)
    ensures
        r@ == size_text(b),
{
    let f: u128 = double_of(b);
    if f >= 0x4000_0000 {
        show_hundredths(round(100 * f, 0x4000_0000), " GB")
    } else if f >= 0x10_0000 {
        show_hundredths(round(100 * f, 0x10_0000), " MB")
    } else if f >= 0x400 {
        show_tenths(round(10 * f, 0x400), " KB")
    } else {
        let n = decimal_of(f as u64);
        cat(n.as_str(), " B")
    }
}

/// A speed in bytes per second as it is shown; nothing for a speed that is not positive, which
/// `None` stands for.
pub open spec fn speed_text(bps: Option<u64>) -> Seq<char> {
    match bps {
        Some(b) => size_text(b) + "/s"@,
        None => Seq::empty(),
    }
}

/// A speed as it is shown, such as `1.5 KB/s`.
pub fn fmt_speed(bps: Option<u64>) -> (r: String)
    ensures
        r@ == speed_text(bps),
{
    match bps {
        Some(b) => {
            let size = fmt_size(b);
            cat(size.as_str(), "/s")
        },
        None => {
            let r = String::new();
            assert(r@ =~= Seq::<char>::empty());
            r
        },
    }
}

// ---------------------------------------------------------------------------------------------
// Durations
// ---------------------------------------------------------------------------------------------

/// A duration in hours, minutes and seconds, without the hours if there are none.
pub open spec fn clock(secs: nat) -> Seq<char> {
    let h = secs / 3600;
    let m = (secs % 3600) / 60;
    let s = secs % 60;
    if h > 0 {
        decimal(h) + ":"@ + two_digits(m) + ":"@ + two_digits(s)
    } else {
        decimal(m) + ":"@ + two_digits(s)
    }
}

/// The time that is left for `remaining` bytes; nothing if none are left, or if the time is not
/// known.
pub open spec fn eta_text(remaining: u64, secs: Option<u64>) -> Seq<char> {
    match secs {
        Some(t) if remaining > 0 => clock(t as nat),
        _ => Seq::empty(),
    }
}

/// The time that is left as it is shown, such as `1:23` or `1:02:03`.
pub fn fmt_eta(remaining: u64, secs: Option<u64>) -> (r: String)
    ensures
        r@ == eta_text(remaining, secs),
{
    let t: u64 = match secs {
        Some(t) if remaining > 0 => t,
        _ => {
            let r = String::new();
            assert(r@ =~= Seq::<char>::empty());
            return r;
        },
    };
    let h: u64 = t / 3600;
    let m: u64 = (t % 3600) / 60;
    let s: u64 = t % 60;
    let seconds = two_digits_of(s);
    if h > 0 {
        let mut r = decimal_of(h);
        r.append(":");
        let minutes = two_digits_of(m);
        r.append(minutes.as_str());
        r.append(":");
        r.append(seconds.as_str());
        r
    } else {
        let mut r = decimal_of(m);
        r.append(":");
        r.append(seconds.as_str());
        r
    }
}

// ---------------------------------------------------------------------------------------------
// Laws
// ---------------------------------------------------------------------------------------------

/// Sizes below 2^53 are shown as they are, not as some neighbour.
pub proof fn law_common_sizes_are_exact(b: nat)
    requires
        b < 0x20_0000_0000_0000,
    ensures
        double(b) == b,
{
    assert(spacing(b) == 1);
    assert(b / 1 == b && b % 1 == 0);
    assert(nearest(b, 1) == b);
}

} // verus!
