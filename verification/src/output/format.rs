//! Number, duration, size and time formatting with exact specifications.
use crate::text::{decimal, i64_text, int_text, push_decimal, text};
use chrono::TimeZone;
use vstd::prelude::*;

verus! {

/// The `strftime` pattern used to print timestamps.
pub const TIMESTAMP_PATTERN: &'static str = "%Y-%m-%d %H:%M:%S UTC";

/// The text of a duration in milliseconds: `Nh Nm Ns`, `Nm Ns` or `Ns` for
/// durations of at least a second (whole seconds, truncated), otherwise the
/// milliseconds followed by `ms`.
pub open spec fn duration_text(millis: i64) -> Seq<char> {
    if millis < 1000 {
        int_text(millis as int) + "ms"@
    } else {
        let secs = (millis / 1000) as nat;
        let h = secs / 3600;
        let m = (secs % 3600) / 60;
        let s = secs % 60;
        if h > 0 {
            decimal(h) + "h "@ + decimal(m) + "m "@ + decimal(s) + "s"@
        } else if m > 0 {
            decimal(m) + "m "@ + decimal(s) + "s"@
        } else {
            decimal(s) + "s"@
        }
    }
}

/// Format a duration in milliseconds to a human-readable string.
pub fn format_duration(millis: i64) -> (r: String)
    ensures
        r@ == duration_text(millis),
{
    if millis < 1000 {
        let mut r = i64_text(millis);
        r.append("ms");
        return r;
    }
    let total_secs: u64 = (millis as u64) / 1000;
    let hours = total_secs / 3600;
    let minutes = (total_secs % 3600) / 60;
    let seconds = total_secs % 60;
    let mut r = String::new();
    if hours > 0 {
        push_decimal(&mut r, hours);
        r.append("h ");
        push_decimal(&mut r, minutes);
        r.append("m ");
        push_decimal(&mut r, seconds);
        r.append("s");
    } else if minutes > 0 {
        push_decimal(&mut r, minutes);
        r.append("m ");
        push_decimal(&mut r, seconds);
        r.append("s");
    } else {
        push_decimal(&mut r, seconds);
        r.append("s");
    }
    r
}

/// `a / b` rounded to the nearest integer, ties to the even one.
pub open spec fn div_round_half_even(a: nat, b: nat) -> nat
    recommends
        b > 0,
{
    let q = a / b;
    let r = a % b;
    if 2 * r > b {
        q + 1
    } else if 2 * r < b {
        q
    } else if q % 2 == 0 {
        q
    } else {
        q + 1
    }
}

/// 2 to the 53rd: below it every integer is exactly an `f64`.
pub open spec fn two_pow_53() -> nat {
    9007199254740992
}

/// The spacing of `f64` values around `n`: 1 below 2^53, doubling with each
/// further bit of `n`.
pub open spec fn f64_spacing(n: nat) -> nat
    decreases n,
{
    if n < two_pow_53() {
        1
    } else {
        2 * f64_spacing(n / 2)
    }
}

/// The value of `n as f64` (round to nearest, ties to even).
pub open spec fn f64_of(n: nat) -> nat {
    div_round_half_even(n, f64_spacing(n)) * f64_spacing(n)
}

/// `{:.1}` of `tenths / 10`: the whole part, a point and one decimal.
pub open spec fn tenths_text(tenths: nat) -> Seq<char> {
    decimal(tenths / 10) + "."@ + decimal(tenths % 10)
}

/// The text of a byte count: bytes below 1 KiB, KiB with one decimal below
/// 1 MiB, MiB with one decimal otherwise (the quotient computed in `f64`
/// and printed with `{:.1}`).
pub open spec fn bytes_text(bytes: i64) -> Seq<char> {
    if bytes < 1024 {
        int_text(bytes as int) + " B"@
    } else if bytes < 1048576 {
        tenths_text(div_round_half_even((bytes * 10) as nat, 1024)) + " KB"@
    } else {
        tenths_text(div_round_half_even(f64_of(bytes as nat) * 10, 1048576)) + " MB"@
    }
}

fn round_half_even(a: u128, b: u128) -> (r: u128)
    requires
        0 < b <= u64::MAX,
        a <= u128::MAX / 4,
    ensures
        r == div_round_half_even(a as nat, b as nat),
{
    let q = a / b;
    let rem = a % b;
    if 2 * rem > b {
        q + 1
    } else if 2 * rem < b {
        q
    } else if q % 2 == 0 {
        q
    } else {
        q + 1
    }
}

proof fn lemma_spacing_step(unit: nat, m: nat)
    requires
        m >= two_pow_53(),
    ensures
        unit * f64_spacing(m) == (unit * 2) * f64_spacing(m / 2),
{
    assert(f64_spacing(m) == 2 * f64_spacing(m / 2));
    assert(unit * (2 * f64_spacing(m / 2)) == (unit * 2) * f64_spacing(m / 2)) by (nonlinear_arith);
}

proof fn lemma_halving_bound(unit: nat, m: nat)
    ensures
        (m / 2) * (unit * 2) <= m * unit,
{
    assert((m / 2) * (unit * 2) <= m * unit) by (nonlinear_arith);
}

/// `n as f64`, as an exact integer.
fn f64_value(n: u64) -> (r: u128)
    requires
        1 <= n <= i64::MAX,
    ensures
        r == f64_of(n as nat),
        r <= 2 * n,
{
    let mut unit: u64 = 1;
    let mut m: u64 = n;
    while m >= 9007199254740992
        invariant
            f64_spacing(n as nat) == unit * f64_spacing(m as nat),
            m * unit <= n <= i64::MAX,
            1 <= unit,
            1 <= m,
        decreases m,
    {
        proof {
            lemma_spacing_step(unit as nat, m as nat);
            lemma_halving_bound(unit as nat, m as nat);
            assert(unit * 9007199254740992 <= m * unit) by (nonlinear_arith)
                requires
                    m >= 9007199254740992,
            ;
        }
        m = m / 2;
        unit = unit * 2;
    }
    assert(f64_spacing(m as nat) == 1);
    assert(unit * 1 == unit);
    let q = round_half_even(n as u128, unit as u128);
    proof {
        assert(q <= n as nat / unit as nat + 1) by {
        }
        assert((n as nat / unit as nat) * unit as nat <= n as nat) by (nonlinear_arith)
            requires
                unit >= 1,
        ;
        assert(q * unit <= n as nat + unit as nat) by (nonlinear_arith)
            requires
                q <= n as nat / unit as nat + 1,
                (n as nat / unit as nat) * unit as nat <= n as nat,
        ;
        assert(unit <= m * unit) by (nonlinear_arith)
            requires
                m >= 1,
        ;
    }
    q * (unit as u128)
}

/// Appends `{:.1}` of `tenths / 10`.
fn push_tenths(out: &mut String, tenths: u128)
    requires
        tenths <= u64::MAX,
    ensures
        final(out)@ == old(out)@ + tenths_text(tenths as nat),
{
    push_decimal(out, (tenths / 10) as u64);
    out.append(".");
    push_decimal(out, (tenths % 10) as u64);
}

/// Format bytes into a human-readable string.
pub fn format_bytes(bytes: i64) -> (r: String)
    ensures
        r@ == bytes_text(bytes),
{
    if bytes < 1024 {
        let mut r = i64_text(bytes);
        r.append(" B");
        return r;
    }
    let mut r = String::new();
    if bytes < 1048576 {
        let tenths = round_half_even((bytes as u128) * 10, 1024);
        push_tenths(&mut r, tenths);
        r.append(" KB");
    } else {
        let value = f64_value(bytes as u64);
        let tenths = round_half_even(value * 10, 1048576);
        push_tenths(&mut r, tenths);
        r.append(" MB");
    }
    r
}

/// What chrono's `strftime` rendering of a UTC timestamp (in milliseconds)
/// with `pattern` is, or `None` when the timestamp is out of chrono's range.
pub uninterp spec fn strftime_of_millis(millis: int, pattern: Seq<char>) -> Option<Seq<char>>;

/// Renders a Unix timestamp in milliseconds with a `strftime` pattern.
///
/// Trusted: calls `chrono::Utc.timestamp_millis_opt(millis)`, keeps the
/// single result (`None` when the timestamp is out of range) and renders it
/// with `DateTime::format(pattern)`. The result is named
/// `strftime_of_millis`. Only the library's timestamp pattern is admitted, so
/// that rendering cannot fail.
#[verifier::external_body]
fn utc_strftime_from_millis(millis: i64, pattern: &str) -> (r: Option<String>)
    requires
        pattern@ == TIMESTAMP_PATTERN@,
    ensures
        match r {
            Some(s) => strftime_of_millis(millis as int, pattern@) == Some(s@),
            None => strftime_of_millis(millis as int, pattern@) is None,
        },
{
    match chrono::Utc.timestamp_millis_opt(millis) {
        chrono::LocalResult::Single(dt) => Some(dt.format(pattern).to_string()),
        chrono::LocalResult::Ambiguous(_, _) => None,
        chrono::LocalResult::None => None,
    }
}

/// The text of a timestamp: `YYYY-MM-DD HH:MM:SS UTC`, or the decimal
/// milliseconds when chrono cannot represent it.
pub open spec fn timestamp_text(millis: i64) -> Seq<char> {
    match strftime_of_millis(millis as int, TIMESTAMP_PATTERN@) {
        Some(t) => t,
        None => int_text(millis as int),
    }
}

/// Format a Unix timestamp in milliseconds to a human-readable string.
pub fn format_timestamp(millis: i64) -> (r: String)
    ensures
        r@ == timestamp_text(millis),
{
    match utc_strftime_from_millis(millis, TIMESTAMP_PATTERN) {
        Some(t) => t,
        None => i64_text(millis),
    }
}

/// What chrono gives when it parses an RFC 3339 date-time and renders it
/// with a `strftime` pattern, or `None` when the text does not parse.
pub uninterp spec fn rfc3339_reformatted(s: Seq<char>, pattern: Seq<char>) -> Option<Seq<char>>;

/// Re-renders an RFC 3339 date-time with a `strftime` pattern.
///
/// Trusted: calls `chrono::DateTime::parse_from_rfc3339(s)` and renders a
/// successful parse with `DateTime::format(pattern)`; `None` when parsing
/// fails. The result is named `rfc3339_reformatted`. Only the library's
/// timestamp pattern is admitted, so that rendering cannot fail.
#[verifier::external_body]
pub(crate) fn reformat_rfc3339(s: &str, pattern: &str) -> (r: Option<String>)
    requires
        pattern@ == TIMESTAMP_PATTERN@,
    ensures
        match r {
            Some(t) => rfc3339_reformatted(s@, pattern@) == Some(t@),
            None => rfc3339_reformatted(s@, pattern@) is None,
        },
{
    match chrono::DateTime::parse_from_rfc3339(s) {
        Ok(dt) => Some(dt.format(pattern).to_string()),
        Err(_) => None,
    }
}

} // verus!
