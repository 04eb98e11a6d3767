//! Presentation of process metrics.

use vstd::prelude::*;
use crate::text;

verus! {

/// Hours, minutes and seconds of a duration of `secs` seconds.
pub open spec fn uptime_fields(secs: nat) -> (nat, nat, nat) {
    (secs / 3600, (secs % 3600) / 60, secs % 60)
}

/// `HH:MM:SS` text of a duration: each field at least two digits, hours unbounded.
pub open spec fn format_uptime_spec(secs: nat) -> Seq<char> {
    let (h, m, s) = uptime_fields(secs);
    text::padded_decimal_spec(h, 2) + ":"@ + text::padded_decimal_spec(m, 2) + ":"@
        + text::padded_decimal_spec(s, 2)
}

/// Uptime as `HH:MM:SS`.
pub fn format_uptime(secs: u64) -> (r: String)
    ensures
        r@ == format_uptime_spec(secs as nat),
{
    let h = secs / 3600;
    let m = (secs % 3600) / 60;
    let s = secs % 60;
    let mut out: Vec<char> = Vec::new();
    let hd = text::padded_decimal(h, 2);
    text::push_chars(&mut out, &hd);
    text::push_str(&mut out, ":");
    let md = text::padded_decimal(m, 2);
    text::push_chars(&mut out, &md);
    text::push_str(&mut out, ":");
    let sd = text::padded_decimal(s, 2);
    text::push_chars(&mut out, &sd);
    text::string_of(&out)
}

/// The three fields shown by `format_uptime` add back up to the duration, and minutes and
/// seconds stay below sixty.
pub proof fn law_uptime_fields_recompose(secs: nat)
    ensures
        ({
            let (h, m, s) = uptime_fields(secs);
            &&& h * 3600 + m * 60 + s == secs
            &&& m < 60
            &&& s < 60
        }),
{
    let h = secs / 3600;
    let r = secs % 3600;
    assert(secs == h * 3600 + r) by (nonlinear_arith)
        requires h == secs / 3600, r == secs % 3600;
    assert(r == (r / 60) * 60 + r % 60) by (nonlinear_arith)
        requires 0 <= r;
    assert(secs % 60 == r % 60) by (nonlinear_arith)
        requires secs == h * 3600 + r, 0 <= r < 3600;
    assert(r / 60 < 60) by (nonlinear_arith)
        requires 0 <= r < 3600;
}

} // verus!
