//! Time: rendering of durations, and a monotonic clock.

use crate::text;
use vstd::prelude::*;

verus! {

/// The digits after the point for so many thousandths, without trailing zeros.
pub open spec fn thousandths(n: nat) -> Seq<char> {
    if n % 100 == 0 {
        seq![text::digit(n / 100)]
    } else if n % 10 == 0 {
        seq![text::digit(n / 100), text::digit(n / 10 % 10)]
    } else {
        seq![text::digit(n / 100), text::digit(n / 10 % 10), text::digit(n % 10)]
    }
}

/// A duration as users read it: whole milliseconds below a second, and seconds
/// with what is left of them from there on. No time at all is `0ns`.
pub open spec fn duration_text(ms: u64) -> Seq<char> {
    if ms == 0 {
        "0ns"@
    } else if ms < 1000 {
        text::decimal(ms as nat) + "ms"@
    } else if ms % 1000 == 0 {
        text::decimal((ms / 1000) as nat) + "s"@
    } else {
        text::decimal((ms / 1000) as nat) + "."@ + thousandths((ms % 1000) as nat) + "s"@
    }
}

fn thousandths_text(n: u64) -> (r: String)
    requires
        n < 1000,
    ensures
        r@ == thousandths(n as nat),
{
    let a: u8 = (n / 100) as u8;
    let b: u8 = (n / 10 % 10) as u8;
    let c: u8 = (n % 10) as u8;
    let mut out: String = String::new();
    out.push((a + 48) as char);
    if n % 100 != 0 {
        out.push((b + 48) as char);
    }
    if n % 10 != 0 {
        out.push((c + 48) as char);
    }
    proof {
        assert(n % 100 == 0 ==> n % 10 == 0) by (nonlinear_arith);
        assert(out@ =~= thousandths(n as nat));
    }
    out
}

/// Renders a duration of so many milliseconds.
pub fn duration_debug(ms: u64) -> (r: String)
    ensures
        r@ == duration_text(ms),
{
    if ms == 0 {
        return "0ns".to_owned();
    }
    if ms < 1000 {
        let n: String = text::decimal_string(ms);
        return text::cat2(n.as_str(), "ms");
    }
    let whole: String = text::decimal_string(ms / 1000);
    if ms % 1000 == 0 {
        return text::cat2(whole.as_str(), "s");
    }
    let rest: String = thousandths_text(ms % 1000);
    text::cat4(whole.as_str(), ".", rest.as_str(), "s")
}

/// A point on std's monotonic clock.
#[verifier::external_type_specification]
#[verifier::external_body]
pub struct ExInstant(std::time::Instant);

/// `Instant::now` reads the monotonic clock. Nothing is said of the reading.
#[verifier::external_body]
pub(crate) fn instant_now() -> std::time::Instant {
    std::time::Instant::now()
}

/// `Instant::elapsed`, in nanoseconds: how long ago `origin` was. Nothing is
/// said of the reading.
#[verifier::external_body]
pub(crate) fn nanos_since(origin: &std::time::Instant) -> u128 {
    origin.elapsed().as_nanos()
}

} // verus!
