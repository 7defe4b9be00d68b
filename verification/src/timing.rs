//! Wall-clock instrumentation around one request: time to first byte,
//! download time, total time, and the qualitative label derived from it.
//!
//! Time points are opaque monotonic instants; every duration the logic
//! reads is held as a plain number of microseconds.

use vstd::prelude::*;

use crate::text::push_char;

verus! {

/// Declares `std::time::Instant` so an opaque monotonic time point can be
/// stored; nothing is stated about its contents.
#[verifier::external_type_specification]
#[verifier::external_body]
pub struct ExInstant(std::time::Instant);

/// Relies on `std::time::Instant::now`: an opaque monotonic time point.
#[verifier::external_body]
fn instant_now() -> std::time::Instant {
    std::time::Instant::now()
}

/// Relies on `std::time::Instant::elapsed`: the time since `start`, as an
/// opaque duration.
#[verifier::external_body]
fn instant_elapsed(start: &std::time::Instant) -> std::time::Duration {
    start.elapsed()
}

/// Relies on `std::time::Duration::as_micros`: the duration in whole
/// microseconds.
#[verifier::external_body]
fn duration_micros(d: &std::time::Duration) -> u128 {
    d.as_micros()
}

/// The timer wrapping one assemble/send/receive sequence.
#[derive(Debug)]
pub struct RequestTimer {
    /// When the request started.
    pub start: std::time::Instant,
    /// Microseconds from start until response headers arrived, once
    /// recorded.
    pub first_byte: Option<u128>,
    /// Microseconds from start until the body was fully consumed, once
    /// recorded.
    pub total: Option<u128>,
}

/// The derived timing figures of one finished request.
#[derive(Debug, Clone, Copy, PartialEq, Eq)]
pub struct TimingSummary {
    /// Time to first byte, when it was recorded.
    pub ttfb_micros: Option<u128>,
    /// Total minus time to first byte, when the latter was recorded.
    pub download_micros: Option<u128>,
    pub total_micros: u128,
}

/// The qualitative label for a total request time.
#[derive(Debug, Clone, Copy, PartialEq, Eq, Structural)]
pub enum ResponseSpeed {
    Excellent,
    Good,
    Slow,
    VerySlow,
}

/// The fixed thresholds: under 100 ms excellent, under 500 ms good, under
/// 1000 ms slow, and very slow from there on.
pub open spec fn speed_spec(total_micros: nat) -> ResponseSpeed {
    if total_micros < 100000 {
        ResponseSpeed::Excellent
    } else if total_micros < 500000 {
        ResponseSpeed::Good
    } else if total_micros < 1000000 {
        ResponseSpeed::Slow
    } else {
        ResponseSpeed::VerySlow
    }
}

/// Labels a total request time.
pub fn classify_speed(total_micros: u128) -> (r: ResponseSpeed)
    ensures
        r == speed_spec(total_micros as nat),
{
    if total_micros < 100000 {
        ResponseSpeed::Excellent
    } else if total_micros < 500000 {
        ResponseSpeed::Good
    } else if total_micros < 1000000 {
        ResponseSpeed::Slow
    } else {
        ResponseSpeed::VerySlow
    }
}

impl ResponseSpeed {
    /// The displayed hint for this label.
    pub fn hint(&self) -> (r: String)
        ensures
            *self == ResponseSpeed::Excellent ==> r@ == "\u{1f680} Excellent response time!"@,
            *self == ResponseSpeed::Good ==> r@ == "\u{2705} Good response time"@,
            *self == ResponseSpeed::Slow ==> r@ == "\u{26a0}\u{fe0f}  Slow response"@,
            *self == ResponseSpeed::VerySlow ==> r@ == "\u{274c} Very slow response"@,
    {
        match self {
            ResponseSpeed::Excellent => "\u{1f680} Excellent response time!".to_owned(),
            ResponseSpeed::Good => "\u{2705} Good response time".to_owned(),
            ResponseSpeed::Slow => "\u{26a0}\u{fe0f}  Slow response".to_owned(),
            ResponseSpeed::VerySlow => "\u{274c} Very slow response".to_owned(),
        }
    }
}

impl RequestTimer {
    /// Starts the clock; nothing is recorded yet.
    pub fn start() -> (r: RequestTimer)
        ensures
            r.first_byte is None,
            r.total is None,
    {
        RequestTimer { start: instant_now(), first_byte: None, total: None }
    }

    /// Records the time to first byte; start point and total are untouched.
    pub fn record_first_byte(&mut self)
        ensures
            final(self).first_byte is Some,
            final(self).total == old(self).total,
            final(self).start == old(self).start,
    {
        let d = instant_elapsed(&self.start);
        let us = duration_micros(&d);
        self.first_byte = Some(us);
    }

    /// Records the total time; start point and first byte are untouched.
    pub fn finish(&mut self)
        ensures
            final(self).total is Some,
            final(self).first_byte == old(self).first_byte,
            final(self).start == old(self).start,
    {
        let d = instant_elapsed(&self.start);
        let us = duration_micros(&d);
        self.total = Some(us);
    }

    /// The total time in microseconds, once `finish` has run.
    pub fn total_time(&self) -> (r: Option<u128>)
        ensures
            r == self.total,
    {
        self.total
    }

    /// Derives the timing figures: time to first byte as recorded, download
    /// time as total minus first byte (floored at zero), total as recorded.
    /// `None` until `finish` has run; first-byte figures only when
    /// `record_first_byte` ran.
    pub fn summary(&self) -> (r: Option<TimingSummary>)
        ensures
            self.total is None ==> r is None,
            self.total matches Some(t) ==> r matches Some(s) && s.total_micros == t
                && (match self.first_byte {
                Some(fb) => s.ttfb_micros == Some(fb) && s.download_micros == Some(
                    if fb <= t {
                        (t - fb) as u128
                    } else {
                        0u128
                    },
                ),
                None => s.ttfb_micros is None && s.download_micros is None,
            }),
    {
        match self.total {
            None => None,
            Some(t) => {
                match self.first_byte {
                    Some(fb) => Some(
                        TimingSummary {
                            ttfb_micros: Some(fb),
                            download_micros: Some(if fb <= t { t - fb } else { 0 }),
                            total_micros: t,
                        },
                    ),
                    None => Some(
                        TimingSummary {
                            ttfb_micros: None,
                            download_micros: None,
                            total_micros: t,
                        },
                    ),
                }
            },
        }
    }
}

/// The decimal digit for `d`.
pub open spec fn dec_digit(d: int) -> char {
    if d == 0 {
        '0'
    } else if d == 1 {
        '1'
    } else if d == 2 {
        '2'
    } else if d == 3 {
        '3'
    } else if d == 4 {
        '4'
    } else if d == 5 {
        '5'
    } else if d == 6 {
        '6'
    } else if d == 7 {
        '7'
    } else if d == 8 {
        '8'
    } else {
        '9'
    }
}

fn dec_digit_char(d: u128) -> (r: char)
    requires
        d < 10,
    ensures
        r == dec_digit(d as int),
{
    if d == 0 {
        '0'
    } else if d == 1 {
        '1'
    } else if d == 2 {
        '2'
    } else if d == 3 {
        '3'
    } else if d == 4 {
        '4'
    } else if d == 5 {
        '5'
    } else if d == 6 {
        '6'
    } else if d == 7 {
        '7'
    } else if d == 8 {
        '8'
    } else {
        '9'
    }
}

/// The decimal rendering of `n`, most significant digit first.
pub open spec fn dec_digits(n: nat) -> Seq<char>
    decreases n,
{
    if n < 10 {
        seq![dec_digit(n as int)]
    } else {
        dec_digits(n / 10) + seq![dec_digit((n % 10) as int)]
    }
}

/// Renders `n` in decimal.
pub fn u128_to_string(n: u128) -> (r: String)
    ensures
        r@ == dec_digits(n as nat),
{
    let mut rev: Vec<char> = Vec::new();
    let mut x = n;
    proof {
        assert(rev@.reverse() =~= Seq::<char>::empty());
        assert(dec_digits(n as nat) =~= dec_digits(x as nat) + rev@.reverse());
    }
    while x >= 10
        invariant
            dec_digits(n as nat) == dec_digits(x as nat) + rev@.reverse(),
        decreases x,
    {
        let ghost prev = rev@;
        let d = x % 10;
        rev.push(dec_digit_char(d));
        proof {
            assert(rev@.reverse() =~= seq![dec_digit(d as int)] + prev.reverse());
            assert(dec_digits(x as nat) == dec_digits((x / 10) as nat) + seq![
                dec_digit(d as int)
            ]);
            assert(dec_digits(n as nat) =~= dec_digits((x / 10) as nat) + rev@.reverse());
        }
        x = x / 10;
    }
    let ghost prev = rev@;
    rev.push(dec_digit_char(x));
    proof {
        assert(rev@.reverse() =~= seq![dec_digit(x as int)] + prev.reverse());
        assert(dec_digits(n as nat) =~= rev@.reverse());
    }
    let mut out = String::new();
    let mut idx = rev.len();
    proof {
        assert(rev@.subrange(idx as int, rev@.len() as int).reverse() =~= Seq::<char>::empty());
    }
    while idx > 0
        invariant
            0 <= idx <= rev@.len(),
            out@ == rev@.subrange(idx as int, rev@.len() as int).reverse(),
            dec_digits(n as nat) == rev@.reverse(),
        decreases idx,
    {
        idx = idx - 1;
        push_char(&mut out, rev[idx]);
        proof {
            assert(out@ =~= rev@.subrange(idx as int, rev@.len() as int).reverse());
        }
    }
    proof {
        assert(rev@.subrange(0, rev@.len() as int) =~= rev@);
    }
    out
}

/// How a duration is displayed: whole microseconds under one millisecond
/// (always with a `.00` fraction), milliseconds to two decimals otherwise.
pub open spec fn format_duration_spec(micros: nat) -> Seq<char> {
    if micros < 1000 {
        dec_digits(micros) + ".00 \u{b5}s"@
    } else {
        dec_digits(micros / 1000) + seq![
            '.',
            dec_digit(((micros % 1000) / 100) as int),
            dec_digit((((micros % 1000) / 10) % 10) as int),
        ] + " ms"@
    }
}

/// Renders a duration, given in microseconds, for the timing summary.
pub fn format_duration(micros: u128) -> (r: String)
    ensures
        r@ == format_duration_spec(micros as nat),
{
    if micros < 1000 {
        let mut r = u128_to_string(micros);
        r.append(".00 \u{b5}s");
        proof {
            assert(r@ =~= format_duration_spec(micros as nat));
        }
        r
    } else {
        let ms = micros / 1000;
        let rem = micros % 1000;
        let mut r = u128_to_string(ms);
        push_char(&mut r, '.');
        push_char(&mut r, dec_digit_char(rem / 100));
        push_char(&mut r, dec_digit_char((rem / 10) % 10));
        r.append(" ms");
        proof {
            assert(r@ =~= format_duration_spec(micros as nat));
        }
        r
    }
}

} // verus!
