//! Timestamps: the current time written in front of each event, and the
//! time since the event's span started.
use vstd::prelude::*;
use crate::style::{push_styled, styled_text, Paint};
use crate::text::{push_char, push_str};
use crate::render::{push_rep, rep};

verus! {

/// Measures and formats time for the renderer.
///
/// `format_time` writes the current time, in front of every event;
/// `style_timestamp` writes the time since the event's span started, given
/// in nanoseconds.
pub trait FormatTime {
    fn format_time(&self) -> String;

    fn style_timestamp(&self, ansi: bool, elapsed: u64) -> String;
}

/// No time at all.
impl FormatTime for () {
    fn format_time(&self) -> (r: String)
        ensures
            r@.len() == 0,
    {
        String::new()
    }

    fn style_timestamp(&self, _ansi: bool, _elapsed: u64) -> (r: String)
        ensures
            r@.len() == 0,
    {
        String::new()
    }
}

impl<'a, F: FormatTime> FormatTime for &'a F {
    fn format_time(&self) -> String {
        F::format_time(self)
    }

    fn style_timestamp(&self, ansi: bool, elapsed: u64) -> String {
        F::style_timestamp(self, ansi, elapsed)
    }
}

/// The decimal digit for `d`.
pub open spec fn digit(d: int) -> char {
    if d == 0 {
        '0'
    } else if d == 1 {
        '1'
    } else if d == 2 {
        '2'
    } else if d == 3 {
        '3'
    } else if d == 4 {
        '4'
    } else if d == 5 {
        '5'
    } else if d == 6 {
        '6'
    } else if d == 7 {
        '7'
    } else if d == 8 {
        '8'
    } else {
        '9'
    }
}

/// The decimal notation of `n`, without leading zeros.
pub open spec fn decimal(n: nat) -> Seq<char>
    decreases n,
{
    if n < 10 {
        seq![digit(n as int)]
    } else {
        decimal(n / 10).push(digit((n % 10) as int))
    }
}

/// `s` right-aligned in `width` columns, padded with `fill`.
pub open spec fn pad_left(s: Seq<char>, width: int, fill: char) -> Seq<char> {
    rep(fill, width - s.len()) + s
}

fn digit_char(d: u128) -> (c: char)
    requires
        d < 10,
    ensures
        c == digit(d as int),
{
    if d == 0 {
        '0'
    } else if d == 1 {
        '1'
    } else if d == 2 {
        '2'
    } else if d == 3 {
        '3'
    } else if d == 4 {
        '4'
    } else if d == 5 {
        '5'
    } else if d == 6 {
        '6'
    } else if d == 7 {
        '7'
    } else if d == 8 {
        '8'
    } else {
        '9'
    }
}

/// The decimal notation of `n`.
pub fn decimal_text(n: u128) -> (r: Vec<char>)
    ensures
        r@ == decimal(n as nat),
    decreases n,
{
    if n < 10 {
        vec![digit_char(n)]
    } else {
        let mut v = decimal_text(n / 10);
        v.push(digit_char(n % 10));
        v
    }
}

/// Appends `n` right-aligned in `width` columns, padded with `fill`.
pub fn push_padded(buf: &mut String, n: u128, width: usize, fill: char)
    ensures
        final(buf)@ == old(buf)@ + pad_left(decimal(n as nat), width as int, fill),
{
    let v = decimal_text(n);
    let pad: usize = if width > v.len() { width - v.len() } else { 0 };
    let ghost s0 = buf@;
    push_rep(buf, fill, pad);
    let mut i: usize = 0;
    while i < v.len()
        invariant
            i <= v.len(),
            buf@ == s0 + rep(fill, pad as int) + v@.take(i as int),
        decreases v.len() - i,
    {
        push_char(buf, v[i]);
        proof {
            assert(v@.take(i + 1) =~= v@.take(i as int).push(v@[i as int]));
        }
        i = i + 1;
    }
    proof {
        assert(v@.take(i as int) =~= v@);
        assert(rep(fill, pad as int) =~= rep(fill, width - v@.len()));
    }
}

/// The elapsed time `n` (in nanoseconds) as a number and a unit: whole
/// milliseconds below a second, whole seconds below a minute, and whole
/// minutes beyond.
pub open spec fn scaled(n: u64) -> (nat, Seq<char>) {
    if n / 1_000_000 < 1000 {
        ((n / 1_000_000) as nat, "ms"@)
    } else if n / 1_000_000_000 < 60 {
        ((n / 1_000_000_000) as nat, "s "@)
    } else {
        ((n / 60_000_000_000) as nat, "m "@)
    }
}

/// The elapsed time `n` in hundredths of its unit, rounded half up, and the
/// unit: microseconds below a millisecond, milliseconds below a second and
/// seconds beyond.
pub open spec fn scaled_hundredths(n: u64) -> (nat, Seq<char>) {
    if n < 1_000_000 {
        (((n + 5) / 10) as nat, "μs"@)
    } else if n < 1_000_000_000 {
        (((n + 5_000) / 10_000) as nat, "ms"@)
    } else {
        (((n + 5_000_000) / 10_000_000) as nat, "s "@)
    }
}

/// A number of hundredths written with two decimals.
pub open spec fn two_decimals(h: nat) -> Seq<char> {
    decimal(h / 100) + seq!['.'] + pad_left(decimal(h % 100), 2, '0')
}

/// The short form of an elapsed time: a number right-aligned in three
/// columns, then its unit, both dimmed.
pub open spec fn short_timestamp(ansi: bool, n: u64) -> Seq<char> {
    styled_text(ansi, Paint::Dimmed, pad_left(decimal(scaled(n).0), 3, ' ')) + styled_text(
        ansi,
        Paint::Dimmed,
        scaled(n).1,
    )
}

/// The precise form of an elapsed time: a blank, the number with two
/// decimals, then its unit, both dimmed.
pub open spec fn precise_timestamp(ansi: bool, n: u64) -> Seq<char> {
    styled_text(
        ansi,
        Paint::Dimmed,
        seq![' '] + two_decimals(scaled_hundredths(n).0),
    ) + styled_text(ansi, Paint::Dimmed, scaled_hundredths(n).1)
}

/// Writes the number and the unit of a timestamp, both dimmed.
pub fn write_style_timestamp(ansi: bool, timestamp: String, unit: &str) -> (r: String)
    ensures
        r@ == styled_text(ansi, Paint::Dimmed, timestamp@) + styled_text(
            ansi,
            Paint::Dimmed,
            unit@,
        ),
{
    let mut w = String::new();
    push_styled(&mut w, ansi, Paint::Dimmed, timestamp.as_str());
    push_styled(&mut w, ansi, Paint::Dimmed, unit);
    w
}

/// The short form of the elapsed time `elapsed`, in nanoseconds.
pub fn format_timestamp(ansi: bool, elapsed: u64) -> (r: String)
    ensures
        r@ == short_timestamp(ansi, elapsed),
{
    let millis = elapsed / 1_000_000;
    let secs = elapsed / 1_000_000_000;
    let mut timestamp = String::new();
    if millis < 1000 {
        push_padded(&mut timestamp, millis as u128, 3, ' ');
        write_style_timestamp(ansi, timestamp, "ms")
    } else if secs < 60 {
        push_padded(&mut timestamp, secs as u128, 3, ' ');
        write_style_timestamp(ansi, timestamp, "s ")
    } else {
        push_padded(&mut timestamp, (secs / 60) as u128, 3, ' ');
        write_style_timestamp(ansi, timestamp, "m ")
    }
}

/// The precise form of the elapsed time `elapsed`, in nanoseconds.
pub fn format_timestamp_with_decimals(ansi: bool, elapsed: u64) -> (r: String)
    ensures
        r@ == precise_timestamp(ansi, elapsed),
{
    let n = elapsed as u128;
    let (h, unit): (u128, &str) = if elapsed < 1_000_000 {
        ((n + 5) / 10, "μs")
    } else if elapsed < 1_000_000_000 {
        ((n + 5_000) / 10_000, "ms")
    } else {
        ((n + 5_000_000) / 10_000_000, "s ")
    };
    let mut timestamp = String::new();
    push_char(&mut timestamp, ' ');
    push_padded(&mut timestamp, h / 100, 0, ' ');
    push_char(&mut timestamp, '.');
    push_padded(&mut timestamp, h % 100, 2, '0');
    proof {
        assert(rep(' ', 0 - decimal((h / 100) as nat).len()) =~= Seq::<char>::empty());
        assert(timestamp@ =~= seq![' '] + two_decimals(scaled_hundredths(elapsed).0));
    }
    write_style_timestamp(ansi, timestamp, unit)
}

/// The elapsed time in the precise form or in the short form.
pub fn style_timestamp(ansi: bool, higher_precision: bool, elapsed: u64) -> (r: String)
    ensures
        r@ == (if higher_precision {
            precise_timestamp(ansi, elapsed)
        } else {
            short_timestamp(ansi, elapsed)
        }),
{
    if higher_precision {
        format_timestamp_with_decimals(ansi, elapsed)
    } else {
        format_timestamp(ansi, elapsed)
    }
}

/// The current time in UTC, as the `time` crate writes a date and a time
/// of day.
#[derive(Debug, Clone, Copy, Eq, PartialEq, Default)]
pub struct UtcDateTime {
    /// Whether to print the time since a span started with higher precision.
    pub higher_precision: bool,
}

/// Relies on `time::OffsetDateTime::now_utc` and the `Display` of its date
/// and its time; what it reads from the clock differs from call to call,
/// and the date alone writes at least the year.
#[verifier::external_body]
fn utc_now_text() -> (r: String)
    ensures
        r@.len() > 0,
{
    let t = time::OffsetDateTime::now_utc();
    format!("{} {}", t.date(), t.time())
}

/// Relies on `time::OffsetDateTime::now_local` and the `Display` of the
/// result, which holds at least the year of the date; none where the crate
/// cannot tell the local offset.
#[verifier::external_body]
fn local_now_text() -> (r: Option<String>)
    ensures
        r matches Some(t) ==> t@.len() > 0,
{
    match time::OffsetDateTime::now_local() {
        Ok(t) => Some(format!("{}", t)),
        Err(_) => None,
    }
}

impl FormatTime for UtcDateTime {
    fn format_time(&self) -> (r: String)
        ensures
            r@.len() > 0,
    {
        utc_now_text()
    }

    fn style_timestamp(&self, ansi: bool, elapsed: u64) -> (r: String)
        ensures
            r@ == (if self.higher_precision {
                precise_timestamp(ansi, elapsed)
            } else {
                short_timestamp(ansi, elapsed)
            }),
    {
        style_timestamp(ansi, self.higher_precision, elapsed)
    }
}

/// The current local time, with its offset from UTC. Where the local offset
/// cannot be determined, the time in UTC is written instead.
#[derive(Debug, Clone, Copy, Eq, PartialEq, Default)]
pub struct LocalDateTime {
    /// Whether to print the time since a span started with higher precision.
    pub higher_precision: bool,
}

impl FormatTime for LocalDateTime {
    fn format_time(&self) -> (r: String)
        ensures
            r@.len() > 0,
    {
        match local_now_text() {
            Some(t) => t,
            None => utc_now_text(),
        }
    }

    fn style_timestamp(&self, ansi: bool, elapsed: u64) -> (r: String)
        ensures
            r@ == (if self.higher_precision {
                precise_timestamp(ansi, elapsed)
            } else {
                short_timestamp(ansi, elapsed)
            }),
    {
        style_timestamp(ansi, self.higher_precision, elapsed)
    }
}

#[verifier::external_type_specification]
#[verifier::external_body]
pub struct ExInstant(std::time::Instant);

/// Relies on `std::time::Instant::now`: a reading of the monotonic clock.
#[verifier::external_body]
fn instant_now() -> std::time::Instant {
    std::time::Instant::now()
}

/// Relies on `std::time::Instant::elapsed`: the nanoseconds since `epoch`,
/// saturated to fit in 64 bits.
#[verifier::external_body]
fn nanos_since(epoch: &std::time::Instant) -> u64 {
    u64::try_from(epoch.elapsed().as_nanos()).unwrap_or(u64::MAX)
}

/// The time since an epoch: whole seconds right-aligned in four columns, a
/// point, six digits of microseconds and `s`.
pub open spec fn uptime_text(n: u64) -> Seq<char> {
    pad_left(decimal((n / 1_000_000_000) as nat), 4, ' ') + seq!['.'] + pad_left(
        decimal(((n % 1_000_000_000) / 1000) as nat),
        6,
        '0',
    ) + seq!['s']
}

/// Writes the time `elapsed` (in nanoseconds) since an epoch.
pub fn format_uptime(elapsed: u64) -> (r: String)
    ensures
        r@ == uptime_text(elapsed),
{
    let mut w = String::new();
    push_padded(&mut w, (elapsed / 1_000_000_000) as u128, 4, ' ');
    push_char(&mut w, '.');
    push_padded(&mut w, ((elapsed % 1_000_000_000) / 1000) as u128, 6, '0');
    push_char(&mut w, 's');
    w
}

/// The time elapsed since an epoch; by default the epoch is the moment the
/// value is made.
#[derive(Debug, Clone, Copy, Eq, PartialEq)]
pub struct Uptime {
    /// The moment from which time is counted.
    pub epoch: std::time::Instant,
    /// Whether to print the time since a span started with higher precision.
    pub higher_precision: bool,
}

impl Default for Uptime {
    fn default() -> (r: Self)
        ensures
            !r.higher_precision,
    {
        Uptime { epoch: instant_now(), higher_precision: false }
    }
}

impl From<std::time::Instant> for Uptime {
    fn from(epoch: std::time::Instant) -> (r: Self) {
        Uptime { epoch, higher_precision: false }
    }
}

impl vstd::std_specs::convert::FromSpecImpl<std::time::Instant> for Uptime {
    open spec fn obeys_from_spec() -> bool {
        true
    }

    open spec fn from_spec(v: std::time::Instant) -> Self {
        Uptime { epoch: v, higher_precision: false }
    }
}

impl FormatTime for Uptime {
    fn format_time(&self) -> (r: String)
        ensures
            exists|n: u64| #[trigger] uptime_text(n) == r@,
    {
        let n = nanos_since(&self.epoch);
        let r = format_uptime(n);
        proof {
            assert(uptime_text(n) == r@);
        }
        r
    }

    fn style_timestamp(&self, ansi: bool, elapsed: u64) -> (r: String)
        ensures
            r@ == (if self.higher_precision {
                precise_timestamp(ansi, elapsed)
            } else {
                short_timestamp(ansi, elapsed)
            }),
    {
        style_timestamp(ansi, self.higher_precision, elapsed)
    }
}

} // verus!
