//! Points in time, read from the archive's date format and written in
//! RFC 3339. The calendar arithmetic is chrono's.

use vstd::prelude::*;

verus! {

/// What chrono's `DateTime::parse_from_str` makes of `text` under `format`:
/// the instant as whole seconds since the Unix epoch and the nanoseconds
/// within the second, or `None` where `text` does not match.
pub uninterp spec fn parsed_instant(text: Seq<char>, format: Seq<char>) -> Option<(i64, u32)>;

/// The first second that chrono can represent: the start of the year
/// -262143.
pub const MIN_SECONDS: i64 = -8_334_601_228_800;

/// The last second that chrono can represent: the end of the year 262142.
pub const MAX_SECONDS: i64 = 8_210_266_876_799;

/// Whether the pair is an instant that chrono can represent, which is what
/// its `DateTime::from_timestamp` accepts: the second lies within chrono's
/// years, and the nanoseconds are less than a second, or less than two in
/// the last second of a minute, where they stand for a leap second.
pub open spec fn valid_instant(secs: i64, nanos: u32) -> bool {
    &&& MIN_SECONDS <= secs <= MAX_SECONDS
    &&& nanos < 2_000_000_000
    &&& (nanos < 1_000_000_000 || (secs as int) % 60 == 59)
}

/// The text that chrono's `DateTime::to_rfc3339` writes for the UTC time
/// at `secs` and `nanos`.
pub uninterp spec fn rfc3339_text(secs: i64, nanos: u32) -> Seq<char>;

/// Calls `chrono::DateTime::parse_from_str` and hands back the instant it
/// found, as `timestamp` and `timestamp_subsec_nanos` give it. The contract
/// only names the outcome.
#[verifier::external_body]
fn parse_instant(text: &str, format: &str) -> (r: Option<(i64, u32)>)
    ensures
        r == parsed_instant(text@, format@),
{
    match chrono::DateTime::parse_from_str(text, format) {
        Ok(d) => Some((d.timestamp(), d.timestamp_subsec_nanos())),
        Err(_) => None,
    }
}

/// Calls `chrono::DateTime::to_rfc3339` on the UTC time that
/// `from_timestamp` builds from the pair, which it does for every valid
/// instant. The contract only names the text.
#[verifier::external_body]
fn format_rfc3339(secs: i64, nanos: u32) -> (r: String)
    requires
        valid_instant(secs, nanos),
    ensures
        r@ == rfc3339_text(secs, nanos),
{
    match chrono::DateTime::from_timestamp(secs, nanos) {
        Some(d) => d.to_rfc3339(),
        None => String::new(),
    }
}

/// An instant in UTC that chrono can represent.
#[derive(Clone, Copy, Debug, PartialEq, Eq)]
pub struct Timestamp {
    secs: i64,
    nanos: u32,
}

impl View for Timestamp {
    type V = (i64, u32);

    /// Seconds since the Unix epoch, and nanoseconds within the second.
    closed spec fn view(&self) -> (i64, u32) {
        (self.secs, self.nanos)
    }
}

impl DeepView for Timestamp {
    type V = (i64, u32);

    open spec fn deep_view(&self) -> (i64, u32) {
        self@
    }
}

impl Timestamp {
    #[verifier::type_invariant]
    spec fn representable(self) -> bool {
        valid_instant(self.secs, self.nanos)
    }

    /// The instant `secs` seconds and `nanos` nanoseconds after the Unix
    /// epoch, where there is one.
    pub fn from_unix(secs: i64, nanos: u32) -> (r: Option<Timestamp>)
        ensures
            r.deep_view() == if valid_instant(secs, nanos) {
                Some((secs, nanos))
            } else {
                None
            },
    {
        if secs < MIN_SECONDS || secs > MAX_SECONDS || nanos >= 2_000_000_000 {
            return None;
        }
        let into_minute: i64 = (secs - MIN_SECONDS) % 60;
        assert(into_minute == (secs as int) % 60);
        if nanos < 1_000_000_000 || into_minute == 59 {
            Some(Timestamp { secs, nanos })
        } else {
            None
        }
    }

    /// Reads `text` in the strftime-style `format`.
    pub fn parse(text: &str, format: &str) -> (r: Option<Timestamp>)
        ensures
            r.deep_view() == instant_of(parsed_instant(text@, format@)),
    {
        match parse_instant(text, format) {
            Some((secs, nanos)) => Timestamp::from_unix(secs, nanos),
            None => None,
        }
    }

    /// Whole seconds since the Unix epoch.
    pub fn timestamp(&self) -> (r: i64)
        ensures
            r == self@.0,
    {
        self.secs
    }

    /// Nanoseconds since the last whole second.
    pub fn timestamp_subsec_nanos(&self) -> (r: u32)
        ensures
            r == self@.1,
    {
        self.nanos
    }

    /// The instant in RFC 3339 form.
    pub fn to_rfc3339(&self) -> (r: String)
        ensures
            r@ == rfc3339_text(self@.0, self@.1),
    {
        proof {
            use_type_invariant(self);
        }
        format_rfc3339(self.secs, self.nanos)
    }
}

/// A parsed pair as an instant: the pair itself where it is representable.
pub open spec fn instant_of(parsed: Option<(i64, u32)>) -> Option<(i64, u32)> {
    match parsed {
        Some((secs, nanos)) => if valid_instant(secs, nanos) {
            Some((secs, nanos))
        } else {
            None
        },
        None => None,
    }
}

} // verus!
