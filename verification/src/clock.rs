//! Instants, the clock, and their RFC 3339 notation.
use vstd::prelude::*;

use crate::text;

verus! {

/// The RFC 3339 notation, in UTC, of the instant `secs` seconds and `nanos`
/// nanoseconds after the start of 1970; none when the calendar has no such
/// instant.
pub uninterp spec fn rfc3339_text(secs: i64, nanos: u32) -> Option<Seq<char>>;

/// `chrono::DateTime::from_timestamp` followed by `DateTime::to_rfc3339`. The
/// notation is a function of the two numbers alone; there is none where
/// `from_timestamp` refuses them.
#[verifier::external_body]
fn instant_notation(secs: i64, nanos: u32) -> (r: Option<String>)
    ensures
        text::opt_view(r) == rfc3339_text(secs, nanos),
{
    chrono::DateTime::<chrono::Utc>::from_timestamp(secs, nanos).map(|t| t.to_rfc3339())
}

/// `chrono::Utc::now`, taken apart into whole seconds and nanoseconds. What
/// the clock shows is open; whatever it shows, `from_timestamp` takes the two
/// parts back. It needs a system clock that is not set before 1970.
#[verifier::external_body]
fn clock_reading() -> (r: (i64, u32))
    ensures
        rfc3339_text(r.0, r.1) is Some,
{
    let now = chrono::Utc::now();
    (now.timestamp(), now.timestamp_subsec_nanos())
}

/// An instant in UTC that has an RFC 3339 notation.
#[derive(Clone, Copy, Debug, PartialEq, Eq, Structural)]
pub struct Timestamp {
    secs: i64,
    nanos: u32,
}

impl View for Timestamp {
    type V = (i64, u32);

    closed spec fn view(&self) -> (i64, u32) {
        (self.secs, self.nanos)
    }
}

impl Timestamp {
    #[verifier::type_invariant]
    closed spec fn has_notation(self) -> bool {
        rfc3339_text(self.secs, self.nanos) is Some
    }

    /// The instant `secs` seconds and `nanos` nanoseconds after the start of
    /// 1970, where the calendar has it.
    pub fn new(secs: i64, nanos: u32) -> (r: Option<Timestamp>)
        ensures
            r is Some <==> rfc3339_text(secs, nanos) is Some,
            r matches Some(t) ==> t@ == (secs, nanos),
    {
        match instant_notation(secs, nanos) {
            Some(_) => Some(Timestamp { secs, nanos }),
            None => None,
        }
    }

    /// What the clock shows.
    pub fn now() -> (r: Timestamp)
        ensures
            rfc3339_text(r@.0, r@.1) is Some,
    {
        let (secs, nanos) = clock_reading();
        Timestamp { secs, nanos }
    }

    /// Whole seconds since the start of 1970.
    pub fn seconds(&self) -> (r: i64)
        ensures
            r == self@.0,
    {
        self.secs
    }

    /// The RFC 3339 notation of the instant.
    pub fn to_rfc3339(&self) -> (r: String)
        ensures
            rfc3339_text(self@.0, self@.1) == Some(r@),
    {
        proof {
            use_type_invariant(self);
        }
        instant_notation(self.secs, self.nanos).unwrap()
    }
}

} // verus!
