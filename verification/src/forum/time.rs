//! Points in time, as the board stores and prints them.
use vstd::prelude::*;

verus! {

/// The text that chrono prints for the point in time `secs` seconds and
/// `nanos` nanoseconds after the epoch, in UTC; `None` where chrono has no
/// such point in time.
pub uninterp spec fn utc_text(secs: i64, nanos: u32) -> Option<Seq<char>>;

/// Calls `chrono::DateTime::from_timestamp` and prints the result.
#[verifier::external_body]
fn utc_string(secs: i64, nanos: u32) -> (text: Option<String>)
    ensures
        match text {
            Some(t) => utc_text(secs, nanos) == Some(t@),
            None => utc_text(secs, nanos) is None,
        },
{
    match chrono::DateTime::from_timestamp(secs, nanos) {
        Some(time) => Some(time.to_string()),
        None => None,
    }
}

/// A point in time, in UTC.
#[derive(Debug, PartialEq, Eq)]
pub struct Timestamp {
    secs: i64,
    nanos: u32,
    text: String,
}

/// A [`Timestamp`] as mathematics.
pub struct TimestampView {
    pub secs: i64,
    pub nanos: u32,
}

impl TimestampView {
    /// The point in time as text.
    pub open spec fn text(self) -> Seq<char> {
        utc_text(self.secs, self.nanos).unwrap()
    }
}

impl View for Timestamp {
    type V = TimestampView;

    closed spec fn view(&self) -> TimestampView {
        TimestampView { secs: self.secs, nanos: self.nanos }
    }
}

impl Clone for Timestamp {
    fn clone(&self) -> (copy: Self)
        ensures
            copy@ == self@,
    {
        proof {
            use_type_invariant(self);
        }
        Timestamp { secs: self.secs, nanos: self.nanos, text: self.text.clone() }
    }
}

impl Timestamp {
    #[verifier::type_invariant]
    spec fn well_formed(&self) -> bool {
        utc_text(self.secs, self.nanos) == Some(self.text@)
    }

    /// The point in time `secs` seconds and `nanos` nanoseconds after the
    /// epoch, where there is one.
    pub fn from_timestamp(secs: i64, nanos: u32) -> (time: Option<Timestamp>)
        ensures
            time is Some <==> utc_text(secs, nanos) is Some,
            time matches Some(t) ==> t@ == (TimestampView { secs, nanos }),
    {
        match utc_string(secs, nanos) {
            Some(text) => Some(Timestamp { secs, nanos, text }),
            None => None,
        }
    }

    /// Whole seconds since the epoch.
    pub fn secs(&self) -> (secs: i64)
        ensures
            secs == self@.secs,
    {
        self.secs
    }

    /// Nanoseconds beyond the whole seconds.
    pub fn nanos(&self) -> (nanos: u32)
        ensures
            nanos == self@.nanos,
    {
        self.nanos
    }

    /// The point in time as text.
    pub fn as_str(&self) -> (text: &str)
        ensures
            text@ == self@.text(),
    {
        proof {
            use_type_invariant(self);
        }
        self.text.as_str()
    }
}

} // verus!
