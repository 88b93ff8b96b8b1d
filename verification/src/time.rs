//! Points in time, and the deadline that a command-line argument names.

use crate::span::{is_overlong, overlong};
use std::str::FromStr;
use vstd::prelude::*;

verus! {

/// `humantime::DurationError`: why a text is no span of time.
#[verifier::external_type_specification]
#[verifier::external_body]
pub struct ExDurationError(humantime::DurationError);

/// A point in time: the nanoseconds since the Unix epoch.
#[derive(Debug, Clone, Copy, PartialEq, Eq)]
pub struct Time(pub u128);

/// The time that `humantime::Timestamp` reads the text as, in nanoseconds
/// since the Unix epoch.
pub uninterp spec fn timestamp(text: Seq<char>) -> Option<u128>;

/// The span that `humantime::Duration` reads the text as, in nanoseconds,
/// or what its error says where it reads none.
pub uninterp spec fn span(text: Seq<char>) -> Result<u128, Seq<char>>;

/// What a `humantime::DurationError` shows when it is displayed.
pub uninterp spec fn complaint(error: humantime::DurationError) -> Seq<char>;

/// What is said of a text that names a span longer than the longest.
pub open spec fn too_large() -> Seq<char> {
    "number is too large"@
}

/// What is said of a span that leads past the last point in time.
pub open spec fn out_of_range() -> Seq<char> {
    "overflow when adding duration to instant"@
}

/// The deadline that `text` names for someone who reads it at `now`: the
/// timestamp that it is, or else `now` and the span that it is. Where it
/// is neither, the parser of spans says why it is no span. The one text
/// that the parser cannot be asked about, the span a second longer than
/// the longest, is too large.
pub open spec fn deadline(text: Seq<char>, now: Time) -> Result<Time, Seq<char>> {
    match timestamp(text) {
        Some(nanos) => Ok(Time(nanos)),
        None => if overlong(text) {
            Err(too_large())
        } else {
            match span(text) {
                Ok(nanos) => if now.0 + nanos <= u128::MAX {
                    Ok(Time((now.0 + nanos) as u128))
                } else {
                    Err(out_of_range())
                },
                Err(said) => Err(said),
            }
        },
    }
}

/// A parsed deadline with its message as a character sequence.
pub open spec fn deadline_view(r: Result<Time, String>) -> Result<Time, Seq<char>> {
    match r {
        Ok(time) => Ok(time),
        Err(said) => Err(said@),
    }
}

/// `FromStr` of `humantime::Timestamp`: a timestamp of RFC 3339 in UTC, the
/// `T` and the `Z` optional, as nanoseconds since the Unix epoch.
#[verifier::external_body]
fn parse_timestamp(s: &str) -> (nanos: Option<u128>)
    ensures
        nanos == timestamp(s@),
{
    let at: std::time::SystemTime = s.parse::<humantime::Timestamp>().ok()?.into();
    at.duration_since(std::time::UNIX_EPOCH).ok().map(|d| d.as_nanos())
}

/// `FromStr` of `humantime::Duration`: a sum of numbers with units, as
/// nanoseconds, or the error that says why the text is no such sum. The
/// crate builds its result with `Duration::new`, which panics where the
/// seconds are `u64::MAX` and the nanoseconds a full second. It comes to
/// build that where `overlong` holds of the text, and there only:
/// `reading` goes through the text as the crate's parser does, `added`
/// does what its `parse_unit` does, and `scale` holds its units.
#[verifier::external_body]
fn parse_span(s: &str) -> (r: Result<u128, humantime::DurationError>)
    requires
        !overlong(s@),
    ensures
        match r {
            Ok(nanos) => span(s@) == Ok::<u128, Seq<char>>(nanos),
            Err(error) => span(s@) == Err::<u128, Seq<char>>(complaint(error)),
        },
{
    s.parse::<humantime::Duration>().map(|d| d.as_nanos())
}

/// `Display` of `humantime::DurationError`: what is wrong, and where.
#[verifier::external_body]
fn complain(error: &humantime::DurationError) -> (said: String)
    ensures
        said@ == complaint(*error),
{
    format!("{}", error)
}

/// `SystemTime::now`, as nanoseconds since the Unix epoch; `None` where the
/// clock reads a time before it.
#[verifier::external_body]
fn clock() -> Option<u128> {
    std::time::SystemTime::now().duration_since(std::time::UNIX_EPOCH).ok().map(|d| d.as_nanos())
}

impl Time {
    /// Whether this point in time lies before `other`.
    pub fn before(&self, other: &Time) -> (b: bool)
        ensures
            b == (self.0 < other.0),
    {
        self.0 < other.0
    }

    /// The point in time `nanos` nanoseconds after this one; `None` where
    /// there is none.
    pub fn after(&self, nanos: u128) -> (later: Option<Time>)
        ensures
            later == if self.0 + nanos <= u128::MAX {
                Some(Time((self.0 + nanos) as u128))
            } else {
                None
            },
    {
        match self.0.checked_add(nanos) {
            Some(sum) => Some(Time(sum)),
            None => None,
        }
    }

    /// The nanoseconds from this point in time to `later`; zero where
    /// `later` is not later.
    pub fn until(&self, later: &Time) -> (nanos: u128)
        ensures
            nanos == if self.0 < later.0 {
                later.0 - self.0
            } else {
                0
            },
    {
        if self.0 < later.0 {
            later.0 - self.0
        } else {
            0
        }
    }

    /// The current time. A clock that reads a time before the Unix epoch
    /// counts as reading the epoch.
    pub fn now() -> Time {
        Time::read(clock())
    }

    /// The time that a reading of the clock stands for: the nanoseconds
    /// since the Unix epoch that it gives, or the epoch where it gives
    /// none.
    pub open spec fn reading(nanos: Option<u128>) -> Time {
        match nanos {
            Some(nanos) => Time(nanos),
            None => Time(0),
        }
    }

    /// The time that a reading of the clock stands for. A clock that reads
    /// a time before the Unix epoch gives no nanoseconds, and counts as
    /// reading the epoch.
    pub fn read(nanos: Option<u128>) -> (time: Time)
        ensures
            time == Time::reading(nanos),
    {
        match nanos {
            Some(nanos) => Time(nanos),
            None => Time(0),
        }
    }

    /// Reads a deadline at the time `now`: `s` as a timestamp, or else as a
    /// span that starts at `now`. Where it is neither, the error says why
    /// it is no span. The span that is a second longer than the longest is
    /// refused as too large.
    pub fn parse_at(s: &str, now: Time) -> (r: Result<Time, String>)
        ensures
            deadline_view(r) == deadline(s@, now),
    {
        match parse_timestamp(s) {
            Some(nanos) => Ok(Time(nanos)),
            None => {
                if is_overlong(s) {
                    Err("number is too large".to_owned())
                } else {
                    match parse_span(s) {
                        Ok(nanos) => match now.after(nanos) {
                            Some(later) => Ok(later),
                            None => Err("overflow when adding duration to instant".to_owned()),
                        },
                        Err(error) => Err(complain(&error)),
                    }
                }
            },
        }
    }

    /// Reads a deadline at the current time.
    pub fn parse(s: &str) -> (r: Result<Time, String>)
        ensures
            exists|now: Time| deadline_view(r) == #[trigger] deadline(s@, now),
            timestamp(s@) matches Some(nanos) ==> r == Ok::<Time, String>(Time(nanos)),
    {
        let now = Time::now();
        let r = Time::parse_at(s, now);
        assert(deadline_view(r) == deadline(s@, now));
        r
    }
}

impl FromStr for Time {
    type Err = String;

    /// Reads a deadline at the current time.
    fn from_str(s: &str) -> (r: Result<Time, String>)
        ensures
            exists|now: Time| deadline_view(r) == #[trigger] deadline(s@, now),
            timestamp(s@) matches Some(nanos) ==> r == Ok::<Time, String>(Time(nanos)),
    {
        Time::parse(s)
    }
}

} // verus!
