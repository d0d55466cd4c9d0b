//! The scraping interval given on the command line.
use vstd::prelude::*;

use crate::span_bound::{duration_bound, duration_limit, reaches_duration_limit};

verus! {

/// A span of time: whole seconds and the nanoseconds past them.
#[derive(Debug, Clone, Copy, PartialEq, Eq, Structural)]
pub struct Interval {
    pub secs: u64,
    pub nanos: u32,
}

/// What `humantime` makes of a text as a duration: the duration as whole
/// seconds and nanoseconds, or the text of its error.
pub uninterp spec fn humantime_duration(text: Seq<char>) -> Result<(u64, u32), Seq<char>>;

/// Parses a human-readable duration (`"1h"`, `"2h 37min"`, `"4.2s"`) with
/// `humantime::Duration::from_str`, and hands the error back as its display
/// text. The split into seconds and nanoseconds is that of
/// `std::time::Duration`, whose nanoseconds stay below one second.
///
/// `humantime` adds the spans up with `std::time::Duration::new`, which
/// panics when a carried second of nanoseconds makes the seconds overflow:
/// only when the sum reaches 2^64 seconds. The sums it builds never exceed
/// `duration_bound(text)`, so `requires` keeps to texts whose bound stays
/// below that.
#[verifier::external_body]
fn parse_human_duration(text: &str) -> (parsed: Result<(u64, u32), String>)
    requires
        duration_bound(text@) < duration_limit(),
    ensures
        match parsed {
            Ok(parts) => humantime_duration(text@) == Ok::<(u64, u32), Seq<char>>(parts) && parts.1
                < 1_000_000_000,
            Err(message) => humantime_duration(text@) == Err::<(u64, u32), Seq<char>>(message@),
        },
{
    text.parse::<humantime::Duration>().map(|d| (d.as_secs(), d.subsec_nanos())).map_err(
        |e| e.to_string(),
    )
}

/// The display text of the error that `humantime` gives for a number or a
/// duration too large to represent.
pub open spec fn number_too_large_message() -> Seq<char> {
    "number is too large or cannot be represented without a lack of precision (values below 1ns are not supported)"@
}

/// The message for an interval under one minute.
pub open spec fn too_short_message() -> Seq<char> {
    "interval must be at least 1m"@
}

/// The interval that a parsed duration gives: any duration of at least one
/// minute; a shorter one is refused; a parse error is passed on.
pub open spec fn interval_outcome(parsed: Result<(u64, u32), Seq<char>>) -> Result<(u64, u32), Seq<char>> {
    match parsed {
        Ok((secs, nanos)) => if secs < 60 {
            Err(too_short_message())
        } else {
            Ok((secs, nanos))
        },
        Err(message) => Err(message),
    }
}

/// Checks a parsed duration: it is taken as the interval if it lasts at
/// least one minute.
pub fn interval_from_parsed(parsed: Result<(u64, u32), String>) -> (interval: Result<Interval, String>)
    ensures
        match (parsed, interval) {
            (Ok((secs, nanos)), Ok(i)) => secs >= 60 && i == Interval { secs, nanos },
            (Ok((secs, _)), Err(message)) => secs < 60 && message@ == too_short_message(),
            (Err(e), Err(message)) => message@ == e@,
            (Err(_), Ok(_)) => false,
        },
{
    match parsed {
        Ok((secs, nanos)) => {
            if secs < 60 {
                Err(String::from_str("interval must be at least 1m"))
            } else {
                Ok(Interval { secs, nanos })
            }
        },
        Err(message) => Err(message),
    }
}

/// Reads the scraping interval: a human-readable duration of at least one
/// minute.
///
/// A text that could add up to 2^64 seconds or more is answered, without
/// asking `humantime`, with the error that `humantime` gives for it, as it
/// would otherwise fail or panic on it.
pub fn parse_interval(text: &str) -> (interval: Result<Interval, String>)
    ensures
        duration_bound(text@) < duration_limit() && humantime_duration(text@) is Ok
            && humantime_duration(text@)->Ok_0.0 >= 60 ==> interval == Ok::<Interval, String>(
            (Interval {
                secs: humantime_duration(text@)->Ok_0.0,
                nanos: humantime_duration(text@)->Ok_0.1,
            }),
        ),
        duration_bound(text@) < duration_limit() && humantime_duration(text@) is Ok
            && humantime_duration(text@)->Ok_0.0 < 60 ==> (interval matches Err(message)
            && message@ == "interval must be at least 1m"@),
        duration_bound(text@) < duration_limit() && humantime_duration(text@) is Err ==> (
        interval matches Err(message) && message@ == humantime_duration(text@)->Err_0),
        duration_bound(text@) >= duration_limit() ==> (interval matches Err(message) && message@
            == number_too_large_message()),
        duration_bound(text@) < duration_limit() ==> match interval {
            Ok(i) => interval_outcome(humantime_duration(text@)) == Ok::<(u64, u32), Seq<char>>(
                (i.secs, i.nanos),
            ) && i.secs >= 60 && i.nanos < 1_000_000_000,
            Err(message) => interval_outcome(humantime_duration(text@)) == Err::<
                (u64, u32),
                Seq<char>,
            >(message@),
        },
{
    if reaches_duration_limit(text) {
        return Err(
            String::from_str(
                "number is too large or cannot be represented without a lack of precision (values below 1ns are not supported)",
            ),
        );
    }
    interval_from_parsed(parse_human_duration(text))
}

/// Every duration of at least one minute is taken as it is, every shorter
/// one is refused as too short, and a parse error is passed on unchanged.
pub proof fn lemma_interval_outcome(parsed: Result<(u64, u32), Seq<char>>)
    ensures
        parsed is Ok && parsed->Ok_0.0 >= 60 ==> interval_outcome(parsed) == parsed,
        parsed is Ok && parsed->Ok_0.0 < 60 ==> interval_outcome(parsed) == Err::<
            (u64, u32),
            Seq<char>,
        >("interval must be at least 1m"@),
        parsed is Err ==> interval_outcome(parsed) == parsed,
{
}

} // verus!
