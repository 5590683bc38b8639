//! Instants on the UTC time line, and their text form.

use crate::error::DecodeError;
use crate::value::{Value, ValueView};
use crate::wire::Wire;
use vstd::prelude::*;

verus! {

/// The earliest second that can be held: the first second of the year -262143.
pub const MIN_SECONDS: i64 = -8_334_601_228_800;

/// The latest second that can be held: the last second of the year 262142.
pub const MAX_SECONDS: i64 = 8_210_266_876_799;

/// Nanoseconds in one second.
pub const NANOS_PER_SECOND: u32 = 1_000_000_000;

/// An instant as plain numbers: whole seconds since 1970-01-01T00:00:00Z, leap seconds not
/// counted, and the nanoseconds past that second.
pub struct Instant {
    pub seconds: int,
    pub nanos: int,
}

/// The instants a [`DateTime`] can hold.
///
/// The seconds lie between [`MIN_SECONDS`] and [`MAX_SECONDS`]. The nanoseconds stay under two
/// seconds' worth, and reach one second's worth only within a minute's last second, where they
/// stand for a leap second.
pub open spec fn valid_instant(seconds: int, nanos: int) -> bool {
    &&& MIN_SECONDS <= seconds <= MAX_SECONDS
    &&& 0 <= nanos < 2 * NANOS_PER_SECOND
    &&& nanos >= NANOS_PER_SECOND ==> seconds % 60 == 59
}

impl Instant {
    /// Whether a [`DateTime`] can hold the instant.
    pub open spec fn valid(self) -> bool {
        valid_instant(self.seconds, self.nanos)
    }
}

/// The text that chrono writes for an instant: its RFC 3339 form with the `Z` designator, and
/// with as many groups of three fraction digits as the nanoseconds need.
pub uninterp spec fn rfc3339_text(seconds: int, nanos: int) -> Seq<char>;

/// The instant that chrono reads from a text, as seconds and nanoseconds, where it reads one.
pub uninterp spec fn rfc3339_instant(text: Seq<char>) -> Option<(int, int)>;

/// Writes an instant as text.
///
/// Calls chrono's `DateTime::<Utc>::from_timestamp` and, on what it gives,
/// `DateTime::to_rfc3339_opts` with `SecondsFormat::AutoSi` and the `Z` designator. The contract
/// claims that chrono takes every valid instant, that the text depends on the instant alone,
/// and that chrono reads the same instant back from the text it wrote.
#[verifier::external_body]
fn write_rfc3339(seconds: i64, nanos: u32) -> (text: Option<String>)
    ensures
        valid_instant(seconds as int, nanos as int) ==> text is Some,
        text matches Some(t) ==> t@ == rfc3339_text(seconds as int, nanos as int),
        text matches Some(t) ==> rfc3339_instant(t@) == Some((seconds as int, nanos as int)),
{
    match chrono::DateTime::from_timestamp(seconds, nanos) {
        Some(t) => Some(t.to_rfc3339_opts(chrono::SecondsFormat::AutoSi, true)),
        None => None,
    }
}

/// Reads an instant from text.
///
/// Calls chrono's `FromStr` for `DateTime<Utc>`, then `DateTime::timestamp` and
/// `DateTime::timestamp_subsec_nanos` on what it gives. The contract claims that whether chrono
/// reads an instant, and which, depends on the text alone.
#[verifier::external_body]
fn read_rfc3339(text: &str) -> (instant: Option<(i64, u32)>)
    ensures
        instant matches Some(at) ==> rfc3339_instant(text@) == Some((at.0 as int, at.1 as int)),
        instant is None ==> rfc3339_instant(text@) is None,
{
    match text.parse::<chrono::DateTime<chrono::Utc>>() {
        Ok(t) => Some((t.timestamp(), t.timestamp_subsec_nanos())),
        Err(_) => None,
    }
}

/// An instant on the UTC time line, to the nanosecond.
#[derive(Debug, Clone, Copy, PartialEq, Eq, PartialOrd, Ord, Hash)]
pub struct DateTime {
    seconds: i64,
    nanos: u32,
}

impl View for DateTime {
    type V = Instant;

    closed spec fn view(&self) -> Instant {
        Instant { seconds: self.seconds as int, nanos: self.nanos as int }
    }
}

impl DateTime {
    #[verifier::type_invariant]
    spec fn well_formed(self) -> bool {
        self@.valid()
    }

    /// What [`DateTime::from_text`] reads from a text: the instant that `rfc3339_instant` names,
    /// where there is one and it is valid.
    pub open spec fn parsed(text: Seq<char>) -> Option<Instant> {
        match rfc3339_instant(text) {
            Some((seconds, nanos)) => {
                let instant = Instant { seconds, nanos };
                if instant.valid() {
                    Some(instant)
                } else {
                    None
                }
            },
            None => None,
        }
    }

    /// The instant `seconds` and `nanos` past the epoch, where that is a valid instant.
    pub fn from_timestamp(seconds: i64, nanos: u32) -> (made: Option<DateTime>)
        ensures
            match made {
                Some(t) => t@ == (Instant { seconds: seconds as int, nanos: nanos as int })
                    && t@.valid(),
                None => !(Instant { seconds: seconds as int, nanos: nanos as int }).valid(),
            },
    {
        if seconds < MIN_SECONDS || seconds > MAX_SECONDS {
            return None;
        }
        if nanos >= 2 * NANOS_PER_SECOND {
            return None;
        }
        // Counted from the earliest second, which begins a minute, the seconds are not negative.
        let past: i64 = seconds - MIN_SECONDS;
        assert(past % 60 == seconds % 60) by {
            assert(MIN_SECONDS == 60 * -138_910_020_480);
            vstd::arithmetic::div_mod::lemma_mod_multiples_vanish(138_910_020_480, seconds as int, 60);
        }
        if nanos >= NANOS_PER_SECOND && past % 60 != 59 {
            return None;
        }
        Some(DateTime { seconds, nanos })
    }

    /// Whole seconds since 1970-01-01T00:00:00Z.
    pub fn timestamp(&self) -> (seconds: i64)
        ensures
            seconds == self@.seconds,
            self@.valid(),
    {
        proof {
            use_type_invariant(self);
        }
        self.seconds
    }

    /// Nanoseconds past the whole second; a second's worth or more within a leap second.
    pub fn timestamp_subsec_nanos(&self) -> (nanos: u32)
        ensures
            nanos == self@.nanos,
            self@.valid(),
    {
        proof {
            use_type_invariant(self);
        }
        self.nanos
    }

    /// The RFC 3339 text of the instant, with the `Z` designator.
    pub fn to_text(&self) -> (text: String)
        ensures
            text@ == rfc3339_text(self@.seconds, self@.nanos),
            DateTime::parsed(text@) == Some(self@),
    {
        proof {
            use_type_invariant(self);
        }
        write_rfc3339(self.seconds, self.nanos).unwrap()
    }

    /// Reads an instant from its RFC 3339 text, whatever offset the text is written with.
    pub fn from_text(text: &str) -> (read: Option<DateTime>)
        ensures
            match read {
                Some(t) => DateTime::parsed(text@) == Some(t@),
                None => DateTime::parsed(text@) is None,
            },
    {
        match read_rfc3339(text) {
            Some((seconds, nanos)) => DateTime::from_timestamp(seconds, nanos),
            None => None,
        }
    }
}

/// An instant is written as its RFC 3339 text with the `Z` designator, a text that reads back as
/// the same instant. It is read from any RFC 3339 text, whatever its offset.
impl Wire for DateTime {
    open spec fn encodes(value: Instant, datum: ValueView) -> bool {
        &&& datum matches ValueView::Text(text)
        &&& text == rfc3339_text(value.seconds, value.nanos)
        &&& DateTime::parsed(text) == Some(value)
    }

    open spec fn decoded(datum: ValueView) -> Result<Instant, DecodeError> {
        match datum {
            ValueView::Text(text) => match DateTime::parsed(text) {
                Some(instant) => Ok(instant),
                None => Err(DecodeError::Mismatch),
            },
            _ => Err(DecodeError::Mismatch),
        }
    }

    proof fn law_round_trip(value: Instant, datum: ValueView) {
    }

    fn encode(&self) -> (datum: Value) {
        Value::Text(self.to_text())
    }

    fn decode(datum: &Value) -> (read: Result<DateTime, DecodeError>) {
        match datum {
            Value::Text(text) => match DateTime::from_text(text.as_str()) {
                Some(instant) => Ok(instant),
                None => Err(DecodeError::Mismatch),
            },
            _ => Err(DecodeError::Mismatch),
        }
    }
}

} // verus!
