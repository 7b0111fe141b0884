use vstd::prelude::*;

verus! {

/// Layout of a timestamp as trading-platform clients write it.
pub const WIRE_FORMAT: &'static str = "%Y.%m.%d %H:%M:%S";

/// Layout of a timestamp as the store keeps it.
pub const STORAGE_FORMAT: &'static str = "%Y-%m-%d %H:%M:%S";

#[verifier::external_type_specification]
#[verifier::external_body]
pub struct ExParseError(chrono::format::ParseError);

/// The instant that chrono reads out of `text` under the strftime layout
/// `format`, as whole seconds since the Unix epoch and the nanoseconds past
/// them; `None` where chrono rejects the text.
pub uninterp spec fn parsed_instant(text: Seq<char>, format: Seq<char>) -> Option<(i64, u32)>;

/// The text that chrono writes for the UTC instant `secs` seconds and `nanos`
/// nanoseconds after the Unix epoch under the strftime layout `format`;
/// `None` where chrono cannot represent the instant or rejects the layout.
pub uninterp spec fn formatted_instant(secs: i64, nanos: u32, format: Seq<char>) -> Option<Seq<char>>;

/// Calls `chrono::NaiveDateTime::parse_from_str` and reads the parsed value as
/// a UTC instant through `DateTime::timestamp` and
/// `DateTime::timestamp_subsec_nanos`. Nothing is claimed of the outcome but
/// that it is the one chrono gives for this text and layout.
#[verifier::external_body]
fn parse_instant(text: &str, format: &str) -> (r: Result<(i64, u32), chrono::format::ParseError>)
    ensures
        r matches Ok(instant) ==> parsed_instant(text@, format@) == Some(instant),
        r is Err ==> parsed_instant(text@, format@) is None,
{
    match chrono::NaiveDateTime::parse_from_str(text, format) {
        Ok(naive) => {
            let utc = naive.and_utc();
            Ok((utc.timestamp(), utc.timestamp_subsec_nanos()))
        },
        Err(e) => Err(e),
    }
}

/// Builds the instant with `chrono::DateTime::from_timestamp` and writes it
/// with `DateTime::format` and `DelayedFormat::write_to`. Nothing is claimed
/// of the outcome but that it is the one chrono gives for this instant and
/// layout.
#[verifier::external_body]
fn format_instant(secs: i64, nanos: u32, format: &str) -> (r: Option<String>)
    ensures
        r matches Some(text) ==> formatted_instant(secs, nanos, format@) == Some(text@),
        r is None ==> formatted_instant(secs, nanos, format@) is None,
{
    match chrono::DateTime::from_timestamp(secs, nanos) {
        Some(instant) => {
            let mut text = String::new();
            match instant.format(format).write_to(&mut text) {
                Ok(()) => Some(text),
                Err(_) => None,
            }
        },
        None => None,
    }
}

/// A text that is not a timestamp in the layout it was read under.
#[derive(Clone, Copy, Debug, PartialEq, Eq, Structural)]
pub struct InvalidTimestamp;

/// A UTC instant: whole seconds since the Unix epoch and the nanoseconds past
/// the last whole second.
#[derive(Clone, Copy, Debug, PartialEq, Eq, Structural)]
pub struct DateTimeWrapper {
    pub secs: i64,
    pub nanos: u32,
}

impl DateTimeWrapper {
    /// The instant that `parsed` stands for, if it stands for one.
    pub open spec fn from_parsed(parsed: Option<(i64, u32)>) -> Result<DateTimeWrapper, InvalidTimestamp> {
        match parsed {
            Some((secs, nanos)) => Ok(DateTimeWrapper { secs, nanos }),
            None => Err(InvalidTimestamp),
        }
    }

    /// `self` is strictly earlier than `other`.
    pub open spec fn before(self, other: DateTimeWrapper) -> bool {
        self.secs < other.secs || (self.secs == other.secs && self.nanos < other.nanos)
    }

    /// `self` lies no more than `window` seconds before `now`; an instant
    /// after `now` counts as inside.
    pub open spec fn within(self, now: DateTimeWrapper, window: i64) -> bool {
        self.secs + window > now.secs || (self.secs + window == now.secs && self.nanos >= now.nanos)
    }

    pub fn is_before(&self, other: &DateTimeWrapper) -> (r: bool)
        ensures
            r == self.before(*other),
    {
        self.secs < other.secs || (self.secs == other.secs && self.nanos < other.nanos)
    }

    pub fn is_within(&self, now: &DateTimeWrapper, window: i64) -> (r: bool)
        ensures
            r == self.within(*now, window),
    {
        let latest: i128 = self.secs as i128 + window as i128;
        let asked: i128 = now.secs as i128;
        latest > asked || (latest == asked && self.nanos >= now.nanos)
    }

    /// The instant `secs` seconds and `nanos` nanoseconds after the epoch.
    pub fn new(secs: i64, nanos: u32) -> (r: DateTimeWrapper)
        ensures
            r == (DateTimeWrapper { secs, nanos }),
    {
        DateTimeWrapper { secs, nanos }
    }

    /// Reads a timestamp in the wire layout.
    pub fn from_str(s: &str) -> (r: Result<DateTimeWrapper, InvalidTimestamp>)
        ensures
            r == Self::from_parsed(parsed_instant(s@, WIRE_FORMAT@)),
    {
        match parse_instant(s, WIRE_FORMAT) {
            Ok((secs, nanos)) => Ok(DateTimeWrapper::new(secs, nanos)),
            Err(_) => Err(InvalidTimestamp),
        }
    }

    /// Reads a timestamp in the storage layout.
    pub fn column_result(text: &str) -> (r: Result<DateTimeWrapper, InvalidTimestamp>)
        ensures
            r == Self::from_parsed(parsed_instant(text@, STORAGE_FORMAT@)),
    {
        match parse_instant(text, STORAGE_FORMAT) {
            Ok((secs, nanos)) => Ok(DateTimeWrapper::new(secs, nanos)),
            Err(_) => Err(InvalidTimestamp),
        }
    }

    /// Writes the timestamp in the storage layout.
    pub fn to_sql(&self) -> (r: Option<String>)
        ensures
            r matches Some(text) ==> formatted_instant(self.secs, self.nanos, STORAGE_FORMAT@) == Some(text@),
            r is None ==> formatted_instant(self.secs, self.nanos, STORAGE_FORMAT@) is None,
    {
        format_instant(self.secs, self.nanos, STORAGE_FORMAT)
    }

    /// Writes the timestamp in the wire layout.
    pub fn to_wire(&self) -> (r: Option<String>)
        ensures
            r matches Some(text) ==> formatted_instant(self.secs, self.nanos, WIRE_FORMAT@) == Some(text@),
            r is None ==> formatted_instant(self.secs, self.nanos, WIRE_FORMAT@) is None,
    {
        format_instant(self.secs, self.nanos, WIRE_FORMAT)
    }
}

} // verus!
