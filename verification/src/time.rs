use vstd::prelude::*;

verus! {

/// The text that the RFC 3339 formatter produces, in UTC, for an instant
/// given as whole seconds since the Unix epoch.
pub uninterp spec fn utc_rfc3339_of(seconds: i64) -> Seq<char>;

/// The instant, in whole seconds since the Unix epoch, that an RFC 3339
/// date-and-time text denotes; nothing when the text is not such a value.
/// Sub-second digits are discarded.
pub uninterp spec fn parsed_rfc3339(text: Seq<char>) -> Option<i64>;

/// The last representable instant kept by this library:
/// the end of year 9999, in seconds since the Unix epoch.
pub const MAX_EPOCH_SECONDS: i64 = 253402300799;

/// Relies on chrono's `DateTime::from_timestamp` and `DateTime::to_rfc3339`:
/// the text is a function of the instant alone (the formatter works in UTC),
/// and `DateTime::parse_from_rfc3339` reads the text back to the same
/// instant, both as chrono documents. `from_timestamp` is `Some` on the whole
/// admitted range, so the formatter is reached on every admitted input.
#[verifier::external_body]
fn format_utc_rfc3339(seconds: i64) -> (r: String)
    requires
        0 <= seconds <= MAX_EPOCH_SECONDS,
    ensures
        r@ == utc_rfc3339_of(seconds),
        parsed_rfc3339(r@) == Some(seconds),
{
    chrono::DateTime::<chrono::Utc>::from_timestamp(seconds, 0).unwrap().to_rfc3339()
}

/// Relies on chrono's `DateTime::parse_from_rfc3339`: parsing is a function
/// of the text alone; the instant is taken in whole seconds.
#[verifier::external_body]
pub fn parse_rfc3339(text: &str) -> (r: Option<i64>)
    ensures
        r == parsed_rfc3339(text@),
{
    match chrono::DateTime::parse_from_rfc3339(text) {
        Ok(instant) => Some(instant.timestamp()),
        Err(_) => None,
    }
}

/// The instant floored to a whole minute.
pub open spec fn minute_floor(seconds: int) -> int {
    seconds - seconds % 60
}

/// Floors an instant to a whole minute, as the destination keeps due times
/// without seconds.
pub fn floor_to_minute(seconds: i64) -> (r: i64)
    requires
        0 <= seconds,
    ensures
        r == minute_floor(seconds as int),
        0 <= r <= seconds,
{
    seconds - seconds % 60
}

/// An instant together with the date-and-time text that denotes it on the
/// wire. The text is the carried truth; the seconds are what reconciliation
/// compares.
#[derive(Debug, PartialEq, Eq)]
pub struct DateStamp {
    pub seconds: i64,
    pub text: String,
}

/// Mathematical mirror of `DateStamp`.
#[verifier::ext_equal]
pub struct DateStampView {
    pub seconds: i64,
    pub text: Seq<char>,
}

impl View for DateStamp {
    type V = DateStampView;

    open spec fn view(&self) -> DateStampView {
        DateStampView { seconds: self.seconds, text: self.text@ }
    }
}

impl DateStampView {
    /// The text and the instant agree.
    pub open spec fn wf(self) -> bool {
        parsed_rfc3339(self.text) == Some(self.seconds)
    }
}

impl DateStamp {
    /// A stamp for the given instant, with its UTC text.
    pub fn from_seconds(seconds: i64) -> (r: DateStamp)
        requires
            0 <= seconds <= MAX_EPOCH_SECONDS,
        ensures
            r@.wf(),
            r@.seconds == seconds,
            r@.text == utc_rfc3339_of(seconds),
    {
        let text = format_utc_rfc3339(seconds);
        DateStamp { seconds, text }
    }

    /// A stamp read from wire text; nothing when the text does not denote
    /// an instant.
    pub fn from_text(text: String) -> (r: Option<DateStamp>)
        ensures
            match r {
                Some(stamp) => {
                    &&& stamp@.wf()
                    &&& stamp@.text == text@
                    &&& parsed_rfc3339(text@) == Some(stamp@.seconds)
                },
                None => parsed_rfc3339(text@) is None,
            },
    {
        match parse_rfc3339(text.as_str()) {
            Some(seconds) => Some(DateStamp { seconds, text }),
            None => None,
        }
    }
}

} // verus!
