//! Dates and times: their parts as plain numbers, and the two libraries that
//! parse and print them.

use crate::text::{chars_of, string_of};
use chrono::{Datelike, Timelike};
use vstd::prelude::*;

verus! {

/// Which library reads dates, if any.
#[derive(Clone, Copy, Debug, PartialEq, Eq, Structural)]
pub enum DateSupport {
    /// Dates are read by `chrono`.
    Chrono,
    /// Dates are read by `time`.
    Time,
    /// Dates are not read: a date stays a string.
    Text,
}

#[derive(Clone, Copy, Debug, PartialEq, Eq, Structural)]
pub struct LocalDate {
    pub year: i32,
    pub month: u8,
    pub day: u8,
}

#[derive(Clone, Copy, Debug, PartialEq, Eq, Structural)]
pub struct LocalTime {
    pub hour: u8,
    pub minute: u8,
    pub second: u8,
    pub nanosecond: u32,
}

#[derive(Clone, Copy, Debug, PartialEq, Eq, Structural)]
pub struct LocalDateTime {
    pub date: LocalDate,
    pub time: LocalTime,
}

/// A date and a time as a clock shows them at the given offset from UTC, in seconds.
#[derive(Clone, Copy, Debug, PartialEq, Eq, Structural)]
pub struct OffsetDateTime {
    pub date_time: LocalDateTime,
    pub offset_seconds: i32,
}

#[derive(Clone, Copy, Debug, PartialEq, Eq, Structural)]
pub enum Date {
    OffsetDateTime(OffsetDateTime),
    LocalDateTime(LocalDateTime),
    LocalDate(LocalDate),
    LocalTime(LocalTime),
}

/// What `chrono::DateTime::parse_from_rfc3339` makes of a text.
pub uninterp spec fn chrono_rfc3339(text: Seq<char>) -> Option<OffsetDateTime>;

/// What `chrono::NaiveDateTime::parse_from_str` makes of a text under a format.
pub uninterp spec fn chrono_naive_date_time(text: Seq<char>, format: Seq<char>) -> Option<
    LocalDateTime,
>;

/// What `chrono::NaiveTime::parse_from_str` makes of a text under a format.
pub uninterp spec fn chrono_naive_time(text: Seq<char>, format: Seq<char>) -> Option<LocalTime>;

/// What `chrono::NaiveDate::parse_from_str` makes of a text under a format.
pub uninterp spec fn chrono_naive_date(text: Seq<char>, format: Seq<char>) -> Option<LocalDate>;

/// What `time::OffsetDateTime::parse` makes of a text under the format of RFC 3339.
pub uninterp spec fn time_rfc3339(text: Seq<char>) -> Option<OffsetDateTime>;

/// What `time::PrimitiveDateTime::parse` makes of a text under a format.
pub uninterp spec fn time_primitive_date_time(text: Seq<char>, format: Seq<char>) -> Option<
    LocalDateTime,
>;

/// What `time::Time::parse` makes of a text under a format.
pub uninterp spec fn time_time(text: Seq<char>, format: Seq<char>) -> Option<LocalTime>;

/// What `time::Date::parse` makes of a text under a format.
pub uninterp spec fn time_date(text: Seq<char>, format: Seq<char>) -> Option<LocalDate>;

/// What `chrono::DateTime::to_rfc3339` prints for a date and time with an offset.
pub uninterp spec fn chrono_rfc3339_text(value: OffsetDateTime) -> Option<Seq<char>>;

/// What `chrono::NaiveDateTime` prints for a date and time.
pub uninterp spec fn chrono_date_time_text(value: LocalDateTime) -> Option<Seq<char>>;

/// What `chrono::NaiveDate` prints for a date.
pub uninterp spec fn chrono_date_text(value: LocalDate) -> Option<Seq<char>>;

/// What `chrono::NaiveTime` prints for a time.
pub uninterp spec fn chrono_time_text(value: LocalTime) -> Option<Seq<char>>;

/// What `time::OffsetDateTime::format` prints under the format of RFC 3339.
pub uninterp spec fn time_rfc3339_text(value: OffsetDateTime) -> Option<Seq<char>>;

/// What `time::PrimitiveDateTime` prints for a date and time.
pub uninterp spec fn time_date_time_text(value: LocalDateTime) -> Option<Seq<char>>;

/// What `time::Date` prints for a date.
pub uninterp spec fn time_date_text(value: LocalDate) -> Option<Seq<char>>;

/// What `time::Time` prints for a time.
pub uninterp spec fn time_time_text(value: LocalTime) -> Option<Seq<char>>;

/// The view of an optional string.
pub open spec fn text_of(s: Option<String>) -> Option<Seq<char>> {
    match s {
        Some(s) => Some(s@),
        None => None,
    }
}

/// The format of a date and a time without an offset.
pub open spec fn date_time_format() -> Seq<char> {
    "%Y-%m-%dT%H:%M:%S"@
}

/// The format of a time.
pub open spec fn time_format() -> Seq<char> {
    "%H:%M:%S"@
}

/// The format of a date.
pub open spec fn date_format() -> Seq<char> {
    "%Y-%m-%d"@
}

/// Parses a date and time with an offset.
///
/// Calls `chrono::DateTime::parse_from_rfc3339` and, where it succeeds, reads
/// the parts of the result as the clock at its offset shows them.
#[verifier::external_body]
fn chrono_parse_rfc3339(s: &str) -> (r: Option<OffsetDateTime>)
    ensures
        r == chrono_rfc3339(s@),
{
    match chrono::DateTime::parse_from_rfc3339(s) {
        Ok(d) => Some(OffsetDateTime {
            date_time: LocalDateTime {
                date: LocalDate { year: d.year(), month: d.month() as u8, day: d.day() as u8 },
                time: LocalTime {
                    hour: d.hour() as u8,
                    minute: d.minute() as u8,
                    second: d.second() as u8,
                    nanosecond: d.nanosecond(),
                },
            },
            offset_seconds: d.offset().local_minus_utc(),
        }),
        Err(_) => None,
    }
}

/// Parses a date and time without an offset.
///
/// Calls `chrono::NaiveDateTime::parse_from_str` and reads the parts of the result.
#[verifier::external_body]
fn chrono_parse_naive_date_time(s: &str, format: &str) -> (r: Option<LocalDateTime>)
    ensures
        r == chrono_naive_date_time(s@, format@),
{
    match chrono::NaiveDateTime::parse_from_str(s, format) {
        Ok(d) => Some(LocalDateTime {
            date: LocalDate { year: d.year(), month: d.month() as u8, day: d.day() as u8 },
            time: LocalTime {
                hour: d.hour() as u8,
                minute: d.minute() as u8,
                second: d.second() as u8,
                nanosecond: d.nanosecond(),
            },
        }),
        Err(_) => None,
    }
}

/// Parses a time.
///
/// Calls `chrono::NaiveTime::parse_from_str` and reads the parts of the result.
#[verifier::external_body]
fn chrono_parse_naive_time(s: &str, format: &str) -> (r: Option<LocalTime>)
    ensures
        r == chrono_naive_time(s@, format@),
{
    match chrono::NaiveTime::parse_from_str(s, format) {
        Ok(t) => Some(LocalTime {
            hour: t.hour() as u8,
            minute: t.minute() as u8,
            second: t.second() as u8,
            nanosecond: t.nanosecond(),
        }),
        Err(_) => None,
    }
}

/// Parses a date.
///
/// Calls `chrono::NaiveDate::parse_from_str` and reads the parts of the result.
#[verifier::external_body]
fn chrono_parse_naive_date(s: &str, format: &str) -> (r: Option<LocalDate>)
    ensures
        r == chrono_naive_date(s@, format@),
{
    match chrono::NaiveDate::parse_from_str(s, format) {
        Ok(d) => Some(LocalDate { year: d.year(), month: d.month() as u8, day: d.day() as u8 }),
        Err(_) => None,
    }
}

/// Parses a date and time with an offset.
///
/// Calls `time::OffsetDateTime::parse` with the format of RFC 3339 and, where
/// it succeeds, reads the parts of the result as the clock at its offset
/// shows them.
#[verifier::external_body]
fn time_parse_rfc3339(s: &str) -> (r: Option<OffsetDateTime>)
    ensures
        r == time_rfc3339(s@),
{
    match time::OffsetDateTime::parse(s, time::Format::Rfc3339) {
        Ok(d) => Some(OffsetDateTime {
            date_time: LocalDateTime {
                date: LocalDate { year: d.year(), month: d.month(), day: d.day() },
                time: LocalTime {
                    hour: d.hour(),
                    minute: d.minute(),
                    second: d.second(),
                    nanosecond: d.nanosecond(),
                },
            },
            offset_seconds: d.offset().as_seconds(),
        }),
        Err(_) => None,
    }
}

/// Parses a date and time without an offset.
///
/// Calls `time::PrimitiveDateTime::parse` and reads the parts of the result.
/// The format is the one that the library uses, which `time` accepts.
#[verifier::external_body]
fn time_parse_primitive_date_time(s: &str, format: &str) -> (r: Option<LocalDateTime>)
    requires
        format@ == date_time_format(),
    ensures
        r == time_primitive_date_time(s@, format@),
{
    match time::PrimitiveDateTime::parse(s, format) {
        Ok(d) => Some(LocalDateTime {
            date: LocalDate { year: d.year(), month: d.month(), day: d.day() },
            time: LocalTime {
                hour: d.hour(),
                minute: d.minute(),
                second: d.second(),
                nanosecond: d.nanosecond(),
            },
        }),
        Err(_) => None,
    }
}

/// Parses a time.
///
/// Calls `time::Time::parse` and reads the parts of the result. The format is
/// the one that the library uses, which `time` accepts.
#[verifier::external_body]
fn time_parse_time(s: &str, format: &str) -> (r: Option<LocalTime>)
    requires
        format@ == time_format(),
    ensures
        r == time_time(s@, format@),
{
    match time::Time::parse(s, format) {
        Ok(t) => Some(LocalTime {
            hour: t.hour(),
            minute: t.minute(),
            second: t.second(),
            nanosecond: t.nanosecond(),
        }),
        Err(_) => None,
    }
}

/// Parses a date.
///
/// Calls `time::Date::parse` and reads the parts of the result. The format is
/// the one that the library uses, which `time` accepts.
#[verifier::external_body]
fn time_parse_date(s: &str, format: &str) -> (r: Option<LocalDate>)
    requires
        format@ == date_format(),
    ensures
        r == time_date(s@, format@),
{
    match time::Date::parse(s, format) {
        Ok(d) => Some(LocalDate { year: d.year(), month: d.month(), day: d.day() }),
        Err(_) => None,
    }
}

/// Prints a date and time with an offset.
///
/// Builds the `chrono` value from its parts and calls `to_rfc3339` on it;
/// `None` where `chrono` takes the parts for no valid date, time or offset.
#[verifier::external_body]
fn chrono_format_rfc3339(value: &OffsetDateTime) -> (r: Option<String>)
    ensures
        text_of(r) == chrono_rfc3339_text(*value),
{
    let (d, t) = (&value.date_time.date, &value.date_time.time);
    let date = chrono::NaiveDate::from_ymd_opt(d.year, d.month.into(), d.day.into())?;
    let naive = date.and_hms_nano_opt(t.hour.into(), t.minute.into(), t.second.into(), t.nanosecond)?;
    let offset = chrono::FixedOffset::east_opt(value.offset_seconds)?;
    Some(naive.and_local_timezone(offset).single()?.to_rfc3339())
}

/// Prints a date and time without an offset.
///
/// Builds the `chrono::NaiveDateTime` from its parts and calls `to_string` on
/// it; `None` where `chrono` takes the parts for no valid date or time.
#[verifier::external_body]
fn chrono_format_date_time(value: &LocalDateTime) -> (r: Option<String>)
    ensures
        text_of(r) == chrono_date_time_text(*value),
{
    let (d, t) = (&value.date, &value.time);
    let date = chrono::NaiveDate::from_ymd_opt(d.year, d.month.into(), d.day.into())?;
    let naive = date.and_hms_nano_opt(t.hour.into(), t.minute.into(), t.second.into(), t.nanosecond)?;
    Some(naive.to_string())
}

/// Prints a date.
///
/// Builds the `chrono::NaiveDate` from its parts and calls `to_string` on it;
/// `None` where `chrono` takes the parts for no valid date.
#[verifier::external_body]
fn chrono_format_date(value: &LocalDate) -> (r: Option<String>)
    ensures
        text_of(r) == chrono_date_text(*value),
{
    let date = chrono::NaiveDate::from_ymd_opt(value.year, value.month.into(), value.day.into())?;
    Some(date.to_string())
}

/// Prints a time.
///
/// Builds the `chrono::NaiveTime` from its parts and calls `to_string` on it;
/// `None` where `chrono` takes the parts for no valid time.
#[verifier::external_body]
fn chrono_format_time(value: &LocalTime) -> (r: Option<String>)
    ensures
        text_of(r) == chrono_time_text(*value),
{
    let time = chrono::NaiveTime::from_hms_nano_opt(
        value.hour.into(),
        value.minute.into(),
        value.second.into(),
        value.nanosecond,
    )?;
    Some(time.to_string())
}

/// The years for which `time` is asked to print a date and time with an offset.
pub open spec fn printable_year(year: i32) -> bool {
    -9999 <= year <= 9999
}

/// Prints a date and time with an offset.
///
/// Builds the `time::OffsetDateTime` from its parts and calls `format` on it
/// with the format of RFC 3339; `None` where `time` takes the parts for no
/// valid date or time. The year is kept to four digits, so that the
/// shift by the offset stays inside the dates that `time` can hold.
#[verifier::external_body]
fn time_format_rfc3339(value: &OffsetDateTime) -> (r: Option<String>)
    requires
        printable_year(value.date_time.date.year),
    ensures
        text_of(r) == time_rfc3339_text(*value),
{
    let (d, t) = (&value.date_time.date, &value.date_time.time);
    let date = time::Date::try_from_ymd(d.year, d.month, d.day).ok()?;
    let time = time::Time::try_from_hms_nano(t.hour, t.minute, t.second, t.nanosecond).ok()?;
    let offset = time::UtcOffset::seconds(value.offset_seconds);
    Some(time::PrimitiveDateTime::new(date, time).assume_offset(offset).format(time::Format::Rfc3339))
}

/// Prints a date and time without an offset.
///
/// Builds the `time::PrimitiveDateTime` from its parts and calls `to_string`
/// on it; `None` where `time` takes the parts for no valid date or time.
#[verifier::external_body]
fn time_format_date_time(value: &LocalDateTime) -> (r: Option<String>)
    ensures
        text_of(r) == time_date_time_text(*value),
{
    let (d, t) = (&value.date, &value.time);
    let date = time::Date::try_from_ymd(d.year, d.month, d.day).ok()?;
    let time = time::Time::try_from_hms_nano(t.hour, t.minute, t.second, t.nanosecond).ok()?;
    Some(time::PrimitiveDateTime::new(date, time).to_string())
}

/// Prints a date.
///
/// Builds the `time::Date` from its parts and calls `to_string` on it; `None`
/// where `time` takes the parts for no valid date.
#[verifier::external_body]
fn time_format_date(value: &LocalDate) -> (r: Option<String>)
    ensures
        text_of(r) == time_date_text(*value),
{
    Some(time::Date::try_from_ymd(value.year, value.month, value.day).ok()?.to_string())
}

/// Prints a time.
///
/// Builds the `time::Time` from its parts and calls `to_string` on it; `None`
/// where `time` takes the parts for no valid time.
#[verifier::external_body]
fn time_format_time(value: &LocalTime) -> (r: Option<String>)
    ensures
        text_of(r) == time_time_text(*value),
{
    let time = time::Time::try_from_hms_nano(
        value.hour,
        value.minute,
        value.second,
        value.nanosecond,
    ).ok()?;
    Some(time.to_string())
}

/// The text of a date as it is parsed: `T` in place of each space and each `t`.
pub open spec fn date_text(text: Seq<char>) -> Seq<char> {
    Seq::new(
        text.len(),
        |i: int|
            if text[i] == ' ' || text[i] == 't' {
                'T'
            } else {
                text[i]
            },
    )
}

/// The first reading of a text that succeeded, in the order offset date-time,
/// local date-time, local time, local date.
pub open spec fn first_reading(
    offset_date_time: Option<OffsetDateTime>,
    local_date_time: Option<LocalDateTime>,
    local_time: Option<LocalTime>,
    local_date: Option<LocalDate>,
) -> Option<Date> {
    match offset_date_time {
        Some(d) => Some(Date::OffsetDateTime(d)),
        None => match local_date_time {
            Some(d) => Some(Date::LocalDateTime(d)),
            None => match local_time {
                Some(t) => Some(Date::LocalTime(t)),
                None => match local_date {
                    Some(d) => Some(Date::LocalDate(d)),
                    None => None,
                },
            },
        },
    }
}

/// The date that a library reads from a text; without a library, none.
pub open spec fn parsed_date(support: DateSupport, text: Seq<char>) -> Option<Date> {
    match support {
        DateSupport::Chrono => first_reading(
            chrono_rfc3339(text),
            chrono_naive_date_time(text, date_time_format()),
            chrono_naive_time(text, time_format()),
            chrono_naive_date(text, date_format()),
        ),
        DateSupport::Time => first_reading(
            time_rfc3339(text),
            time_primitive_date_time(text, date_time_format()),
            time_time(text, time_format()),
            time_date(text, date_format()),
        ),
        DateSupport::Text => None,
    }
}

/// The text that a library prints for a date; without a library, none.
pub open spec fn printed_date(support: DateSupport, date: Date) -> Option<Seq<char>> {
    match support {
        DateSupport::Chrono => match date {
            Date::OffsetDateTime(d) => chrono_rfc3339_text(d),
            Date::LocalDateTime(d) => chrono_date_time_text(d),
            Date::LocalDate(d) => chrono_date_text(d),
            Date::LocalTime(t) => chrono_time_text(t),
        },
        DateSupport::Time => match date {
            Date::OffsetDateTime(d) => if printable_year(d.date_time.date.year) {
                time_rfc3339_text(d)
            } else {
                None
            },
            Date::LocalDateTime(d) => time_date_time_text(d),
            Date::LocalDate(d) => time_date_text(d),
            Date::LocalTime(t) => time_time_text(t),
        },
        DateSupport::Text => None,
    }
}

/// Writes `T` in place of each space and each `t` of the text of a date.
pub fn normalize_date(text: &str) -> (r: String)
    ensures
        r@ == date_text(text@),
{
    let chars = chars_of(text);
    let mut out: Vec<char> = Vec::new();
    let mut i: usize = 0;
    while i < chars.len()
        invariant
            i <= chars.len(),
            chars@ == text@,
            out@ == date_text(text@).take(i as int),
        decreases chars.len() - i,
    {
        let c = chars[i];
        out.push(if c == ' ' || c == 't' { 'T' } else { c });
        assert(date_text(text@).take(i + 1) =~= date_text(text@).take(i as int).push(
            date_text(text@)[i as int],
        ));
        i += 1;
    }
    assert(date_text(text@).take(chars.len() as int) =~= date_text(text@));
    string_of(&out)
}

/// Picks the first reading that succeeded, in the order offset date-time,
/// local date-time, local time, local date.
pub fn select_date(
    offset_date_time: Option<OffsetDateTime>,
    local_date_time: Option<LocalDateTime>,
    local_time: Option<LocalTime>,
    local_date: Option<LocalDate>,
) -> (r: Option<Date>)
    ensures
        r == first_reading(offset_date_time, local_date_time, local_time, local_date),
{
    if let Some(d) = offset_date_time {
        Some(Date::OffsetDateTime(d))
    } else if let Some(d) = local_date_time {
        Some(Date::LocalDateTime(d))
    } else if let Some(t) = local_time {
        Some(Date::LocalTime(t))
    } else if let Some(d) = local_date {
        Some(Date::LocalDate(d))
    } else {
        None
    }
}

/// Reads a date from a text with the given library.
pub fn parse_date(support: DateSupport, text: &str) -> (r: Option<Date>)
    ensures
        r == parsed_date(support, text@),
{
    match support {
        DateSupport::Chrono => select_date(
            chrono_parse_rfc3339(text),
            chrono_parse_naive_date_time(text, "%Y-%m-%dT%H:%M:%S"),
            chrono_parse_naive_time(text, "%H:%M:%S"),
            chrono_parse_naive_date(text, "%Y-%m-%d"),
        ),
        DateSupport::Time => select_date(
            time_parse_rfc3339(text),
            time_parse_primitive_date_time(text, "%Y-%m-%dT%H:%M:%S"),
            time_parse_time(text, "%H:%M:%S"),
            time_parse_date(text, "%Y-%m-%d"),
        ),
        DateSupport::Text => None,
    }
}

/// Prints a date with the given library.
pub fn print_date(support: DateSupport, date: &Date) -> (r: Option<String>)
    ensures
        text_of(r) == printed_date(support, *date),
{
    match support {
        DateSupport::Chrono => match date {
            Date::OffsetDateTime(d) => chrono_format_rfc3339(d),
            Date::LocalDateTime(d) => chrono_format_date_time(d),
            Date::LocalDate(d) => chrono_format_date(d),
            Date::LocalTime(t) => chrono_format_time(t),
        },
        DateSupport::Time => match date {
            Date::OffsetDateTime(d) => {
                if -9999 <= d.date_time.date.year && d.date_time.date.year <= 9999 {
                    time_format_rfc3339(d)
                } else {
                    None
                }
            },
            Date::LocalDateTime(d) => time_format_date_time(d),
            Date::LocalDate(d) => time_format_date(d),
            Date::LocalTime(t) => time_format_time(t),
        },
        DateSupport::Text => None,
    }
}

} // verus!
