//! The date on which a firmware was built.
use vstd::prelude::*;
use vstd::string::*;

verus! {

/// How the `Firmware date` header is written, in the language of the `time` crate.
pub const FIRMWARE_DATE_FORMAT: &'static str =
    "[month repr:short case_sensitive:false] [day padding:space] [year] [hour repr:24]:[minute]:[second]";

/// The date and time that `time::PrimitiveDateTime::parse` reads from a text in some format: year,
/// month, day, hour, minute and second.
pub uninterp spec fn parsed_date(date: Seq<char>, format: Seq<char>) -> Option<
    (i32, u8, u8, u8, u8, u8),
>;

/// Whether month, day, hour, minute and second are numbers that a calendar and a clock show.
pub open spec fn parts_in_range(parts: (i32, u8, u8, u8, u8, u8)) -> bool {
    1 <= parts.1 <= 12 && 1 <= parts.2 <= 31 && parts.3 < 24 && parts.4 < 60 && parts.5 < 60
}

/// Calls `time::PrimitiveDateTime::parse`, with a format that
/// `time::format_description::parse_borrowed` reads in the first version of its language: the
/// result depends on the text and the format alone, and each part of it is within its range. Nothing
/// is said of which texts are dates.
///
/// The format is the one of the `Firmware date` header and no other, since reading a format that is
/// not well formed can fail an assertion inside `parse_borrowed`.
#[verifier::external_body]
fn parse_date(date: &str, format: &str) -> (parsed: Option<(i32, u8, u8, u8, u8, u8)>)
    requires
        format@ == FIRMWARE_DATE_FORMAT@,
    ensures
        parsed == parsed_date(date@, format@),
        parsed matches Some(parts) ==> parts_in_range(parts),
{
    let items = time::format_description::parse_borrowed::<1>(format).ok()?;
    let parsed = time::PrimitiveDateTime::parse(date, &items).ok()?;
    let (year, month, day) = (parsed.year(), u8::from(parsed.month()), parsed.day());
    Some((year, month, day, parsed.hour(), parsed.minute(), parsed.second()))
}

/// A date and a time of day.
#[derive(Debug, Clone, Copy, PartialEq, Eq, Hash, Structural)]
pub struct DateTime {
    pub year: i32,
    pub month: u8,
    pub day: u8,
    pub hour: u8,
    pub minute: u8,
    pub second: u8,
}

impl DateTime {
    /// Whether every part but the year is a number that a calendar or a clock shows.
    pub open spec fn in_range(self) -> bool {
        parts_in_range(
            (self.year, self.month, self.day, self.hour, self.minute, self.second),
        )
    }
}

/// Whether `date` is what came out of reading `text`: the date and time, or the text itself where it
/// is no date.
pub open spec fn is_date_or_text(
    date: Result<DateTime, &str>,
    parsed: Option<(i32, u8, u8, u8, u8, u8)>,
    text: Seq<char>,
) -> bool {
    match (date, parsed) {
        (Ok(date), Some((year, month, day, hour, minute, second))) => date == (DateTime {
            year,
            month,
            day,
            hour,
            minute,
            second,
        }),
        (Err(raw), None) => raw@ == text,
        _ => false,
    }
}

/// The date and time that was read from `text`, or the text itself where it is no date.
pub fn date_or_text<'data>(
    parsed: Option<(i32, u8, u8, u8, u8, u8)>,
    text: &'data str,
) -> (date: Result<DateTime, &'data str>)
    ensures
        is_date_or_text(date, parsed, text@),
{
    match parsed {
        Some((year, month, day, hour, minute, second)) => Ok(
            DateTime { year, month, day, hour, minute, second },
        ),
        None => Err(text),
    }
}

/// Reads a `Firmware date` header.
pub fn parse_firmware_date<'data>(text: &'data str) -> (date: Result<DateTime, &'data str>)
    ensures
        is_date_or_text(date, parsed_date(text@, FIRMWARE_DATE_FORMAT@), text@),
        date matches Ok(date) ==> date.in_range(),
{
    date_or_text(parse_date(text, FIRMWARE_DATE_FORMAT), text)
}

} // verus!
