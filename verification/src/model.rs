use vstd::prelude::*;

use heapless::{String, Vec};

verus! {

/// A calendar date and time of day, as the real-time clock keeps it.
#[derive(Clone, Copy, Debug, PartialEq, Eq, Structural)]
pub struct DateTime {
    pub year: u16,
    pub month: u8,
    pub day: u8,
    pub hour: u8,
    pub minute: u8,
    pub second: u8,
}

/// The date and time that the web service reports at start-up.
#[derive(Clone, Copy, Debug, PartialEq, Eq, Structural)]
pub struct InitialDateTime {
    pub year: u16,
    pub month: u8,
    pub day: u8,
    pub hour: u8,
    pub minute: u8,
    pub second: u8,
}

impl InitialDateTime {
    /// The clock setting for this report.
    pub fn date_time(&self) -> (dt: DateTime)
        ensures
            dt == (DateTime {
                year: self.year,
                month: self.month,
                day: self.day,
                hour: self.hour,
                minute: self.minute,
                second: self.second,
            }),
    {
        DateTime {
            year: self.year,
            month: self.month,
            day: self.day,
            hour: self.hour,
            minute: self.minute,
            second: self.second,
        }
    }
}

/// The fixed-capacity vector of the heapless crate.
#[verifier::external_type_specification]
#[verifier::external_body]
#[verifier::reject_recursive_types(T)]
pub struct ExHeaplessVec<T, const N: usize>(Vec<T, N>);

/// The fixed-capacity string of the heapless crate.
#[verifier::external_type_specification]
#[verifier::external_body]
pub struct ExHeaplessString<const N: usize>(String<N>);

/// The forecast for one of the next hours.
#[derive(Debug, PartialEq)]
pub struct HourForecast {
    /// Label of the hour, such as `"14"`.
    pub h: String<4>,
    /// Temperature in whole degrees Celsius.
    pub t: i32,
    /// Weather icon glyph, or `'\0'` for none.
    pub i: char,
}

/// The forecast for one of the next days.
#[derive(Debug, PartialEq)]
pub struct DayForecast {
    /// Name of the day, such as `"Mo"`.
    pub n: String<4>,
    /// Lowest temperature, rounded to whole degrees Celsius.
    pub lo: i32,
    /// Highest temperature, rounded to whole degrees Celsius.
    pub hi: i32,
    /// Whether any rain is expected.
    pub rain: bool,
}

/// What the web service reports about the weather, with temperatures in
/// the whole degrees that the screen shows.
#[derive(Debug, PartialEq)]
pub struct WeatherForecast {
    /// Name of the city; empty until a forecast has arrived.
    pub city: String<30>,
    /// Current temperature rounded to whole degrees, as shown.
    pub temp: i32,
    /// Current temperature with the fraction dropped, as compared between
    /// refreshes.
    pub temp_whole: i32,
    /// Up to four days.
    pub days: Vec<DayForecast, 4>,
    /// Up to six hours.
    pub hours: Vec<HourForecast, 6>,
}

/// Most days a forecast holds.
pub const MAX_DAYS: usize = 4;

/// Most hours a forecast holds.
pub const MAX_HOURS: usize = 6;

/// The days that a forecast's day list holds, in order.
pub uninterp spec fn day_list(v: Vec<DayForecast, 4>) -> Seq<DayForecast>;

/// The hours that a forecast's hour list holds, in order.
pub uninterp spec fn hour_list(v: Vec<HourForecast, 6>) -> Seq<HourForecast>;

/// The characters of a short label (hour or day name).
pub uninterp spec fn label_text(s: String<4>) -> Seq<char>;

/// The characters of a city name.
pub uninterp spec fn city_text(s: String<30>) -> Seq<char>;

/// `heapless::Vec::len` (through its slice) on the day list: the number of
/// days held, never more than the capacity of four.
#[verifier::external_body]
pub(crate) fn days_len(v: &Vec<DayForecast, 4>) -> (n: usize)
    ensures
        n == day_list(*v).len(),
        n <= MAX_DAYS,
{
    v.len()
}

/// Indexing `heapless::Vec` (through its slice) on the day list: the day
/// at position `i`.
#[verifier::external_body]
pub(crate) fn day_at(v: &Vec<DayForecast, 4>, i: usize) -> (d: &DayForecast)
    requires
        i < day_list(*v).len(),
    ensures
        *d == day_list(*v)[i as int],
{
    &v[i]
}

/// `heapless::Vec::len` (through its slice) on the hour list: the number of
/// hours held, never more than the capacity of six.
#[verifier::external_body]
pub(crate) fn hours_len(v: &Vec<HourForecast, 6>) -> (n: usize)
    ensures
        n == hour_list(*v).len(),
        n <= MAX_HOURS,
{
    v.len()
}

/// Indexing `heapless::Vec` (through its slice) on the hour list: the hour
/// at position `i`.
#[verifier::external_body]
pub(crate) fn hour_at(v: &Vec<HourForecast, 6>, i: usize) -> (h: &HourForecast)
    requires
        i < hour_list(*v).len(),
    ensures
        *h == hour_list(*v)[i as int],
{
    &v[i]
}

/// The characters of a label (`heapless::String` seen as `str`), in order.
#[verifier::external_body]
pub(crate) fn label_chars(s: &String<4>) -> (c: std::vec::Vec<char>)
    ensures
        c@ == label_text(*s),
{
    s.chars().collect()
}

/// The characters of a city name (`heapless::String` seen as `str`), in
/// order.
#[verifier::external_body]
pub(crate) fn city_chars(s: &String<30>) -> (c: std::vec::Vec<char>)
    ensures
        c@ == city_text(*s),
{
    s.chars().collect()
}

} // verus!
