//! Where the records are fetched from: the nightly identifier export, which
//! is named by a date, and the two endpoints that serve one movie each.

use crate::decimal::{decimal, push_decimal, push_signed_decimal, push_two_digits, signed_decimal, two_digits};
use chrono::Datelike;
use vstd::prelude::*;
use vstd::string::StringExecFns;

verus! {

/// A day of the calendar.
#[derive(Debug, Clone, Copy, PartialEq, Eq, Structural)]
pub struct CalendarDate {
    pub year: i32,
    pub month: u32,
    pub day: u32,
}

impl CalendarDate {
    /// The month is one of the twelve and the day is one that a month can
    /// have.
    pub open spec fn valid(self) -> bool {
        1 <= self.month <= 12 && 1 <= self.day <= 31
    }
}

/// The date by which the export to fetch is named: the day before `today`
/// within the same month, and the first of the month where `today` is the
/// first. Month and year are always those of `today`.
pub open spec fn export_date_of(today: CalendarDate) -> CalendarDate {
    CalendarDate {
        year: today.year,
        month: today.month,
        day: if today.day <= 1 {
            1
        } else {
            (today.day - 1) as u32
        },
    }
}

/// The URL of the identifier export of `date`: the month in two digits, the
/// day and the year as they are.
pub open spec fn export_url_of(date: CalendarDate) -> Seq<char> {
    "http://files.tmdb.org/p/exports/movie_ids_"@ + two_digits(date.month as nat) + "_"@ + decimal(
        date.day as nat,
    ) + "_"@ + signed_decimal(date.year as int) + ".json.gz"@
}

/// The URL of the details of the movie `movie_id`.
pub open spec fn movie_url_of(movie_id: u64) -> Seq<char> {
    "https://api.themoviedb.org/3/movie/"@ + decimal(movie_id as nat)
}

/// The URL of the credits of the movie `movie_id`.
pub open spec fn credits_url_of(movie_id: u64) -> Seq<char> {
    movie_url_of(movie_id) + "/credits"@
}

/// Whether a response with this HTTP status carries what was asked for.
pub open spec fn is_success(status: u16) -> bool {
    200 <= status <= 299
}

/// The export that a run asks for is named by the month and the year of the
/// day of the run, on every day: also on the first of a month, January
/// included, the month is not the one before and the year is not the one
/// before. Its day is the day before from the second on and the first on the
/// first: a day from 1 to 30, never 0. The URL holds that month in two
/// digits, that day and that year.
pub proof fn law_export_keeps_month_and_year(today: CalendarDate)
    requires
        today.valid(),
    ensures
        export_date_of(today).month == today.month,
        export_date_of(today).year == today.year,
        export_date_of(today).day == if today.day >= 2 {
            today.day - 1
        } else {
            1
        },
        1 <= export_date_of(today).day <= 30,
        export_date_of(today).valid(),
        export_url_of(export_date_of(today)) == "http://files.tmdb.org/p/exports/movie_ids_"@
            + two_digits(today.month as nat) + "_"@ + decimal(export_date_of(today).day as nat)
            + "_"@ + signed_decimal(today.year as int) + ".json.gz"@,
{
}

/// `chrono::Local::now` and the `Datelike` accessors `year`, `month` and
/// `day` of its result: the calendar date of this moment in the machine's time
/// zone. Believed of every outcome: the month is within 1 to 12 and the day
/// within 1 to 31, as `Datelike` documents them. The call does not return
/// where the machine's clock stands before 1970 or beyond the years that
/// `chrono` holds, or where the time-zone data gives no offset for the moment:
/// it panics then, and nothing the caller passes can prevent it.
#[verifier::external_body]
fn local_date() -> (today: CalendarDate)
    ensures
        today.valid(),
{
    let now = chrono::Local::now();
    CalendarDate { year: now.year(), month: now.month(), day: now.day() }
}

/// The calendar date of this moment, by the machine's clock and time zone.
/// On a machine whose clock or time-zone data is unusable this panics; a
/// caller that must not can read the date elsewhere and hand it to
/// [`export_date`].
pub fn today() -> (date: CalendarDate)
    ensures
        date.valid(),
{
    local_date()
}

/// The date by which the export to fetch on `today` is named.
pub fn export_date(today: CalendarDate) -> (date: CalendarDate)
    ensures
        date == export_date_of(today),
        date.year == today.year,
        date.month == today.month,
        date.day >= 1,
        today.valid() ==> date.valid(),
{
    let day: u32 = if today.day <= 1 {
        1
    } else {
        today.day - 1
    };
    CalendarDate { year: today.year, month: today.month, day }
}

/// The URL of the identifier export of `date`.
pub fn export_url(date: CalendarDate) -> (url: String)
    ensures
        url@ == export_url_of(date),
{
    let mut url = String::from_str("http://files.tmdb.org/p/exports/movie_ids_");
    push_two_digits(&mut url, date.month as u64);
    url.append("_");
    push_decimal(&mut url, date.day as u64);
    url.append("_");
    push_signed_decimal(&mut url, date.year);
    url.append(".json.gz");
    url
}

/// The URL of the identifier export to fetch now, by the machine's clock and
/// time zone. Panics where [`today`] does.
pub fn current_export_url() -> (url: String)
    ensures
        exists|today: CalendarDate| today.valid() && url@ == export_url_of(export_date_of(today)),
{
    export_url(export_date(today()))
}

/// The URL of the details of the movie `movie_id`.
pub fn movie_url(movie_id: u64) -> (url: String)
    ensures
        url@ == movie_url_of(movie_id),
{
    let mut url = String::from_str("https://api.themoviedb.org/3/movie/");
    push_decimal(&mut url, movie_id);
    url
}

/// The URL of the credits of the movie `movie_id`.
pub fn credits_url(movie_id: u64) -> (url: String)
    ensures
        url@ == credits_url_of(movie_id),
{
    let mut url = movie_url(movie_id);
    url.append("/credits");
    url
}

/// Whether a response with this HTTP status carries what was asked for.
pub fn status_is_success(status: u16) -> (ok: bool)
    ensures
        ok == is_success(status),
{
    200 <= status && status <= 299
}

} // verus!
