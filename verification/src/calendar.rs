//! Days of the civil calendar, as far as the builder of snapshots needs them:
//! the day that comes a number of days after another, its weekday, and its
//! date written `YYYYMMDD`.
//!
//! The calendar itself is chrono's. What it computes is named here, and the
//! functions of this module say what they make of it.

use crate::item::Item;
use vstd::prelude::*;
use vstd::std_specs::cmp::PartialEqSpecImpl;
use vstd::string::StringExecFns;

use vstd::utf8::encode_utf8;

verus! {

/// A day, given by its year, its month from 1 and its day of the month from 1.
#[derive(Debug, Copy)]
pub struct CalendarDate {
    pub year: i32,
    pub month: u32,
    pub day: u32,
}

impl View for CalendarDate {
    type V = CalendarDate;

    open spec fn view(&self) -> CalendarDate {
        *self
    }
}

impl DeepView for CalendarDate {
    type V = CalendarDate;

    open spec fn deep_view(&self) -> CalendarDate {
        *self
    }
}

impl Item for CalendarDate {
    fn same(&self, other: &Self) -> (b: bool) {
        self.year == other.year && self.month == other.month && self.day == other.day
    }

    fn copy(&self) -> (c: Self) {
        *self
    }
}

impl Clone for CalendarDate {
    fn clone(&self) -> (c: Self)
        ensures
            c@ == self@,
    {
        self.copy()
    }
}

impl PartialEq for CalendarDate {
    fn eq(&self, other: &Self) -> (b: bool) {
        self.same(other)
    }
}

impl PartialEqSpecImpl for CalendarDate {
    open spec fn obeys_eq_spec() -> bool {
        true
    }

    open spec fn eq_spec(&self, other: &Self) -> bool {
        self@ == other@
    }
}

/// A day of the week.
#[derive(Debug, Copy)]
pub enum Weekday {
    Mon,
    Tue,
    Wed,
    Thu,
    Fri,
    Sat,
    Sun,
}

impl Weekday {
    /// The number of days since Monday: 0 for Monday, 6 for Sunday.
    pub open spec fn number(self) -> int {
        match self {
            Weekday::Mon => 0,
            Weekday::Tue => 1,
            Weekday::Wed => 2,
            Weekday::Thu => 3,
            Weekday::Fri => 4,
            Weekday::Sat => 5,
            Weekday::Sun => 6,
        }
    }

    /// The weekday that lies a number of days after a Monday, for numbers
    /// below seven.
    pub fn from_number(n: u32) -> (day: Option<Weekday>)
        ensures
            n < 7 ==> day is Some && day->0.number() == n,
            n >= 7 ==> day is None,
    {
        match n {
            0 => Some(Weekday::Mon),
            1 => Some(Weekday::Tue),
            2 => Some(Weekday::Wed),
            3 => Some(Weekday::Thu),
            4 => Some(Weekday::Fri),
            5 => Some(Weekday::Sat),
            6 => Some(Weekday::Sun),
            _ => None,
        }
    }
}

impl View for Weekday {
    type V = Weekday;

    open spec fn view(&self) -> Weekday {
        *self
    }
}

impl DeepView for Weekday {
    type V = Weekday;

    open spec fn deep_view(&self) -> Weekday {
        *self
    }
}

impl Item for Weekday {
    fn same(&self, other: &Self) -> (b: bool) {
        match (self, other) {
            (Weekday::Mon, Weekday::Mon) => true,
            (Weekday::Tue, Weekday::Tue) => true,
            (Weekday::Wed, Weekday::Wed) => true,
            (Weekday::Thu, Weekday::Thu) => true,
            (Weekday::Fri, Weekday::Fri) => true,
            (Weekday::Sat, Weekday::Sat) => true,
            (Weekday::Sun, Weekday::Sun) => true,
            _ => false,
        }
    }

    fn copy(&self) -> (c: Self) {
        *self
    }
}

impl Clone for Weekday {
    fn clone(&self) -> (c: Self)
        ensures
            c@ == self@,
    {
        self.copy()
    }
}

impl PartialEq for Weekday {
    fn eq(&self, other: &Self) -> (b: bool) {
        self.same(other)
    }
}

impl PartialEqSpecImpl for Weekday {
    open spec fn obeys_eq_spec() -> bool {
        true
    }

    open spec fn eq_spec(&self, other: &Self) -> bool {
        self@ == other@
    }
}

/// One day of a date window: its date written `YYYYMMDD` and its weekday.
#[derive(Debug)]
pub struct WindowDay {
    pub date: String,
    pub weekday: Weekday,
}

/// The mathematical model of a [`WindowDay`].
pub struct WindowDayView {
    pub date: Seq<char>,
    pub weekday: Weekday,
}

impl View for WindowDay {
    type V = WindowDayView;

    open spec fn view(&self) -> WindowDayView {
        WindowDayView { date: self.date.deep_view(), weekday: self.weekday }
    }
}

impl DeepView for WindowDay {
    type V = WindowDayView;

    open spec fn deep_view(&self) -> WindowDayView {
        self@
    }
}

impl Item for WindowDay {
    fn same(&self, other: &Self) -> (b: bool) {
        self.date.same(&other.date) && self.weekday.same(&other.weekday)
    }

    fn copy(&self) -> (c: Self) {
        WindowDay { date: self.date.copy(), weekday: self.weekday }
    }
}

impl Clone for WindowDay {
    fn clone(&self) -> (c: Self)
        ensures
            c@ == self@,
    {
        self.copy()
    }
}

impl PartialEq for WindowDay {
    fn eq(&self, other: &Self) -> (b: bool) {
        self.same(other)
    }
}

impl PartialEqSpecImpl for WindowDay {
    open spec fn obeys_eq_spec() -> bool {
        true
    }

    open spec fn eq_spec(&self, other: &Self) -> bool {
        self@ == other@
    }
}

/// The day that comes `days` days after the day given by year, month and
/// day of the month, as chrono computes it; `None` where the given day does
/// not exist or the result lies beyond chrono's calendar.
pub uninterp spec fn civil_date_after(year: int, month: int, day: int, days: int) -> Option<
    (int, int, int),
>;

/// The number of days since Monday of the weekday of a day, as chrono
/// computes it; `None` where the day does not exist.
pub uninterp spec fn civil_weekday(year: int, month: int, day: int) -> Option<int>;

/// Asks chrono for the day that comes `days` days after `start`.
///
/// The call is `NaiveDate::from_ymd_opt` followed by `checked_add_days`. The
/// contract names the result and adds what chrono's documentation says of
/// every date: the month is between 1 and 12, the day between 1 and 31.
#[verifier::external_body]
fn date_after(start: &CalendarDate, days: u64) -> (later: Option<CalendarDate>)
    ensures
        civil_date_after(start.year as int, start.month as int, start.day as int, days as int)
            == match later {
            Some(d) => Some((d.year as int, d.month as int, d.day as int)),
            None => None,
        },
        later matches Some(d) ==> 1 <= d.month <= 12 && 1 <= d.day <= 31,
{
    chrono::NaiveDate::from_ymd_opt(start.year, start.month, start.day)
        .and_then(|d| d.checked_add_days(chrono::Days::new(days)))
        .map(
            |d|
                CalendarDate {
                    year: chrono::Datelike::year(&d),
                    month: chrono::Datelike::month(&d),
                    day: chrono::Datelike::day(&d),
                },
        )
}

/// Asks chrono for the weekday of a day, as its number of days since Monday.
///
/// The call is `NaiveDate::from_ymd_opt` followed by `weekday` and
/// `num_days_from_monday`. The contract names the result and adds that the
/// number is below seven.
#[verifier::external_body]
fn weekday_number(date: &CalendarDate) -> (number: Option<u32>)
    ensures
        civil_weekday(date.year as int, date.month as int, date.day as int) == match number {
            Some(n) => Some(n as int),
            None => None,
        },
        number matches Some(n) ==> n < 7,
{
    chrono::NaiveDate::from_ymd_opt(date.year, date.month, date.day).map(
        |d| chrono::Datelike::weekday(&d).num_days_from_monday(),
    )
}

/// The weekday that lies `n` days after a Monday, for `n` from 0 to 6.
pub open spec fn weekday_numbered(n: int) -> Weekday {
    if n == 0 {
        Weekday::Mon
    } else if n == 1 {
        Weekday::Tue
    } else if n == 2 {
        Weekday::Wed
    } else if n == 3 {
        Weekday::Thu
    } else if n == 4 {
        Weekday::Fri
    } else if n == 5 {
        Weekday::Sat
    } else {
        Weekday::Sun
    }
}

/// The character that writes a digit.
pub open spec fn digit_char(d: int) -> char {
    seq!['0', '1', '2', '3', '4', '5', '6', '7', '8', '9'][d]
}

/// Whether a date can be written with four digits for the year and two each
/// for the month and the day.
pub open spec fn writable(year: int, month: int, day: int) -> bool {
    0 <= year <= 9999 && 0 <= month <= 99 && 0 <= day <= 99
}

/// A date written `YYYYMMDD`.
pub open spec fn date_digits(year: int, month: int, day: int) -> Seq<char> {
    seq![
        digit_char(year / 1000 % 10),
        digit_char(year / 100 % 10),
        digit_char(year / 10 % 10),
        digit_char(year % 10),
        digit_char(month / 10 % 10),
        digit_char(month % 10),
        digit_char(day / 10 % 10),
        digit_char(day % 10),
    ]
}

/// The text of one digit.
fn digit_text(d: u32) -> (text: &'static str)
    requires
        d < 10,
    ensures
        text@ == seq![digit_char(d as int)],
{
    proof {
        reveal_strlit("0");
        reveal_strlit("1");
        reveal_strlit("2");
        reveal_strlit("3");
        reveal_strlit("4");
        reveal_strlit("5");
        reveal_strlit("6");
        reveal_strlit("7");
        reveal_strlit("8");
        reveal_strlit("9");
    }
    let text = match d {
        0 => "0",
        1 => "1",
        2 => "2",
        3 => "3",
        4 => "4",
        5 => "5",
        6 => "6",
        7 => "7",
        8 => "8",
        _ => "9",
    };
    assert(text@ =~= seq![digit_char(d as int)]);
    text
}

/// Writes a date as `YYYYMMDD`, where it can be written so.
pub fn date_text(date: &CalendarDate) -> (text: Option<String>)
    ensures
        text is Some <==> writable(date.year as int, date.month as int, date.day as int),
        text matches Some(t) ==> t@ == date_digits(
            date.year as int,
            date.month as int,
            date.day as int,
        ),
{
    if date.year < 0 || date.year > 9999 || date.month > 99 || date.day > 99 {
        return None;
    }
    let year: u32 = date.year as u32;
    let mut text = String::new();
    text.append(digit_text(year / 1000 % 10));
    text.append(digit_text(year / 100 % 10));
    text.append(digit_text(year / 10 % 10));
    text.append(digit_text(year % 10));
    text.append(digit_text(date.month / 10 % 10));
    text.append(digit_text(date.month % 10));
    text.append(digit_text(date.day / 10 % 10));
    text.append(digit_text(date.day % 10));
    assert(text@ =~= date_digits(date.year as int, date.month as int, date.day as int));
    Some(text)
}

/// Whether one run of bytes comes before another, or equals it, in the order
/// of a dictionary.
pub open spec fn bytes_le(a: Seq<u8>, b: Seq<u8>) -> bool
    decreases a.len(),
{
    if a.len() == 0 {
        true
    } else if b.len() == 0 {
        false
    } else if a[0] != b[0] {
        a[0] < b[0]
    } else {
        bytes_le(a.drop_first(), b.drop_first())
    }
}

/// Whether one text comes before another, or equals it, when both are
/// compared byte by byte in UTF-8. Dates written `YYYYMMDD` compare as the
/// days they stand for.
pub open spec fn text_le(a: Seq<char>, b: Seq<char>) -> bool {
    bytes_le(encode_utf8(a), encode_utf8(b))
}

/// Decides whether `a` comes before `b`, or equals it.
pub fn text_at_most(a: &String, b: &String) -> (le: bool)
    ensures
        le == text_le(a@, b@),
{
    let x = a.as_str().as_bytes();
    let y = b.as_str().as_bytes();
    let mut i: usize = 0;
    proof {
        assert(x@.skip(0) =~= x@);
        assert(y@.skip(0) =~= y@);
    }
    while i < x.len() && i < y.len()
        invariant
            i <= x@.len(),
            i <= y@.len(),
            x@ == encode_utf8(a@),
            y@ == encode_utf8(b@),
            bytes_le(x@, y@) == bytes_le(x@.skip(i as int), y@.skip(i as int)),
        decreases x@.len() - i,
    {
        proof {
            assert(x@.skip(i as int).drop_first() =~= x@.skip(i + 1));
            assert(y@.skip(i as int).drop_first() =~= y@.skip(i + 1));
            assert(x@.skip(i as int)[0] == x@[i as int]);
            assert(y@.skip(i as int)[0] == y@[i as int]);
        }
        if x[i] != y[i] {
            return x[i] < y[i];
        }
        i += 1;
    }
    i == x.len()
}

/// The day of a window that lies `k` days after its start, where chrono's
/// calendar has that day and its date can be written `YYYYMMDD`.
pub open spec fn window_day(start: CalendarDate, k: int) -> Option<WindowDayView> {
    match civil_date_after(start.year as int, start.month as int, start.day as int, k) {
        Some((year, month, day)) => match civil_weekday(year, month, day) {
            Some(n) => if writable(year, month, day) {
                Some(
                    WindowDayView {
                        date: date_digits(year, month, day),
                        weekday: weekday_numbered(n),
                    },
                )
            } else {
                None
            },
            None => None,
        },
        None => None,
    }
}

/// Whether the calendar has the day `start`, so that the day that comes no
/// days after it is that day itself.
pub open spec fn is_calendar_day(start: CalendarDate) -> bool {
    civil_date_after(start.year as int, start.month as int, start.day as int, 0) == Some(
        (start.year as int, start.month as int, start.day as int),
    )
}

/// The days of the window that starts on `start` and is `days` days long: a
/// window has between 1 and 32 days, each of which the calendar has, and its
/// first day is `start` itself.
pub open spec fn window(start: CalendarDate, days: int) -> Option<Seq<WindowDayView>> {
    if 1 <= days <= 32 && is_calendar_day(start) && (forall|k: int|
        0 <= k < days ==> (#[trigger] window_day(start, k)) is Some) {
        Some(Seq::new(days as nat, |k: int| window_day(start, k)->0))
    } else {
        None
    }
}

/// A window has as many days as it is long, and its first day carries the
/// date of its start.
pub proof fn lemma_window_starts_on_start(start: CalendarDate, days: int)
    requires
        window(start, days) is Some,
    ensures
        window(start, days)->0.len() == days,
        window(start, days)->0[0].date == date_digits(
            start.year as int,
            start.month as int,
            start.day as int,
        ),
{
    assert(window_day(start, 0) is Some);
}

/// Lays out the days of a window, each with its date and its weekday. The
/// first day is `start` itself. There is no window where the calendar lacks
/// `start` or one of the days after it, or where the length is not between 1
/// and 32.
pub fn date_window(start: &CalendarDate, days: u8) -> (days_of: Option<Vec<WindowDay>>)
    ensures
        days_of.deep_view() == window(*start, days as int),
        days_of matches Some(d) ==> d.len() == days && d[0].date@ == date_digits(
            start.year as int,
            start.month as int,
            start.day as int,
        ),
{
    if days < 1 || days > 32 {
        return None;
    }
    let mut out: Vec<WindowDay> = Vec::new();
    let mut k: u8 = 0;
    while k < days
        invariant
            k <= days <= 32,
            out@.len() == k,
            k > 0 ==> is_calendar_day(*start),
            forall|j: int| 0 <= j < k ==> (#[trigger] window_day(*start, j)) == Some(out@[j]@),
        decreases days - k,
    {
        let date = match date_after(start, k as u64) {
            Some(date) => date,
            None => {
                assert(window_day(*start, k as int) is None);
                return None;
            },
        };
        if k == 0 && !date.same(start) {
            return None;
        }
        let number = match weekday_number(&date) {
            Some(number) => number,
            None => {
                assert(window_day(*start, k as int) is None);
                return None;
            },
        };
        let text = match date_text(&date) {
            Some(text) => text,
            None => {
                assert(window_day(*start, k as int) is None);
                return None;
            },
        };
        let weekday = match Weekday::from_number(number) {
            Some(weekday) => weekday,
            None => {
                return None;
            },
        };
        out.push(WindowDay { date: text, weekday });
        k += 1;
    }
    proof {
        assert(out.deep_view() =~= window(*start, days as int)->0);
        lemma_window_starts_on_start(*start, days as int);
        assert(out.deep_view()[0] == out@[0]@);
    }
    Some(out)
}

/// A moment as the clocks of New York show it: the seconds since the start of
/// 1970 in universal time, and the date and time of day on the wall.
#[derive(Debug, Copy)]
pub struct LocalTime {
    pub timestamp: i64,
    pub date: CalendarDate,
    pub hour: u32,
    pub minute: u32,
    pub second: u32,
}

impl Clone for LocalTime {
    fn clone(&self) -> (c: Self)
        ensures
            c == *self,
    {
        *self
    }
}

impl LocalTime {
    /// What chrono's documentation says of every date and time of day.
    pub open spec fn in_range(&self) -> bool {
        &&& 1 <= self.date.month <= 12
        &&& 1 <= self.date.day <= 31
        &&& self.hour < 24
        &&& self.minute < 60
        &&& self.second < 60
    }
}

/// The date and the time of day that the clocks of New York show at a
/// moment, as chrono and its table of time zones compute them: year, month,
/// day, hour, minute and second. `None` where the moment lies beyond
/// chrono's calendar.
pub uninterp spec fn new_york_wall_clock(timestamp: int) -> Option<
    (int, int, int, int, int, int),
>;

/// Asks chrono what the clocks of New York show at a moment.
///
/// The call is `DateTime::from_timestamp` followed by `with_timezone` with
/// chrono-tz's `America::New_York`. The contract names the result and adds
/// what chrono's documentation says of every date and time of day.
#[verifier::external_body]
pub(crate) fn new_york_time(timestamp: i64) -> (shown: Option<LocalTime>)
    ensures
        new_york_wall_clock(timestamp as int) == match shown {
            Some(t) => Some(
                (
                    t.date.year as int,
                    t.date.month as int,
                    t.date.day as int,
                    t.hour as int,
                    t.minute as int,
                    t.second as int,
                ),
            ),
            None => None,
        },
        shown matches Some(t) ==> t.timestamp == timestamp && t.in_range(),
{
    let utc = chrono::DateTime::from_timestamp(timestamp, 0)?;
    let t = utc.with_timezone(&chrono_tz::America::New_York);
    let year = chrono::Datelike::year(&t);
    let month = chrono::Datelike::month(&t);
    let day = chrono::Datelike::day(&t);
    let hour = chrono::Timelike::hour(&t);
    let minute = chrono::Timelike::minute(&t);
    let second = chrono::Timelike::second(&t);
    Some(LocalTime { timestamp, date: CalendarDate { year, month, day }, hour, minute, second })
}

/// Reads the system clock: the whole seconds since the start of 1970 in
/// universal time, absent while the clock stands before that.
///
/// The call is `SystemTime::now` with `duration_since`. Nothing is promised
/// of the result.
#[verifier::external_body]
pub(crate) fn unix_seconds() -> Option<u64> {
    std::time::SystemTime::now().duration_since(std::time::UNIX_EPOCH).ok().map(|d| d.as_secs())
}

/// The present moment as the clocks of New York show it. Absent while the
/// system clock stands before 1970 or beyond chrono's calendar.
///
/// The clock decides what comes back. Whatever it is, it is what New York
/// shows at some reading of the clock, as [`nyc_datetime_at`] tells it.
pub fn get_nyc_datetime() -> (now: Option<LocalTime>)
    ensures
        exists|reading: Option<u64>| now == #[trigger] new_york_shows(reading),
        now matches Some(t) ==> 0 <= t.timestamp && t.in_range() && new_york_wall_clock(
            t.timestamp as int,
        ) == Some(
            (
                t.date.year as int,
                t.date.month as int,
                t.date.day as int,
                t.hour as int,
                t.minute as int,
                t.second as int,
            ),
        ),
{
    let reading = unix_seconds();
    let now = nyc_datetime_at(reading);
    assert(now == new_york_shows(reading));
    now
}

/// What the clocks of New York show when the system clock reads `reading`
/// whole seconds since the start of 1970: nothing without a reading, nothing
/// for a reading beyond 63 bits, and else what chrono computes for that
/// moment, where it lies within chrono's calendar.
pub open spec fn new_york_shows(reading: Option<u64>) -> Option<LocalTime> {
    match reading {
        Some(seconds) => if seconds <= i64::MAX {
            match new_york_wall_clock(seconds as int) {
                Some((year, month, day, hour, minute, second)) => if i32::MIN <= year <= i32::MAX
                    && 0 <= month <= u32::MAX && 0 <= day <= u32::MAX && 0 <= hour <= u32::MAX && 0
                    <= minute <= u32::MAX && 0 <= second <= u32::MAX {
                    Some(
                        LocalTime {
                            timestamp: seconds as i64,
                            date: CalendarDate {
                                year: year as i32,
                                month: month as u32,
                                day: day as u32,
                            },
                            hour: hour as u32,
                            minute: minute as u32,
                            second: second as u32,
                        },
                    )
                } else {
                    None
                },
                None => None,
            }
        } else {
            None
        },
        None => None,
    }
}

/// The moment of a reading of the system clock as the clocks of New York
/// show it.
pub fn nyc_datetime_at(reading: Option<u64>) -> (shown: Option<LocalTime>)
    ensures
        shown == new_york_shows(reading),
        shown matches Some(t) ==> 0 <= t.timestamp && t.in_range(),
{
    match reading {
        Some(seconds) => {
            if seconds > 0x7fff_ffff_ffff_ffff {
                None
            } else {
                new_york_time(seconds as i64)
            }
        },
        None => None,
    }
}

} // verus!
