//! The calendar: the date and the time of day of an instant, and the text
//! that stands for it.
//!
//! An instant is counted in seconds since the start of 1970 in UTC, and in
//! nanoseconds within its second. The instants that can be written are those
//! of the years 1970 to 9999. The text of an instant has one width for all
//! of them: `YYYY-MM-DD HH:MM:SS.NNNNNNNNN UTC`. So the texts of two
//! instants sort as the instants do.

use vstd::prelude::*;
use vstd::string::StringExecFns;

verus! {

/// The first second that cannot be written: the start of the year 10000.
pub const SECONDS_END: i64 = 253402300800;

/// The nanoseconds of a second.
pub const NANOS_PER_SECOND: u32 = 1000000000;

/// Whether an instant can be written: it lies in the years 1970 to 9999,
/// and its nanoseconds are less than a second.
pub open spec fn valid_instant(seconds: int, nanos: int) -> bool {
    0 <= seconds < 253402300800 && 0 <= nanos < 1000000000
}

/// Whether the first instant comes before the second.
pub open spec fn instant_before(
    seconds: int,
    nanos: int,
    later_seconds: int,
    later_nanos: int,
) -> bool {
    seconds < later_seconds || (seconds == later_seconds && nanos < later_nanos)
}

/// Whether a year has a 29th of February: every fourth year has, but of the
/// years that end a century only every fourth.
pub open spec fn is_leap_year(year: int) -> bool {
    year % 4 == 0 && (year % 100 != 0 || year % 400 == 0)
}

/// The days of a year.
pub open spec fn days_in_year(year: int) -> int {
    if is_leap_year(year) {
        366
    } else {
        365
    }
}

/// The days of a month, the months counted from 1.
pub open spec fn days_in_month(year: int, month: int) -> int {
    if month == 2 {
        if is_leap_year(year) {
            29
        } else {
            28
        }
    } else if month == 4 || month == 6 || month == 9 || month == 11 {
        30
    } else {
        31
    }
}

/// The leap years from the year 1 up to, and without, `year`.
pub open spec fn leap_years_before(year: int) -> int {
    (year - 1) / 4 - (year - 1) / 100 + (year - 1) / 400
}

/// The days from the start of 1970 to the start of `year`.
pub open spec fn days_before_year(year: int) -> int {
    365 * (year - 1970) + leap_years_before(year) - leap_years_before(1970)
}

/// The days from the start of `year` to the start of its month `month`.
pub open spec fn days_before_month(year: int, month: int) -> int
    decreases month,
{
    if month <= 1 {
        0
    } else {
        days_before_month(year, month - 1) + days_in_month(year, month - 1)
    }
}

/// A day of the calendar.
pub struct Date {
    pub year: int,
    pub month: int,
    pub day: int,
}

impl Date {
    /// Whether there is such a day in the years 1970 to 9999.
    pub open spec fn valid(self) -> bool {
        &&& 1970 <= self.year <= 9999
        &&& 1 <= self.month <= 12
        &&& 1 <= self.day <= days_in_month(self.year, self.month)
    }

    /// The days from the start of 1970 to this day.
    pub open spec fn number(self) -> int {
        days_before_year(self.year) + days_before_month(self.year, self.month) + self.day - 1
    }

    /// Whether this day comes before the other.
    pub open spec fn before(self, other: Date) -> bool {
        ||| self.year < other.year
        ||| self.year == other.year && self.month < other.month
        ||| self.year == other.year && self.month == other.month && self.day < other.day
    }

    /// The day that lies `number` days after the start of 1970.
    pub open spec fn of_number(number: int) -> Date {
        choose|date: Date| date.valid() && date.number() == number
    }
}

/// A year is as long as the days between its start and the start of the
/// next.
pub proof fn lemma_year_step(year: int)
    requires
        year >= 1,
    ensures
        days_before_year(year + 1) == days_before_year(year) + days_in_year(year),
{
}

/// The starts of the years come in the order of the years.
pub proof fn lemma_years_in_order(year: int, later: int)
    requires
        1 <= year <= later,
    ensures
        days_before_year(year) <= days_before_year(later),
        year < later ==> days_before_year(year) + days_in_year(year) <= days_before_year(later),
    decreases later - year,
{
    if year < later {
        lemma_year_step(later - 1);
        lemma_years_in_order(year, later - 1);
    }
}

/// The starts of the months of a year, and the end of the year.
pub proof fn lemma_month_starts(year: int)
    ensures
        days_before_month(year, 1) == 0,
        days_before_month(year, 2) == 31,
        days_before_month(year, 3) == days_in_year(year) - 306,
        days_before_month(year, 4) == days_in_year(year) - 275,
        days_before_month(year, 5) == days_in_year(year) - 245,
        days_before_month(year, 6) == days_in_year(year) - 214,
        days_before_month(year, 7) == days_in_year(year) - 184,
        days_before_month(year, 8) == days_in_year(year) - 153,
        days_before_month(year, 9) == days_in_year(year) - 122,
        days_before_month(year, 10) == days_in_year(year) - 92,
        days_before_month(year, 11) == days_in_year(year) - 61,
        days_before_month(year, 12) == days_in_year(year) - 31,
        days_before_month(year, 13) == days_in_year(year),
{
    reveal_with_fuel(days_before_month, 14);
}

/// Days that come in order have numbers in the same order.
pub proof fn lemma_numbers_in_order(date: Date, later: Date)
    requires
        date.valid(),
        later.valid(),
        date.before(later),
    ensures
        date.number() < later.number(),
{
    lemma_month_starts(date.year);
    lemma_month_starts(later.year);
    lemma_years_in_order(date.year, later.year);
}

/// Every number has at most one day: a day is found again from its number.
pub proof fn lemma_date_of_number(date: Date)
    requires
        date.valid(),
    ensures
        Date::of_number(date.number()) == date,
{
    let found = Date::of_number(date.number());
    if found.before(date) {
        lemma_numbers_in_order(found, date);
    }
    if date.before(found) {
        lemma_numbers_in_order(date, found);
    }
}

/// The days of a year.
fn year_length(year: u64) -> (days: u64)
    requires
        year <= 9999,
    ensures
        days == days_in_year(year as int),
{
    if year % 4 == 0 && (year % 100 != 0 || year % 400 == 0) {
        366
    } else {
        365
    }
}

/// The days of a month.
fn month_length(year: u64, month: u64) -> (days: u64)
    requires
        year <= 9999,
    ensures
        days == days_in_month(year as int, month as int),
{
    if month == 2 {
        if year % 4 == 0 && (year % 100 != 0 || year % 400 == 0) {
            29
        } else {
            28
        }
    } else if month == 4 || month == 6 || month == 9 || month == 11 {
        30
    } else {
        31
    }
}

/// Finds the day that lies `number` days after the start of 1970: its year,
/// its month and its day of the month.
pub fn date_of_number(number: u64) -> (date: (u64, u64, u64))
    requires
        number < 2932897,
    ensures
        (Date { year: date.0 as int, month: date.1 as int, day: date.2 as int }).valid(),
        Date::of_number(number as int) == (Date {
            year: date.0 as int,
            month: date.1 as int,
            day: date.2 as int,
        }),
{
    let mut year: u64 = 1970;
    let mut rest: u64 = number;
    assert(days_before_year(10000) == 2932897);
    assert(days_before_year(1970) == 0);
    while rest >= year_length(year)
        invariant
            1970 <= year <= 9999,
            days_before_year(year as int) + rest == number,
            number < days_before_year(10000),
        decreases rest,
    {
        proof {
            lemma_year_step(year as int);
            lemma_years_in_order(year + 1, 10000);
        }
        rest = rest - year_length(year);
        year = year + 1;
    }
    let ghost day_of_year = rest;
    let mut month: u64 = 1;
    proof {
        lemma_month_starts(year as int);
    }
    while rest >= month_length(year, month)
        invariant
            1970 <= year <= 9999,
            1 <= month <= 12,
            days_before_month(year as int, month as int) + rest == day_of_year,
            day_of_year < days_in_year(year as int),
        decreases rest,
    {
        proof {
            lemma_month_starts(year as int);
        }
        rest = rest - month_length(year, month);
        month = month + 1;
    }
    proof {
        lemma_date_of_number(Date { year: year as int, month: month as int, day: rest + 1 });
    }
    (year, month, rest + 1)
}

/// The character of a decimal digit.
pub open spec fn digit(d: int) -> char {
    if d == 0 {
        '0'
    } else if d == 1 {
        '1'
    } else if d == 2 {
        '2'
    } else if d == 3 {
        '3'
    } else if d == 4 {
        '4'
    } else if d == 5 {
        '5'
    } else if d == 6 {
        '6'
    } else if d == 7 {
        '7'
    } else if d == 8 {
        '8'
    } else {
        '9'
    }
}

/// Whether a character is a decimal digit.
pub open spec fn is_digit(c: char) -> bool {
    '0' as u32 <= c as u32 <= '9' as u32
}

/// The last `width` decimal digits of `n`, with zeros in front where `n` has
/// fewer.
pub open spec fn digits(n: int, width: nat) -> Seq<char>
    decreases width,
{
    if width == 0 {
        Seq::empty()
    } else {
        digits(n / 10, (width - 1) as nat).push(digit(n % 10))
    }
}

/// The least number that does not fit into `width` decimal digits.
pub open spec fn ten_to(width: nat) -> int
    decreases width,
{
    if width == 0 {
        1
    } else {
        10 * ten_to((width - 1) as nat)
    }
}

/// A number in `width` digits, what separates it from the rest, and the
/// rest.
pub open spec fn field(n: int, width: nat, separator: Seq<char>, rest: Seq<char>) -> Seq<char> {
    digits(n, width) + separator + rest
}

/// The date and the time of day of an instant.
pub struct Civil {
    pub year: int,
    pub month: int,
    pub day: int,
    pub hour: int,
    pub minute: int,
    pub second: int,
    pub nanos: int,
}

impl Civil {
    /// The date and the time of day of the instant that lies `seconds`
    /// seconds and `nanos` nanoseconds after the start of 1970.
    pub open spec fn of_instant(seconds: int, nanos: int) -> Civil {
        let date = Date::of_number(seconds / 86400);
        let in_day = seconds % 86400;
        Civil {
            year: date.year,
            month: date.month,
            day: date.day,
            hour: in_day / 3600,
            minute: (in_day % 3600) / 60,
            second: in_day % 60,
            nanos: nanos,
        }
    }

    /// The text of the date and the time of day, the same width for all.
    pub open spec fn text(self) -> Seq<char> {
        field(
            self.year,
            4,
            "-"@,
            field(
                self.month,
                2,
                "-"@,
                field(
                    self.day,
                    2,
                    " "@,
                    field(
                        self.hour,
                        2,
                        ":"@,
                        field(
                            self.minute,
                            2,
                            ":"@,
                            field(
                                self.second,
                                2,
                                "."@,
                                field(self.nanos, 9, " UTC"@, Seq::empty()),
                            ),
                        ),
                    ),
                ),
            ),
        )
    }
}

/// The text of an instant: `YYYY-MM-DD HH:MM:SS.NNNNNNNNN UTC`.
pub open spec fn stamp_text(seconds: int, nanos: int) -> Seq<char> {
    Civil::of_instant(seconds, nanos).text()
}

/// Two texts agree up to a place that both have, and hold digits there, the
/// first text the lesser one.
pub open spec fn digit_differs_at(a: Seq<char>, b: Seq<char>, k: int) -> bool {
    &&& 0 <= k < a.len()
    &&& k < b.len()
    &&& a.take(k) == b.take(k)
    &&& is_digit(a[k])
    &&& is_digit(b[k])
    &&& (a[k] as u32) < (b[k] as u32)
}

/// Two texts differ first at a place where both hold a digit, the first text
/// the lesser one.
pub open spec fn digit_differs_below(a: Seq<char>, b: Seq<char>) -> bool {
    exists|k: int| #[trigger] digit_differs_at(a, b, k)
}

/// A number in `width` digits is `width` characters long, all of them
/// digits.
pub proof fn lemma_digits_are_digits(n: int, width: nat)
    requires
        0 <= n,
    ensures
        digits(n, width).len() == width,
        forall|i: int| 0 <= i < width ==> is_digit(#[trigger] digits(n, width)[i]),
    decreases width,
{
    if width > 0 {
        lemma_digits_are_digits(n / 10, (width - 1) as nat);
    }
}

/// Numbers that fit into `width` digits are written in their order: the
/// digits of the lesser number sort first.
pub proof fn lemma_digits_in_order(a: int, b: int, width: nat)
    requires
        0 <= a < b < ten_to(width),
    ensures
        digit_differs_below(digits(a, width), digits(b, width)),
    decreases width,
{
    assert(width > 0);
    let shorter = (width - 1) as nat;
    let x = digits(a / 10, shorter);
    let y = digits(b / 10, shorter);
    lemma_digits_are_digits(a / 10, shorter);
    lemma_digits_are_digits(b / 10, shorter);
    lemma_digits_are_digits(a, width);
    lemma_digits_are_digits(b, width);
    if a / 10 < b / 10 {
        lemma_digits_in_order(a / 10, b / 10, shorter);
        let k = choose|k: int| #[trigger] digit_differs_at(x, y, k);
        assert(digits(a, width).take(k) =~= x.take(k));
        assert(digits(b, width).take(k) =~= y.take(k));
        assert(digits(a, width)[k] == x[k]);
        assert(digits(b, width)[k] == y[k]);
        assert(digit_differs_at(digits(a, width), digits(b, width), k));
    } else {
        let k = shorter as int;
        assert(digits(a, width).take(k) =~= x);
        assert(digits(b, width).take(k) =~= y);
        assert(digits(a, width)[k] == digit(a % 10));
        assert(digits(b, width)[k] == digit(b % 10));
        assert(digit_differs_at(digits(a, width), digits(b, width), k));
    }
}

/// Two fields of one width and with one separator sort by their numbers,
/// and, where the numbers are the same, by what follows them.
pub proof fn lemma_fields_in_order(
    a: int,
    b: int,
    width: nat,
    separator: Seq<char>,
    rest: Seq<char>,
    later_rest: Seq<char>,
)
    requires
        0 <= a < ten_to(width),
        0 <= b < ten_to(width),
        a < b || (a == b && digit_differs_below(rest, later_rest)),
    ensures
        digit_differs_below(
            field(a, width, separator, rest),
            field(b, width, separator, later_rest),
        ),
{
    let x = field(a, width, separator, rest);
    let y = field(b, width, separator, later_rest);
    lemma_digits_are_digits(a, width);
    lemma_digits_are_digits(b, width);
    if a < b {
        lemma_digits_in_order(a, b, width);
        let k = choose|k: int| #[trigger] digit_differs_at(digits(a, width), digits(b, width), k);
        assert(x.take(k) =~= digits(a, width).take(k));
        assert(y.take(k) =~= digits(b, width).take(k));
        assert(x[k] == digits(a, width)[k]);
        assert(y[k] == digits(b, width)[k]);
        assert(digit_differs_at(x, y, k));
    } else {
        let k = choose|k: int| #[trigger] digit_differs_at(rest, later_rest, k);
        let front = digits(a, width) + separator;
        let at = front.len() + k;
        assert(x =~= front + rest);
        assert(y =~= front + later_rest);
        assert(x[at] == rest[k]);
        assert(y[at] == later_rest[k]);
        assert(x.take(at) =~= front + rest.take(k));
        assert(y.take(at) =~= front + later_rest.take(k));
        assert(digit_differs_at(x, y, at));
    }
}

/// Whether the date and time of day `a` come before those of `b`.
pub open spec fn civil_before(a: Civil, b: Civil) -> bool {
    a.year < b.year || (a.year == b.year && (a.month < b.month || (a.month == b.month && (a.day
        < b.day || (a.day == b.day && (a.hour < b.hour || (a.hour == b.hour && (a.minute < b.minute
        || (a.minute == b.minute && (a.second < b.second || (a.second == b.second && a.nanos
        < b.nanos)))))))))))
}

/// The parts of the date and time of an instant that can be written are
/// within their bounds.
pub proof fn lemma_civil_in_bounds(seconds: int, nanos: int)
    requires
        valid_instant(seconds, nanos),
    ensures
        ({
            let c = Civil::of_instant(seconds, nanos);
            &&& (Date { year: c.year, month: c.month, day: c.day }).valid()
            &&& (Date { year: c.year, month: c.month, day: c.day }).number() == seconds / 86400
            &&& c.day <= 31
            &&& 0 <= c.hour < 24
            &&& 0 <= c.minute < 60
            &&& 0 <= c.second < 60
            &&& 0 <= c.nanos < 1000000000
        }),
{
    lemma_day_exists(seconds / 86400);
}

/// Every number of days within the years 1970 to 9999 is the number of a
/// day.
pub proof fn lemma_day_exists(number: int)
    requires
        0 <= number < 2932897,
    ensures
        Date::of_number(number).valid(),
        Date::of_number(number).number() == number,
{
    assert(days_before_year(10000) == 2932897);
    assert(days_before_year(1970) == 0);
    let year = lemma_year_of(number, 1970);
    lemma_month_starts(year);
    let month = lemma_month_of(year, number - days_before_year(year), 1);
    let date = Date {
        year: year,
        month: month,
        day: number - days_before_year(year) - days_before_month(year, month) + 1,
    };
    assert(date.valid() && date.number() == number);
}

/// Finds the year in which a day lies, searching from the year `from`.
proof fn lemma_year_of(number: int, from: int) -> (year: int)
    requires
        1970 <= from <= 9999,
        days_before_year(from) <= number < days_before_year(10000),
    ensures
        from <= year <= 9999,
        days_before_year(year) <= number < days_before_year(year) + days_in_year(year),
    decreases 10000 - from,
{
    lemma_year_step(from);
    if number < days_before_year(from + 1) {
        from
    } else {
        lemma_year_of(number, from + 1)
    }
}

/// Finds the month in which a day of a year lies, searching from the month
/// `from`.
proof fn lemma_month_of(year: int, day_of_year: int, from: int) -> (month: int)
    requires
        1 <= from <= 12,
        days_before_month(year, from) <= day_of_year < days_in_year(year),
    ensures
        from <= month <= 12,
        days_before_month(year, month) <= day_of_year < days_before_month(year, month)
            + days_in_month(year, month),
    decreases 13 - from,
{
    lemma_month_starts(year);
    if day_of_year < days_before_month(year, from) + days_in_month(year, from) {
        from
    } else {
        lemma_month_of(year, day_of_year, from + 1)
    }
}

/// Instants that come in order have dates and times of day in the same
/// order.
pub proof fn lemma_civil_in_order(seconds: int, nanos: int, later_seconds: int, later_nanos: int)
    requires
        valid_instant(seconds, nanos),
        valid_instant(later_seconds, later_nanos),
        instant_before(seconds, nanos, later_seconds, later_nanos),
    ensures
        civil_before(
            Civil::of_instant(seconds, nanos),
            Civil::of_instant(later_seconds, later_nanos),
        ),
{
    let a = Civil::of_instant(seconds, nanos);
    let b = Civil::of_instant(later_seconds, later_nanos);
    lemma_civil_in_bounds(seconds, nanos);
    lemma_civil_in_bounds(later_seconds, later_nanos);
    let date = Date { year: a.year, month: a.month, day: a.day };
    let later = Date { year: b.year, month: b.month, day: b.day };
    if seconds / 86400 < later_seconds / 86400 {
        if !date.before(later) {
            if later.before(date) {
                lemma_numbers_in_order(later, date);
            }
        }
    }
}

/// Instants that come in order have texts in the same order: the texts
/// differ first at a digit, and the earlier instant holds the lesser one.
pub proof fn lemma_stamps_in_order(seconds: int, nanos: int, later_seconds: int, later_nanos: int)
    requires
        valid_instant(seconds, nanos),
        valid_instant(later_seconds, later_nanos),
        instant_before(seconds, nanos, later_seconds, later_nanos),
    ensures
        digit_differs_below(
            stamp_text(seconds, nanos),
            stamp_text(later_seconds, later_nanos),
        ),
{
    let a = Civil::of_instant(seconds, nanos);
    let b = Civil::of_instant(later_seconds, later_nanos);
    lemma_civil_in_bounds(seconds, nanos);
    lemma_civil_in_bounds(later_seconds, later_nanos);
    lemma_civil_in_order(seconds, nanos, later_seconds, later_nanos);
    reveal_with_fuel(ten_to, 10);
    let none = Seq::<char>::empty();
    let a7 = field(a.nanos, 9, " UTC"@, none);
    let b7 = field(b.nanos, 9, " UTC"@, none);
    let a6 = field(a.second, 2, "."@, a7);
    let b6 = field(b.second, 2, "."@, b7);
    let a5 = field(a.minute, 2, ":"@, a6);
    let b5 = field(b.minute, 2, ":"@, b6);
    let a4 = field(a.hour, 2, ":"@, a5);
    let b4 = field(b.hour, 2, ":"@, b5);
    let a3 = field(a.day, 2, " "@, a4);
    let b3 = field(b.day, 2, " "@, b4);
    let a2 = field(a.month, 2, "-"@, a3);
    let b2 = field(b.month, 2, "-"@, b3);
    let before7 = a.nanos < b.nanos;
    let before6 = a.second < b.second || (a.second == b.second && before7);
    let before5 = a.minute < b.minute || (a.minute == b.minute && before6);
    let before4 = a.hour < b.hour || (a.hour == b.hour && before5);
    let before3 = a.day < b.day || (a.day == b.day && before4);
    let before2 = a.month < b.month || (a.month == b.month && before3);
    if before7 {
        lemma_fields_in_order(a.nanos, b.nanos, 9, " UTC"@, none, none);
    }
    if before6 {
        lemma_fields_in_order(a.second, b.second, 2, "."@, a7, b7);
    }
    if before5 {
        lemma_fields_in_order(a.minute, b.minute, 2, ":"@, a6, b6);
    }
    if before4 {
        lemma_fields_in_order(a.hour, b.hour, 2, ":"@, a5, b5);
    }
    if before3 {
        lemma_fields_in_order(a.day, b.day, 2, " "@, a4, b4);
    }
    if before2 {
        lemma_fields_in_order(a.month, b.month, 2, "-"@, a3, b3);
    }
    lemma_fields_in_order(a.year, b.year, 4, "-"@, a2, b2);
}

/// A decimal digit as a string.
fn digit_text(d: u64) -> (text: &'static str)
    requires
        d < 10,
    ensures
        text@.len() == 1,
        text@[0] == digit(d as int),
{
    proof {
        reveal_strlit("0");
        reveal_strlit("1");
        reveal_strlit("2");
        reveal_strlit("3");
        reveal_strlit("4");
        reveal_strlit("5");
        reveal_strlit("6");
        reveal_strlit("7");
        reveal_strlit("8");
        reveal_strlit("9");
    }
    if d == 0 {
        "0"
    } else if d == 1 {
        "1"
    } else if d == 2 {
        "2"
    } else if d == 3 {
        "3"
    } else if d == 4 {
        "4"
    } else if d == 5 {
        "5"
    } else if d == 6 {
        "6"
    } else if d == 7 {
        "7"
    } else if d == 8 {
        "8"
    } else {
        "9"
    }
}

/// Writes the last `width` decimal digits of `n` at the end of `text`.
pub fn append_digits(text: &mut String, n: u64, width: u8)
    ensures
        final(text)@ == old(text)@ + digits(n as int, width as nat),
    decreases width,
{
    if width > 0 {
        append_digits(text, n / 10, width - 1);
        let last = digit_text(n % 10);
        text.append(last);
        assert(last@ =~= seq![digit((n % 10) as int)]);
        assert(text@ =~= old(text)@ + digits(n as int, width as nat));
    } else {
        assert(text@ =~= old(text)@ + digits(n as int, 0));
    }
}

/// Writes out an instant of the years 1970 to 9999.
pub fn stamp(seconds: i64, nanos: u32) -> (text: String)
    requires
        valid_instant(seconds as int, nanos as int),
    ensures
        text@ == stamp_text(seconds as int, nanos as int),
{
    let days = (seconds / 86400) as u64;
    let in_day = (seconds % 86400) as u64;
    let date = date_of_number(days);
    let mut text = String::new();
    append_digits(&mut text, date.0, 4);
    text.append("-");
    append_digits(&mut text, date.1, 2);
    text.append("-");
    append_digits(&mut text, date.2, 2);
    text.append(" ");
    append_digits(&mut text, in_day / 3600, 2);
    text.append(":");
    append_digits(&mut text, (in_day % 3600) / 60, 2);
    text.append(":");
    append_digits(&mut text, in_day % 60, 2);
    text.append(".");
    append_digits(&mut text, nanos as u64, 9);
    text.append(" UTC");
    assert(text@ =~= stamp_text(seconds as int, nanos as int));
    text
}

} // verus!
