//! Calendar rules that decide whether a day is a holiday.

use vstd::prelude::*;
use crate::time::{
    Date, ce_year, ce_month, ce_day_of_month, ce_weekday, ce_iso_week, ce_from_ymd, ce_add_days, ce_sub_days, ce_pred,
    ce_succ, date_year, date_month, date_day_of_month, date_weekday, date_iso_week, date_from_ymd, date_add_days,
    date_sub_days, date_pred, date_succ,
};

verus! {

/// A day of the week.
#[derive(Copy, Clone, Debug, PartialEq, Eq)]
pub enum Weekday {
    Mon,
    Tue,
    Wed,
    Thu,
    Fri,
    Sat,
    Sun,
}

/// A month of the year.
#[derive(Copy, Clone, Debug, PartialEq, Eq)]
pub enum Month {
    January,
    February,
    March,
    April,
    May,
    June,
    July,
    August,
    September,
    October,
    November,
    December,
}

impl Weekday {
    /// 1 for Monday to 7 for Sunday.
    pub open spec fn spec_number(self) -> u32 {
        match self {
            Weekday::Mon => 1,
            Weekday::Tue => 2,
            Weekday::Wed => 3,
            Weekday::Thu => 4,
            Weekday::Fri => 5,
            Weekday::Sat => 6,
            Weekday::Sun => 7,
        }
    }

    /// 1 for Monday to 7 for Sunday.
    pub fn number_from_monday(&self) -> (r: u32)
        ensures
            r == self.spec_number(),
    {
        match self {
            Weekday::Mon => 1,
            Weekday::Tue => 2,
            Weekday::Wed => 3,
            Weekday::Thu => 4,
            Weekday::Fri => 5,
            Weekday::Sat => 6,
            Weekday::Sun => 7,
        }
    }
}

impl Month {
    /// 1 for January to 12 for December.
    pub open spec fn spec_number(self) -> u32 {
        match self {
            Month::January => 1,
            Month::February => 2,
            Month::March => 3,
            Month::April => 4,
            Month::May => 5,
            Month::June => 6,
            Month::July => 7,
            Month::August => 8,
            Month::September => 9,
            Month::October => 10,
            Month::November => 11,
            Month::December => 12,
        }
    }

    /// 1 for January to 12 for December.
    pub fn number_from_month(&self) -> (r: u32)
        ensures
            r == self.spec_number(),
    {
        match self {
            Month::January => 1,
            Month::February => 2,
            Month::March => 3,
            Month::April => 4,
            Month::May => 5,
            Month::June => 6,
            Month::July => 7,
            Month::August => 8,
            Month::September => 9,
            Month::October => 10,
            Month::November => 11,
            Month::December => 12,
        }
    }
}

/// The months in the order of the calendar.
pub open spec fn calendar_months() -> Seq<Month> {
    seq![
        Month::January,
        Month::February,
        Month::March,
        Month::April,
        Month::May,
        Month::June,
        Month::July,
        Month::August,
        Month::September,
        Month::October,
        Month::November,
        Month::December,
    ]
}

/// The days of the week in order, from Monday.
pub open spec fn week_days() -> Seq<Weekday> {
    seq![Weekday::Mon, Weekday::Tue, Weekday::Wed, Weekday::Thu, Weekday::Fri, Weekday::Sat, Weekday::Sun]
}

/// Months are numbered by their place in the calendar, January being 1;
/// every month is in the calendar, so each has its own number from 1 to 12.
pub proof fn lemma_months_numbered_in_calendar_order(m: Month, i: int)
    ensures
        0 <= i < 12 ==> calendar_months()[i].spec_number() == i + 1,
        calendar_months().contains(m),
        1 <= m.spec_number() <= 12,
        calendar_months()[m.spec_number() - 1] == m,
{
    assert(calendar_months()[m.spec_number() - 1] == m);
}

/// Week days are numbered by their place in the week, Monday being 1; each
/// has its own number from 1 to 7.
pub proof fn lemma_week_days_numbered_in_order(w: Weekday, i: int)
    ensures
        0 <= i < 7 ==> week_days()[i].spec_number() == i + 1,
        1 <= w.spec_number() <= 7,
        week_days()[w.spec_number() - 1] == w,
{
}

/// A rule describing a set of holidays.
#[derive(Debug)]
pub enum Holiday {
    And(Box<Holiday>, Box<Holiday>),
    Date { month: Month, day: u8, weekend_adjust: bool },
    DayOfMonth(Vec<u8>),
    DayOfWeek(Vec<Weekday>),
    Easter(i8),
    IsoWeek(Vec<u8>),
    Month(Vec<Month>),
    Not(Box<Holiday>),
    WeekDay { day: Weekday, month: Month, occurrence: u8, ascending: bool },
}

/// Integer division rounding towards zero, as Rust's `/` does.
pub open spec fn trunc_div(a: int, b: int) -> int {
    if a >= 0 { a / b } else { -((-a) / b) }
}

/// The remainder matching `trunc_div`, as Rust's `%` does.
pub open spec fn trunc_rem(a: int, b: int) -> int {
    a - b * trunc_div(a, b)
}

/// The number of days to move from the day being tested for an Easter offset
/// (an `i8` negated and cast to `u64` with two's complement wrapping).
pub open spec fn easter_shift(offset: i8) -> u64 {
    if offset < 0 {
        if offset == -128 { (0x1_0000_0000_0000_0000int - 128) as u64 } else { (-offset) as u64 }
    } else {
        offset as u64
    }
}

/// The shifted epact of the Easter computation for `year`.
pub open spec fn easter_epact(year: int) -> int {
    let c = trunc_div(year, 100) + 1;
    let se = trunc_rem(14 + 11 * trunc_rem(year, 19) - trunc_div(3 * c, 4) + trunc_div(5 + 8 * c, 25), 30);
    if se == 0 || (se == 1 && 10 < trunc_rem(year, 19)) {
        se + 1
    } else {
        se
    }
}

/// Whether `days`, shifted by `offset` days, is the Easter Sunday of `year`.
pub open spec fn spec_is_easter(year: i32, offset: i8, days: i32) -> bool {
    match ce_from_ymd(year, 4, 19) {
        None => false,
        Some(paschal) => {
            let p = paschal - easter_epact(year as int);
            let shifted = if offset < 0 {
                ce_add_days(days, easter_shift(offset))
            } else {
                ce_sub_days(days, easter_shift(offset))
            };
            match shifted {
                None => false,
                Some(d) => p + 7 - trunc_rem(p, 7) == d,
            }
        },
    }
}

/// Whether `date` is a holiday according to `holiday`.
pub open spec fn spec_is_holiday(holiday: Holiday, date: Date) -> bool
    decreases holiday,
{
    match holiday {
        Holiday::And(left, right) => spec_is_holiday(*left, date) && spec_is_holiday(*right, date),
        Holiday::Date { month, day, weekend_adjust } => match ce_year(date.days) {
            None => false,
            Some(year) => match ce_from_ymd(year, month.spec_number(), day as u32) {
                None => false,
                Some(base) => {
                    let target = if weekend_adjust {
                        match ce_weekday(date.days) {
                            Some(6) => ce_pred(base),
                            Some(7) => ce_succ(base),
                            _ => Some(base),
                        }
                    } else {
                        Some(base)
                    };
                    target == Some(date.days)
                },
            },
        },
        Holiday::DayOfMonth(days) => match ce_day_of_month(date.days) {
            None => false,
            Some(d) => days@.contains(d as u8),
        },
        Holiday::DayOfWeek(days) => match ce_weekday(date.days) {
            None => false,
            Some(w) => exists|i: int| 0 <= i < days@.len() && (#[trigger] days@[i]).spec_number() == w,
        },
        Holiday::Easter(offset) => match ce_year(date.days) {
            None => false,
            Some(year) => spec_is_easter(year, offset, date.days),
        },
        Holiday::IsoWeek(weeks) => match ce_iso_week(date.days) {
            None => false,
            Some(w) => w <= 255 && weeks@.contains(w as u8),
        },
        Holiday::Month(months) => match ce_month(date.days) {
            None => false,
            Some(m) => exists|i: int| 0 <= i < months@.len() && (#[trigger] months@[i]).spec_number() == m,
        },
        Holiday::Not(inner) => !spec_is_holiday(*inner, date),
        Holiday::WeekDay { day, month, occurrence, ascending } => match ce_year(date.days) {
            None => false,
            Some(year) => match ce_from_ymd(year, month.spec_number(), 1) {
                None => false,
                Some(base) => match ce_weekday(base) {
                    None => false,
                    Some(base_day) => {
                        let skip = if occurrence >= 1 { occurrence - 1 } else { 0 };
                        let offset = ((day.spec_number() + 7 - base_day) % 7 + 7 * skip) as u64;
                        let found = if ascending { ce_add_days(base, offset) } else { ce_sub_days(base, offset) };
                        found == Some(date.days)
                    },
                },
            },
        },
    }
}

fn contains_u8(values: &Vec<u8>, value: u8) -> (r: bool)
    ensures
        r == values@.contains(value),
{
    let mut i: usize = 0;
    while i < values.len()
        invariant
            i <= values@.len(),
            forall|j: int| 0 <= j < i ==> values@[j] != value,
        decreases values@.len() - i,
    {
        if values[i] == value {
            return true;
        }
        i = i + 1;
    }
    false
}

fn contains_weekday(values: &Vec<Weekday>, number: u32) -> (r: bool)
    ensures
        r == exists|i: int| 0 <= i < values@.len() && (#[trigger] values@[i]).spec_number() == number,
{
    let mut i: usize = 0;
    while i < values.len()
        invariant
            i <= values@.len(),
            forall|j: int| 0 <= j < i ==> (#[trigger] values@[j]).spec_number() != number,
        decreases values@.len() - i,
    {
        if values[i].number_from_monday() == number {
            return true;
        }
        i = i + 1;
    }
    false
}

fn contains_month(values: &Vec<Month>, number: u32) -> (r: bool)
    ensures
        r == exists|i: int| 0 <= i < values@.len() && (#[trigger] values@[i]).spec_number() == number,
{
    let mut i: usize = 0;
    while i < values.len()
        invariant
            i <= values@.len(),
            forall|j: int| 0 <= j < i ==> (#[trigger] values@[j]).spec_number() != number,
        decreases values@.len() - i,
    {
        if values[i].number_from_month() == number {
            return true;
        }
        i = i + 1;
    }
    false
}

fn is_easter(year: i32, offset: i8, days: i32) -> (r: bool)
    ensures
        r == spec_is_easter(year, offset, days),
{
    let c: i32 = (year / 100) + 1;
    let mut se: i32 = (14 + 11 * (year % 19) - 3 * c / 4 + (5 + 8 * c) / 25) % 30;
    if (se == 0) || ((se == 1) && (10 < (year % 19))) {
        se += 1;
    }
    assert(se == easter_epact(year as int));
    match date_from_ymd(year, 4, 19) {
        None => false,
        Some(paschal) => {
            let shift: u64 = if offset < 0 {
                if offset == -128 { 0xffff_ffff_ffff_ff80u64 } else { (-offset) as u64 }
            } else {
                offset as u64
            };
            let shifted = if offset < 0 {
                date_add_days(days, shift)
            } else {
                date_sub_days(days, shift)
            };
            match shifted {
                None => false,
                Some(d) => {
                    let p: i64 = paschal as i64 - se as i64;
                    p + 7 - (p % 7) == d as i64
                },
            }
        },
    }
}

impl Holiday {
    /// Whether `date` is one of the holidays this rule describes.
    pub fn is_holiday(&self, date: &Date) -> (r: bool)
        ensures
            r == spec_is_holiday(*self, *date),
        decreases self,
    {
        match self {
            Holiday::And(left, right) => left.is_holiday(date) && right.is_holiday(date),
            Holiday::Date { month, day, weekend_adjust } => match date_year(date.days) {
                None => false,
                Some(year) => match date_from_ymd(year, month.number_from_month(), *day as u32) {
                    None => false,
                    Some(base) => {
                        let target = if *weekend_adjust {
                            match date_weekday(date.days) {
                                Some(6) => date_pred(base),
                                Some(7) => date_succ(base),
                                _ => Some(base),
                            }
                        } else {
                            Some(base)
                        };
                        match target {
                            Some(t) => t == date.days,
                            None => false,
                        }
                    },
                },
            },
            Holiday::DayOfMonth(days) => match date_day_of_month(date.days) {
                None => false,
                Some(d) => contains_u8(days, d as u8),
            },
            Holiday::DayOfWeek(days) => match date_weekday(date.days) {
                None => false,
                Some(w) => contains_weekday(days, w),
            },
            Holiday::Easter(offset) => match date_year(date.days) {
                None => false,
                Some(year) => is_easter(year, *offset, date.days),
            },
            Holiday::IsoWeek(weeks) => match date_iso_week(date.days) {
                None => false,
                Some(w) => w <= 255 && contains_u8(weeks, w as u8),
            },
            Holiday::Month(months) => match date_month(date.days) {
                None => false,
                Some(m) => contains_month(months, m),
            },
            Holiday::Not(inner) => !inner.is_holiday(date),
            Holiday::WeekDay { day, month, occurrence, ascending } => match date_year(date.days) {
                None => false,
                Some(year) => match date_from_ymd(year, month.number_from_month(), 1) {
                    None => false,
                    Some(base) => match date_weekday(base) {
                        None => false,
                        Some(base_day) => {
                            let skip: u32 = if *occurrence >= 1 { (*occurrence - 1) as u32 } else { 0 };
                            let offset: u64 = ((day.number_from_monday() + 7 - base_day) % 7 + 7 * skip) as u64;
                            let found = if *ascending { date_add_days(base, offset) } else { date_sub_days(base, offset) };
                            match found {
                                Some(f) => f == date.days,
                                None => false,
                            }
                        },
                    },
                },
            },
        }
    }
}

/// A month holiday naming only the `i`-th month of the calendar holds on
/// exactly the days `chrono` places in month `i + 1`.
pub proof fn lemma_month_holiday_by_calendar(months: Vec<Month>, i: int, date: Date)
    requires
        0 <= i < 12,
        months@ == seq![calendar_months()[i]],
    ensures
        spec_is_holiday(Holiday::Month(months), date) == (ce_month(date.days) == Some((i + 1) as u32)),
{
    assert(months@[0] == calendar_months()[i]);
}

/// A fixed date without weekend adjustment in the `i`-th month of the
/// calendar holds on exactly the day `chrono` gives for that day of month
/// `i + 1` in the date's year.
pub proof fn lemma_date_holiday_by_calendar(i: int, day: u8, date: Date)
    requires
        0 <= i < 12,
    ensures
        spec_is_holiday(Holiday::Date { month: calendar_months()[i], day, weekend_adjust: false }, date) == (ce_year(
            date.days,
        ) matches Some(y) && ce_from_ymd(y, (i + 1) as u32, day as u32) == Some(date.days)),
{
}

/// A week-day holiday naming only the `i`-th day of the week holds on
/// exactly the days `chrono` numbers `i + 1` from Monday.
pub proof fn lemma_week_day_holiday_by_calendar(days: Vec<Weekday>, i: int, date: Date)
    requires
        0 <= i < 7,
        days@ == seq![week_days()[i]],
    ensures
        spec_is_holiday(Holiday::DayOfWeek(days), date) == (ce_weekday(date.days) == Some((i + 1) as u32)),
{
    assert(days@[0] == week_days()[i]);
}

/// `Not` holds where its rule does not, and `And` where both rules do.
pub proof fn lemma_holiday_logic(a: Holiday, b: Holiday, date: Date)
    ensures
        spec_is_holiday(Holiday::Not(Box::new(a)), date) == !spec_is_holiday(a, date),
        spec_is_holiday(Holiday::And(Box::new(a), Box::new(b)), date) == (spec_is_holiday(a, date) && spec_is_holiday(b, date)),
{
}

} // verus!
