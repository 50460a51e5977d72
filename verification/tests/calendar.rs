use chrono::Datelike;
use spadina::controller::puzzle::state_machine::data::RootData;
use spadina::controller::puzzle::state_machine::error::StateMachineError;
use spadina::controller::puzzle::state_machine::expression::{BoolExpression, NumberExpression};
use spadina::controller::puzzle::state_machine::holiday::{Holiday, Month, Weekday};
use spadina::controller::puzzle::state_machine::StateMachinePuzzleState;
use spadina::atomic_clock::AtomicClock;
use spadina::time::{instant_from_clock, Date, Delay, Timestamp, MAX_SECONDS, MIN_SECONDS};

fn day(year: i32, month: u32, day: u32) -> Date {
    Date { days: chrono::NaiveDate::from_ymd_opt(year, month, day).unwrap().num_days_from_ce() }
}

fn root(date: Date) -> RootData {
    RootData { seed: 17, date }
}

fn state_in(timezone: &str) -> StateMachinePuzzleState {
    StateMachinePuzzleState {
        global_values: vec![],
        last_time: Timestamp { seconds: 0, nanos: 0 },
        seed: 5,
        states: vec![],
        timezone: timezone.to_string(),
    }
}

#[test]
fn calendar_days_are_counted_from_the_common_era() {
    assert_eq!(day(1, 1, 1).days, 1);
    assert_eq!(day(1970, 1, 1).days, 719_163);
    let d = day(2024, 3, 31);
    assert!(Holiday::Month(vec![Month::March]).is_holiday(&d));
    assert!(!Holiday::Month(vec![Month::April]).is_holiday(&d));
    assert!(Holiday::DayOfMonth(vec![31]).is_holiday(&d));
    assert!(!Holiday::DayOfMonth(vec![30]).is_holiday(&d));
    assert!(Holiday::DayOfWeek(vec![Weekday::Sun]).is_holiday(&d));
    assert!(!Holiday::DayOfWeek(vec![Weekday::Sat]).is_holiday(&d));
    assert!(Holiday::IsoWeek(vec![13]).is_holiday(&d));
    assert!(!Holiday::IsoWeek(vec![14]).is_holiday(&d));
    let leap = Holiday::Date { month: Month::February, day: 29, weekend_adjust: false };
    assert!(leap.is_holiday(&day(2024, 2, 29)));
    assert!(!leap.is_holiday(&day(2023, 3, 1)));
}

#[test]
fn local_days_follow_the_time_zone() {
    let epoch = Timestamp { seconds: 0, nanos: 0 };
    let utc_state = state_in("UTC");
    let utc = utc_state.variable_data_at(epoch, 2).unwrap();
    assert_eq!(utc.id, 2);
    assert_eq!(utc.root, RootData { seed: 5, date: Date { days: 719_163 } });
    let new_york_state = state_in("America/New_York");
    let new_york = new_york_state.variable_data_at(epoch, 0).unwrap();
    assert_eq!(new_york.root.date, Date { days: 719_162 });
    assert!(state_in("Nowhere/Special").variable_data_at(epoch, 0).is_none());
    assert!(state_in("UTC").variable_data_at(Timestamp { seconds: 0, nanos: 1_000_000_000 }, 0).is_none());
    // At the ends of the representable range, a local time past them has no day.
    let first = Timestamp { seconds: MIN_SECONDS, nanos: 0 };
    let last = Timestamp { seconds: MAX_SECONDS, nanos: 0 };
    assert!(state_in("UTC").variable_data_at(first, 0).is_some());
    assert!(state_in("America/New_York").variable_data_at(first, 0).is_none());
    assert!(state_in("UTC").variable_data_at(last, 0).is_some());
    assert!(state_in("Asia/Tokyo").variable_data_at(last, 0).is_none());
}

#[test]
fn instants_compare_and_subtract() {
    let a = Timestamp { seconds: 100, nanos: 500 };
    let b = Timestamp { seconds: 100, nanos: 600 };
    assert!(a.before(&b));
    assert!(!b.before(&a));
    assert_eq!(a.plus_seconds(20), Timestamp { seconds: 120, nanos: 500 });
    let later = Timestamp { seconds: 103, nanos: 100 };
    assert_eq!(later.seconds_since(&a), 2);
    assert_eq!(a.seconds_since(&later), -2);
    assert_eq!(a.elapsed_u32(&later), 0);
    assert_eq!(later.until(&a), Some(Delay { seconds: 2, nanos: 999_999_600 }));
    assert_eq!(a.until(&later), None);
}

#[test]
fn easter_and_the_days_around_it() {
    assert!(Holiday::Easter(0).is_holiday(&day(2024, 3, 31)));
    assert!(!Holiday::Easter(0).is_holiday(&day(2024, 4, 1)));
    assert!(Holiday::Easter(1).is_holiday(&day(2024, 4, 1)));
    assert!(Holiday::Easter(-2).is_holiday(&day(2024, 3, 29)));
    assert!(Holiday::Easter(0).is_holiday(&day(2023, 4, 9)));
}

#[test]
fn fixed_and_counted_holidays() {
    let christmas = Holiday::Date { month: Month::December, day: 25, weekend_adjust: false };
    assert!(christmas.is_holiday(&day(2023, 12, 25)));
    assert!(!christmas.is_holiday(&day(2023, 12, 26)));
    let thanksgiving = Holiday::WeekDay { day: Weekday::Thu, month: Month::November, occurrence: 4, ascending: true };
    assert!(thanksgiving.is_holiday(&day(2023, 11, 23)));
    assert!(!thanksgiving.is_holiday(&day(2023, 11, 16)));
    assert!(Holiday::DayOfWeek(vec![Weekday::Sun]).is_holiday(&day(2024, 3, 31)));
    assert!(Holiday::Month(vec![Month::March]).is_holiday(&day(2024, 3, 31)));
    assert!(Holiday::DayOfMonth(vec![31]).is_holiday(&day(2024, 3, 31)));
    assert!(Holiday::IsoWeek(vec![13]).is_holiday(&day(2024, 3, 31)));
    assert!(!Holiday::Not(Box::new(Holiday::IsoWeek(vec![13]))).is_holiday(&day(2024, 3, 31)));
    assert!(Holiday::And(Box::new(Holiday::Month(vec![Month::March])), Box::new(Holiday::DayOfMonth(vec![31]))).is_holiday(&day(2024, 3, 31)));
}

#[test]
fn weekend_holidays_move_to_a_weekday() {
    let holiday = Holiday::Date { month: Month::July, day: 4, weekend_adjust: true };
    // 2026-07-04 is a Saturday
    assert!(holiday.is_holiday(&day(2026, 7, 3)) == false);
    // 2021-07-04 is a Sunday; the day after is observed
    assert!(!holiday.is_holiday(&day(2021, 7, 5)));
    assert!(holiday.is_holiday(&day(2023, 7, 4)));
}

#[test]
fn number_expressions_keep_their_quirks() {
    let data = root(day(2024, 3, 31));
    let c = |n: u32| Box::new(NumberExpression::<()>::Constant(n));
    assert_eq!(NumberExpression::Multiply(c(2), c(3)).evaluate(&data), Ok(5));
    assert_eq!(NumberExpression::Or(c(6), c(3)).evaluate(&data), Ok(2));
    assert_eq!(NumberExpression::And(c(6), c(3)).evaluate(&data), Ok(2));
    assert_eq!(NumberExpression::XOr(c(6), c(3)).evaluate(&data), Ok(5));
    assert_eq!(NumberExpression::Add(c(u32::MAX), c(1)).evaluate(&data), Ok(u32::MAX));
    assert_eq!(NumberExpression::Subtract(c(3), c(5)).evaluate(&data), Ok(0));
    assert_eq!(NumberExpression::Divide(c(7), c(0)).evaluate(&data), Ok(0));
    assert_eq!(NumberExpression::Divide(c(7), c(2)).evaluate(&data), Ok(3));
    assert_eq!(NumberExpression::Modulo(c(7), c(0)).evaluate(&data), Ok(0));
    assert_eq!(NumberExpression::Modulo(c(7), c(4)).evaluate(&data), Ok(3));
    assert_eq!(NumberExpression::Max(c(7), c(4)).evaluate(&data), Ok(7));
    assert_eq!(NumberExpression::Min(c(7), c(4)).evaluate(&data), Ok(4));
    assert_eq!(NumberExpression::<()>::Mask { offset: 4, length: 4 }.evaluate(&data), Ok(0xF0));
    assert_eq!(NumberExpression::<()>::Mask { offset: 0, length: 32 }.evaluate(&data), Ok(0));
    assert_eq!(NumberExpression::<()>::Seed.evaluate(&data), Ok(17));
    assert_eq!(NumberExpression::Case(c(1), vec![NumberExpression::Constant(10), NumberExpression::Constant(20)], c(30)).evaluate(&data), Ok(20));
    assert_eq!(NumberExpression::Case(c(5), vec![NumberExpression::Constant(10)], c(30)).evaluate(&data), Ok(30));
    assert_eq!(
        NumberExpression::If(Box::new(BoolExpression::Constant(false)), c(1), c(2)).evaluate(&data),
        Ok(2)
    );
}

#[test]
fn boolean_expressions_read_the_calendar() {
    let data = root(day(2024, 3, 31));
    assert_eq!(BoolExpression::<()>::IsHoliday(vec![Holiday::Easter(0)]).evaluate(&data), Ok(true));
    assert_eq!(BoolExpression::<()>::IsHoliday(vec![]).evaluate(&data), Ok(false));
    let n = |v: u32| NumberExpression::<()>::Constant(v);
    assert_eq!(BoolExpression::LessThan(n(1), n(2)).evaluate(&data), Ok(true));
    assert_eq!(BoolExpression::GreaterThanOrEqual(n(1), n(2)).evaluate(&data), Ok(false));
    assert_eq!(BoolExpression::Not(Box::new(BoolExpression::Equal(n(1), n(1)))).evaluate(&data), Ok(false));
}

#[test]
fn global_expressions_cannot_read_variables() {
    let data = root(day(2024, 3, 31));
    assert_eq!(BoolExpression::Variable(()).evaluate(&data), Err(StateMachineError::VariableInGlobal));
    assert_eq!(
        BoolExpression::And(Box::new(BoolExpression::Constant(true)), Box::new(BoolExpression::Variable(()))).evaluate(&data),
        Err(StateMachineError::VariableInGlobal)
    );
    assert_eq!(
        BoolExpression::And(Box::new(BoolExpression::Constant(false)), Box::new(BoolExpression::Variable(()))).evaluate(&data),
        Ok(false)
    );
    assert_eq!(
        BoolExpression::Or(Box::new(BoolExpression::Constant(true)), Box::new(BoolExpression::Variable(()))).evaluate(&data),
        Ok(true)
    );
}

#[test]
fn permutations_are_permutations() {
    let data = root(day(2024, 3, 31));
    let c = |n: u32| Box::new(NumberExpression::<()>::Constant(n));
    let mut moved = false;
    for seed in 0..10u32 {
        let mut entries: Vec<u32> = (0..5u32)
            .map(|i| NumberExpression::Permutation { seed: c(seed), index: c(i), length: c(5) }.evaluate(&data).unwrap())
            .collect();
        if entries != vec![0, 1, 2, 3, 4] {
            moved = true;
        }
        entries.sort();
        assert_eq!(entries, vec![0, 1, 2, 3, 4]);
    }
    assert!(moved);
    assert_eq!(NumberExpression::Permutation { seed: c(3), index: c(4), length: c(4) }.evaluate(&data), Ok(0));
    assert_eq!(NumberExpression::Permutation { seed: c(3), index: c(0), length: c(0) }.evaluate(&data), Ok(0));
}

#[test]
fn clocks_hold_whole_seconds() {
    let clock = AtomicClock::from(Timestamp { seconds: 1_700_000_123, nanos: 999 });
    assert_eq!(clock.read(), Timestamp { seconds: 1_700_000_123, nanos: 0 });
    let mut running = AtomicClock::now();
    let first = running.read();
    assert!(first.is_valid());
    assert!(first.seconds > 1_700_000_000);
    assert_eq!(first.nanos, 0);
    running.reset();
    assert!(!running.read().before(&first));
}

#[test]
fn clock_readings_become_instants() {
    assert_eq!(instant_from_clock(false, 5, 7), Timestamp { seconds: 5, nanos: 7 });
    assert_eq!(instant_from_clock(true, 5, 0), Timestamp { seconds: -5, nanos: 0 });
    assert_eq!(instant_from_clock(true, 5, 250_000_000), Timestamp { seconds: -6, nanos: 750_000_000 });
    assert_eq!(instant_from_clock(false, u64::MAX, 3), Timestamp { seconds: MAX_SECONDS, nanos: 999_999_999 });
    assert_eq!(instant_from_clock(true, u64::MAX, 3), Timestamp { seconds: MIN_SECONDS, nanos: 0 });
    assert_eq!(MIN_SECONDS, chrono::DateTime::<chrono::Utc>::MIN_UTC.timestamp());
    assert_eq!(MAX_SECONDS, chrono::DateTime::<chrono::Utc>::MAX_UTC.timestamp());
}
