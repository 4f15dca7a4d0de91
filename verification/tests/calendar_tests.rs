use boloot_cal_core::calendar::{CalendarEngine, CalendarSystem};
use boloot_cal_core::countries::CountryProfile;
use boloot_cal_core::error::BolootError;
use boloot_cal_core::gregorian::GregorianDate;
use boloot_cal_core::locale::{LanguageVariant, Weekday};

fn engine() -> CalendarEngine {
    CalendarEngine::new(CountryProfile::iran(), LanguageVariant::Persian)
}

fn ymd(y: i32, m: u32, d: u32) -> GregorianDate {
    GregorianDate::from_ymd_opt(y, m, d).unwrap()
}

#[test]
fn jalali_gregorian_roundtrip() {
    let engine = engine();
    let gregorian = engine.jalali_to_gregorian(1404, 1, 1).unwrap();
    let cal = engine.on_date(gregorian).unwrap();
    assert_eq!(cal.jalali_year, 1404);
    assert_eq!(cal.jalali_month, 1);
    assert_eq!(cal.jalali_day, 1);
}

#[test]
fn nowruz_1404_is_march_21() {
    let engine = engine();
    let gregorian = engine.jalali_to_gregorian(1404, 1, 1).unwrap();
    assert_eq!(gregorian, ymd(2025, 3, 21));
}

#[test]
fn nowruz_1403_is_march_20() {
    let engine = engine();
    let gregorian = engine.jalali_to_gregorian(1403, 1, 1).unwrap();
    assert_eq!(gregorian, ymd(2024, 3, 20));
}

#[test]
fn day_before_nowruz_1404_is_esfand_30() {
    let engine = engine();
    let cal = engine.on_date(ymd(2025, 3, 20)).unwrap();
    assert_eq!(cal.jalali_year, 1403);
    assert_eq!(cal.jalali_month, 12);
    assert_eq!(cal.jalali_day, 30);
}

#[test]
fn hijri_gregorian_roundtrip() {
    let engine = engine();
    let gregorian = engine.hijri_to_gregorian(1447, 9, 15).unwrap();
    let cal = engine.on_date(gregorian).unwrap();
    assert_eq!(cal.hijri_year, 1447);
    assert_eq!(cal.hijri_month, 9);
    assert_eq!(cal.hijri_day, 15);
}

#[test]
fn padded_grid_has_seven_columns() {
    let calendar = engine();
    let grid = calendar.month_grid_padded(1404, 4, Weekday::Saturday).unwrap();
    assert_eq!(grid.len() % 7, 0);
    assert_eq!(grid.len(), 42);
}

#[test]
fn hijri_padded_grid_has_seven_columns() {
    let calendar = engine();
    let grid = calendar.hijri_month_grid_padded(1447, 9, Weekday::Saturday).unwrap();
    assert_eq!(grid.len() % 7, 0);
    assert!(grid.len() >= 42);
}

#[test]
fn jalali_month_lengths_follow_the_leap_cycle() {
    let calendar = engine();
    assert_eq!(calendar.days_in_jalali_month(1404, 1).unwrap(), 31);
    assert_eq!(calendar.days_in_jalali_month(1404, 7).unwrap(), 30);
    assert_eq!(calendar.days_in_jalali_month(1403, 12).unwrap(), 30);
    assert_eq!(calendar.days_in_jalali_month(1404, 12).unwrap(), 29);
    assert!(matches!(calendar.days_in_jalali_month(1404, 13), Err(BolootError::InvalidDate(_))));
}

#[test]
fn invalid_jalali_date_is_refused() {
    let calendar = engine();
    assert!(matches!(calendar.jalali_to_gregorian(1404, 12, 30), Err(BolootError::InvalidDate(_))));
    assert!(matches!(calendar.jalali_to_gregorian(0, 1, 1), Err(BolootError::InvalidDate(_))));
    assert!(calendar.jalali_to_gregorian(1403, 12, 30).is_ok());
}

#[test]
fn date_outside_hijri_tables_is_refused() {
    let calendar = engine();
    assert!(matches!(calendar.on_date(ymd(1800, 1, 1)), Err(BolootError::InvalidDate(_))));
}

#[test]
fn weekday_of_nowruz_1404_is_friday() {
    let cal = engine().on_date(ymd(2025, 3, 21)).unwrap();
    assert_eq!(cal.weekday, Weekday::Friday);
}

#[test]
fn padded_grid_starts_on_week_start_and_runs_consecutively() {
    let calendar = engine();
    for ws in [Weekday::Saturday, Weekday::Monday, Weekday::Friday] {
        let grid = calendar.month_grid_padded(1404, 1, ws).unwrap();
        assert_eq!(grid[0].weekday, ws);
        for pair in grid.windows(2) {
            assert_eq!(pair[1].gregorian.days_since(&pair[0].gregorian), 1);
        }
    }
}

#[test]
fn unpadded_grid_covers_the_month_in_whole_weeks() {
    let calendar = engine();
    let grid = calendar.month_grid(1404, 1, Weekday::Saturday).unwrap();
    assert_eq!(grid.len() % 7, 0);
    let days: Vec<u8> = grid.iter().flatten().map(|d| d.jalali_day).collect();
    assert_eq!(days, (1..=31).collect::<Vec<u8>>());
    assert_eq!(grid[6].unwrap().jalali_day, 1);
}

#[test]
fn hijri_month_length_and_calendar_kind() {
    let calendar = engine();
    let n = calendar.days_in_hijri_month(1447, 9).unwrap();
    assert!((28..=30).contains(&n));
    assert!(calendar.days_in_hijri_month(1600, 1).is_err());
    assert_eq!(CalendarSystem::default(), CalendarSystem::Jalali);
}
