//! Persian (Jalali), Hijri and Gregorian calendar core: date conversion,
//! month grids, holidays, locale tables, formatting and settings validation.
pub mod adhan;
pub mod backend;
pub mod calendar;
pub mod colors;
pub mod config;
pub mod countries;
pub mod error;
pub mod format;
pub mod gregorian;
pub mod holidays;
pub mod laws;
pub mod locale;
pub mod month_view;
pub mod paths;
pub mod persian_lemmas;
pub mod prayer;
pub mod reminders;
pub mod service;
pub mod system_locale;
pub mod system_time;
pub mod text;
pub mod ui_strings;
pub mod wisdom;
