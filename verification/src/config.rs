//! User settings: calendar, appearance and prayer sections, their defaults,
//! migrations and validation.
use vstd::prelude::*;

use crate::calendar::CalendarSystem;
use crate::colors::{
    is_valid_hex, valid_hex, DEFAULT_BG_COLOR, DEFAULT_HOLIDAY_COLOR, DEFAULT_PRAYER_COLOR,
    DEFAULT_TEXT_COLOR, DEFAULT_TODAY_COLOR,
};
use crate::countries::{CountryProfile, CountryRegistry};
use crate::error::BolootError;
use crate::format::{effective_numerals, effective_numerals_spec, DateFormatStyle, NumeralStyle};
use crate::locale::{kind_timezone, kind_week_start, profile_kind, LanguageVariant, LocaleProfile, Weekday};
use crate::prayer::{
    country_madhab_id, country_method_id, madhab_named, method_named, LocationStore,
    PrayerCalculationMethod, PrayerMadhab, PrayerName,
};
use crate::system_locale::DetectedLocale;
use crate::text::{chars_of, concat2, contains_char, decimal, lower_seq, owned, str_eq, string_from_chars, to_ascii_lowercase, u64_to_string};

verus! {

/// Calendar section of the settings.
#[derive(Debug)]
pub struct CalendarSettings {
    pub country: CountryProfile,
    pub language: LanguageVariant,
    pub calendar_type: CalendarSystem,
    pub week_start: Weekday,
    pub timezone: String,
    pub numerals: NumeralStyle,
    pub date_style: DateFormatStyle,
    pub show_holidays: bool,
    pub holiday_notifications: bool,
    pub follow_system_locale: bool,
}

impl CalendarSettings {
    /// Digits actually used: Latin for the Gregorian calendar, else the chosen style.
    pub fn effective_numerals(&self) -> (n: NumeralStyle)
        ensures
            n == effective_numerals_spec(self.calendar_type, self.numerals),
    {
        effective_numerals(self.calendar_type, self.numerals)
    }
}

/// The calendar settings of a fresh install: Iran, Persian, Jalali.
pub open spec fn is_default_calendar(s: CalendarSettings) -> bool {
    &&& s.country@ == "iran"@
    &&& s.language == LanguageVariant::Persian
    &&& s.calendar_type == CalendarSystem::Jalali
    &&& s.week_start == Weekday::Saturday
    &&& s.timezone@ == "Asia/Tehran"@
    &&& s.numerals == NumeralStyle::Persian
    &&& s.date_style == DateFormatStyle::LongNamed
    &&& s.show_holidays
    &&& s.holiday_notifications
    &&& s.follow_system_locale
}

impl Default for CalendarSettings {
    fn default() -> (s: Self)
        ensures
            is_default_calendar(s),
    {
        let locale = LocaleProfile::resolve(CountryProfile::iran(), LanguageVariant::Persian);
        proof {
            reveal_strlit("iran");
            reveal_strlit("afghanistan");
            reveal_strlit("tajikistan");
            assert("iran"@ != "afghanistan"@ && "iran"@ != "tajikistan"@) by {
                assert("iran"@.len() == 4);
            }
        }
        CalendarSettings {
            country: CountryProfile::iran(),
            language: LanguageVariant::Persian,
            calendar_type: CalendarSystem::Jalali,
            week_start: locale.default_week_start,
            timezone: locale.default_timezone,
            numerals: NumeralStyle::Persian,
            date_style: DateFormatStyle::LongNamed,
            show_holidays: true,
            holiday_notifications: true,
            follow_system_locale: true,
        }
    }
}

/// Appearance section of the settings.
#[derive(Debug)]
pub struct AppearanceSettings {
    pub font_family: String,
    pub font_size_pt: u8,
    pub text_color: String,
    pub background_color: String,
    pub holiday_color: String,
    pub today_color: String,
    pub prayer_color: String,
    pub use_system_theme: bool,
    pub show_in_top_bar: bool,
    pub show_clock: bool,
    pub show_in_popup: bool,
}

/// The five colors are the install defaults.
pub open spec fn factory_colors(a: AppearanceSettings) -> bool {
    &&& a.text_color@ == DEFAULT_TEXT_COLOR@
    &&& a.background_color@ == DEFAULT_BG_COLOR@
    &&& a.holiday_color@ == DEFAULT_HOLIDAY_COLOR@
    &&& a.today_color@ == DEFAULT_TODAY_COLOR@
    &&& a.prayer_color@ == DEFAULT_PRAYER_COLOR@
}

pub open spec fn is_default_appearance(a: AppearanceSettings) -> bool {
    &&& a.font_family@ == "Vazirmatn"@
    &&& a.font_size_pt == 11
    &&& factory_colors(a)
    &&& a.use_system_theme
    &&& a.show_in_top_bar
    &&& a.show_clock
    &&& a.show_in_popup
}

impl Default for AppearanceSettings {
    fn default() -> (a: Self)
        ensures
            is_default_appearance(a),
    {
        AppearanceSettings {
            font_family: owned("Vazirmatn"),
            font_size_pt: 11,
            text_color: owned(DEFAULT_TEXT_COLOR),
            background_color: owned(DEFAULT_BG_COLOR),
            holiday_color: owned(DEFAULT_HOLIDAY_COLOR),
            today_color: owned(DEFAULT_TODAY_COLOR),
            prayer_color: owned(DEFAULT_PRAYER_COLOR),
            use_system_theme: true,
            show_in_top_bar: true,
            show_clock: true,
            show_in_popup: true,
        }
    }
}

impl AppearanceSettings {
    /// True when appearance colors were never customized from install defaults.
    pub fn has_factory_colors(&self) -> (r: bool)
        ensures
            r == factory_colors(*self),
    {
        str_eq(self.text_color.as_str(), DEFAULT_TEXT_COLOR) && str_eq(
            self.background_color.as_str(),
            DEFAULT_BG_COLOR,
        ) && str_eq(self.holiday_color.as_str(), DEFAULT_HOLIDAY_COLOR) && str_eq(
            self.today_color.as_str(),
            DEFAULT_TODAY_COLOR,
        ) && str_eq(self.prayer_color.as_str(), DEFAULT_PRAYER_COLOR)
    }
}

/// Bundled adhan recordings, or a file of the user's.
#[derive(Debug, Clone, Copy, PartialEq, Eq, Structural, Default)]
pub enum AdhanPreset {
    #[default]
    Mansouri,
    Makkah,
    Madinah,
    Custom,
}

/// Which prayers play the adhan.
#[derive(Debug, Clone, Copy, PartialEq, Eq, Structural)]
pub struct AdhanPrayerToggles {
    pub fajr: bool,
    pub sunrise: bool,
    pub dhuhr: bool,
    pub asr: bool,
    pub maghrib: bool,
    pub isha: bool,
}

pub open spec fn toggle_of(t: AdhanPrayerToggles, p: PrayerName) -> bool {
    match p {
        PrayerName::Fajr => t.fajr,
        PrayerName::Sunrise => t.sunrise,
        PrayerName::Dhuhr => t.dhuhr,
        PrayerName::Asr => t.asr,
        PrayerName::Maghrib => t.maghrib,
        PrayerName::Isha => t.isha,
    }
}

impl AdhanPrayerToggles {
    pub fn is_enabled(&self, prayer: PrayerName) -> (r: bool)
        ensures
            r == toggle_of(*self, prayer),
    {
        match prayer {
            PrayerName::Fajr => self.fajr,
            PrayerName::Sunrise => self.sunrise,
            PrayerName::Dhuhr => self.dhuhr,
            PrayerName::Asr => self.asr,
            PrayerName::Maghrib => self.maghrib,
            PrayerName::Isha => self.isha,
        }
    }
}

impl Default for AdhanPrayerToggles {
    /// Every prayer but sunrise.
    fn default() -> (t: Self)
        ensures
            t == (AdhanPrayerToggles {
                fajr: true,
                sunrise: false,
                dhuhr: true,
                asr: true,
                maghrib: true,
                isha: true,
            }),
    {
        AdhanPrayerToggles {
            fajr: true,
            sunrise: false,
            dhuhr: true,
            asr: true,
            maghrib: true,
            isha: true,
        }
    }
}

/// What the top bar shows of the prayer times.
#[derive(Debug, Clone, Copy, PartialEq, Eq, Structural, Default)]
pub enum PrayerDisplayMode {
    #[default]
    NextPrayer,
    AllTimes,
    Countdown,
    Hidden,
}

/// Prayer section of the settings; custom coordinates in millionths of a degree.
#[derive(Debug)]
pub struct PrayerSettings {
    pub enabled: bool,
    pub city: String,
    pub latitude_e6: Option<i64>,
    pub longitude_e6: Option<i64>,
    pub method: PrayerCalculationMethod,
    pub madhab: PrayerMadhab,
    pub display_mode: PrayerDisplayMode,
    pub show_in_top_bar: bool,
    pub show_in_popup: bool,
    pub notification_minutes: Vec<u32>,
    pub adhan_enabled: bool,
    pub adhan_preset: AdhanPreset,
    pub adhan_custom_path: Option<String>,
    pub adhan_volume: u8,
    pub adhan_show_notification: bool,
    pub adhan_prayers: AdhanPrayerToggles,
}

pub open spec fn is_default_prayer(p: PrayerSettings) -> bool {
    &&& p.enabled
    &&& p.city@ == "tehran"@
    &&& p.latitude_e6 is None
    &&& p.longitude_e6 is None
    &&& p.method == PrayerCalculationMethod::Tehran
    &&& p.madhab == PrayerMadhab::Jafari
    &&& p.display_mode == PrayerDisplayMode::NextPrayer
    &&& p.show_in_top_bar
    &&& p.show_in_popup
    &&& p.notification_minutes@ == seq![10u32]
    &&& !p.adhan_enabled
    &&& p.adhan_preset == AdhanPreset::Mansouri
    &&& p.adhan_custom_path is None
    &&& p.adhan_volume == 80
    &&& p.adhan_show_notification
    &&& p.adhan_prayers == (AdhanPrayerToggles {
        fajr: true,
        sunrise: false,
        dhuhr: true,
        asr: true,
        maghrib: true,
        isha: true,
    })
}

impl Default for PrayerSettings {
    fn default() -> (p: Self)
        ensures
            is_default_prayer(p),
    {
        let mut minutes: Vec<u32> = Vec::new();
        minutes.push(10);
        PrayerSettings {
            enabled: true,
            city: owned("tehran"),
            latitude_e6: None,
            longitude_e6: None,
            method: PrayerCalculationMethod::Tehran,
            madhab: PrayerMadhab::Jafari,
            display_mode: PrayerDisplayMode::NextPrayer,
            show_in_top_bar: true,
            show_in_popup: true,
            notification_minutes: minutes,
            adhan_enabled: false,
            adhan_preset: AdhanPreset::Mansouri,
            adhan_custom_path: None,
            adhan_volume: 80,
            adhan_show_notification: true,
            adhan_prayers: AdhanPrayerToggles::default(),
        }
    }
}

/// All settings.
#[derive(Debug)]
pub struct BolootConfig {
    pub calendar: CalendarSettings,
    pub appearance: AppearanceSettings,
    pub prayer: PrayerSettings,
}

impl Default for BolootConfig {
    fn default() -> (c: Self)
        ensures
            is_default_calendar(c.calendar),
            is_default_appearance(c.appearance),
            is_default_prayer(c.prayer),
    {
        BolootConfig {
            calendar: CalendarSettings::default(),
            appearance: AppearanceSettings::default(),
            prayer: PrayerSettings::default(),
        }
    }
}

/// The settings after a change of country or language from
/// `old_country`/`old_language`: week start, timezone, prayer method and
/// madhab reset to the new country's defaults; with no change, only an
/// empty timezone is filled in.
pub open spec fn with_country_defaults(
    c: BolootConfig,
    old_country: Seq<char>,
    old_language: LanguageVariant,
    registry: CountryRegistry,
) -> BolootConfig {
    let k = profile_kind(c.calendar.country@, c.calendar.language);
    if c.calendar.country@ != old_country || c.calendar.language != old_language {
        BolootConfig {
            calendar: CalendarSettings {
                week_start: kind_week_start(k),
                timezone: c.calendar.timezone,
                ..c.calendar
            },
            prayer: PrayerSettings {
                method: match method_named(lower_seq(country_method_id(registry, c.calendar.country@))) {
                    Some(m) => m,
                    None => PrayerCalculationMethod::Mwl,
                },
                madhab: match madhab_named(lower_seq(country_madhab_id(registry, c.calendar.country@))) {
                    Some(m) => m,
                    None => PrayerMadhab::Jafari,
                },
                ..c.prayer
            },
            ..c
        }
    } else {
        c
    }
}

/// Timezone after [`with_country_defaults`]: the profile default when the
/// country or language changed or the timezone was empty.
pub open spec fn timezone_after(c: BolootConfig, old_country: Seq<char>, old_language: LanguageVariant) -> Seq<char> {
    let k = profile_kind(c.calendar.country@, c.calendar.language);
    if c.calendar.country@ != old_country || c.calendar.language != old_language
        || c.calendar.timezone@.len() == 0 {
        kind_timezone(k)
    } else {
        c.calendar.timezone@
    }
}

/// The settings with `timezone` replaced (all else equal).
pub open spec fn same_but_timezone(a: BolootConfig, b: BolootConfig) -> bool {
    &&& a.calendar.country == b.calendar.country
    &&& a.calendar.language == b.calendar.language
    &&& a.calendar.calendar_type == b.calendar.calendar_type
    &&& a.calendar.week_start == b.calendar.week_start
    &&& a.calendar.numerals == b.calendar.numerals
    &&& a.calendar.date_style == b.calendar.date_style
    &&& a.calendar.show_holidays == b.calendar.show_holidays
    &&& a.calendar.holiday_notifications == b.calendar.holiday_notifications
    &&& a.calendar.follow_system_locale == b.calendar.follow_system_locale
    &&& a.appearance == b.appearance
    &&& a.prayer == b.prayer
}

impl BolootConfig {
    /// Turns the system theme back on when it is off but the colors were
    /// never changed; returns whether anything changed.
    pub fn migrate_appearance(&mut self) -> (changed: bool)
        ensures
            changed == (!old(self).appearance.use_system_theme && factory_colors(old(self).appearance)),
            final(self).appearance.use_system_theme == (old(self).appearance.use_system_theme || changed),
            final(self).calendar == old(self).calendar,
            final(self).prayer == old(self).prayer,
            final(self).appearance == (AppearanceSettings {
                use_system_theme: final(self).appearance.use_system_theme,
                ..old(self).appearance
            }),
    {
        if !self.appearance.use_system_theme && self.appearance.has_factory_colors() {
            self.appearance.use_system_theme = true;
            true
        } else {
            false
        }
    }

    /// Applies country-specific defaults only when the country or language
    /// changed from `old_country`/`old_language`.
    pub fn apply_country_defaults_on_change(
        &mut self,
        old_country: &CountryProfile,
        old_language: LanguageVariant,
        registry: &CountryRegistry,
    )
        requires
            registry.wf(),
        ensures
            same_but_timezone(*final(self), with_country_defaults(*old(self), old_country@, old_language, *registry)),
            final(self).calendar.timezone@ == timezone_after(*old(self), old_country@, old_language),
    {
        let locale = LocaleProfile::resolve(self.calendar.country.duplicate(), self.calendar.language);
        if !self.calendar.country.same_as(old_country) || self.calendar.language != old_language {
            self.calendar.week_start = locale.default_week_start;
            self.calendar.timezone = locale.default_timezone;
            self.prayer.method = PrayerCalculationMethod::for_country(&self.calendar.country, registry);
            self.prayer.madhab = PrayerMadhab::for_country(&self.calendar.country, registry);
        } else if self.calendar.timezone.as_str().is_empty() {
            self.calendar.timezone = locale.default_timezone;
        }
    }

    /// Takes country, language and digits from the detected system locale,
    /// then applies the country defaults if they changed.
    pub fn apply_system_locale(&mut self, detected: &DetectedLocale, registry: &CountryRegistry)
        requires
            registry.wf(),
        ensures
            final(self).calendar.country@ == detected.country@,
            final(self).calendar.language == detected.language,
            final(self).calendar.numerals == detected.numerals,
            ({
                let mid = BolootConfig {
                    calendar: CalendarSettings {
                        country: final(self).calendar.country,
                        language: detected.language,
                        numerals: detected.numerals,
                        ..old(self).calendar
                    },
                    ..*old(self)
                };
                &&& same_but_timezone(*final(self), with_country_defaults(mid, old(self).calendar.country@, old(self).calendar.language, *registry))
                &&& final(self).calendar.timezone@ == timezone_after(mid, old(self).calendar.country@, old(self).calendar.language)
            }),
    {
        let old_country = self.calendar.country.duplicate();
        let old_language = self.calendar.language;
        self.calendar.country = detected.country.duplicate();
        self.calendar.language = detected.language;
        self.calendar.numerals = detected.numerals;
        self.apply_country_defaults_on_change(&old_country, old_language, registry);
    }
}


/// Whether `chrono_tz` knows the IANA timezone `name` (exact spelling).
pub uninterp spec fn is_tz_name(name: Seq<char>) -> bool;

/// `name.parse::<chrono_tz::Tz>().is_ok()`: a lookup of the exact name in the
/// timezone table compiled into `chrono_tz`; the result is named, not stated.
#[verifier::external_body]
fn timezone_is_known(name: &str) -> (r: bool)
    ensures
        r == is_tz_name(name@),
{
    name.parse::<chrono_tz::Tz>().is_ok()
}

/// `format!("{:?}", Path::new(p))`: the quoted, escaped form of a path.
pub uninterp spec fn path_debug_text(p: Seq<char>) -> Seq<char>;

/// `std::path::Path`'s `Debug` text of `p`; named, not stated.
#[verifier::external_body]
pub(crate) fn path_debug(p: &str) -> (r: String)
    ensures
        r@ == path_debug_text(p@),
{
    format!("{:?}", std::path::Path::new(p))
}

/// `Path::new(p).extension()`: the part of the file name after its last `.`.
pub uninterp spec fn path_extension_of(p: Seq<char>) -> Option<Seq<char>>;

/// `std::path::Path::extension` of `p` as text; named, not stated.
#[verifier::external_body]
fn path_extension(p: &str) -> (r: Option<String>)
    ensures
        match path_extension_of(p@) {
            Some(e) => r matches Some(x) && x@ == e,
            None => r is None,
        },
{
    match std::path::Path::new(p).extension() {
        Some(e) => Some(e.to_string_lossy().into_owned()),
        None => None,
    }
}

/// An adhan file name ends in `.ogg`, `.wav`, `.mp3` or `.flac` (any case).
pub open spec fn audio_extension(p: Seq<char>) -> bool {
    match path_extension_of(p) {
        Some(e) => {
            let l = lower_seq(e);
            l == "ogg"@ || l == "wav"@ || l == "mp3"@ || l == "flac"@
        },
        None => false,
    }
}

fn is_valid_audio_extension(p: &str) -> (r: bool)
    ensures
        r == audio_extension(p@),
{
    match path_extension(p) {
        Some(e) => {
            let l = string_from_chars(&to_ascii_lowercase(&chars_of(e.as_str())));
            str_eq(l.as_str(), "ogg") || str_eq(l.as_str(), "wav") || str_eq(l.as_str(), "mp3")
                || str_eq(l.as_str(), "flac")
        },
        None => false,
    }
}

/// The first of the five colors that is not `#RRGGBB`, as its error text.
pub open spec fn color_problem(a: AppearanceSettings) -> Option<Seq<char>> {
    if !valid_hex(a.text_color@) {
        Some("invalid "@ + "text_color"@ + ": "@ + a.text_color@)
    } else if !valid_hex(a.background_color@) {
        Some("invalid "@ + "background_color"@ + ": "@ + a.background_color@)
    } else if !valid_hex(a.holiday_color@) {
        Some("invalid "@ + "holiday_color"@ + ": "@ + a.holiday_color@)
    } else if !valid_hex(a.today_color@) {
        Some("invalid "@ + "today_color"@ + ": "@ + a.today_color@)
    } else if !valid_hex(a.prayer_color@) {
        Some("invalid "@ + "prayer_color"@ + ": "@ + a.prayer_color@)
    } else {
        None
    }
}

/// A font family that is empty or holds `"`, `;`, `<` or `>`.
pub open spec fn bad_font_family(f: Seq<char>) -> bool {
    f.len() == 0 || f.contains('"') || f.contains(';') || f.contains('<') || f.contains('>')
}

/// The first reminder lead time that is zero or over a day.
pub open spec fn bad_minutes(ms: Seq<u32>) -> Option<u32>
    decreases ms.len(),
{
    if ms.len() == 0 {
        None
    } else if ms[0] == 0 || ms[0] > 24 * 60 {
        Some(ms[0])
    } else {
        bad_minutes(ms.drop_first())
    }
}

/// The first problem of a configuration, as its error text; `None` when it is valid.
/// `locations` is the city catalogue and `adhan_file_exists` whether the
/// custom adhan path names an existing file.
pub open spec fn config_problem(c: BolootConfig, locations: LocationStore, adhan_file_exists: bool) -> Option<Seq<char>> {
    if !is_tz_name(c.calendar.timezone@) {
        Some("invalid timezone: "@ + c.calendar.timezone@)
    } else if !(8 <= c.appearance.font_size_pt <= 24) {
        Some("font_size_pt must be 8–24, got "@ + decimal(c.appearance.font_size_pt as nat))
    } else if color_problem(c.appearance) is Some {
        color_problem(c.appearance)
    } else if bad_font_family(c.appearance.font_family@) {
        Some("invalid font_family"@)
    } else if c.prayer.enabled && !(c.prayer.latitude_e6 is Some && c.prayer.longitude_e6 is Some)
        && !locations.has(c.prayer.city@) {
        Some("unknown prayer city: "@ + c.prayer.city@)
    } else if c.prayer.enabled && bad_minutes(c.prayer.notification_minutes@) is Some {
        Some("invalid notification_minutes: "@ + decimal(bad_minutes(c.prayer.notification_minutes@)->0 as nat))
    } else if c.prayer.adhan_volume > 100 {
        Some("adhan_volume must be 0–100, got "@ + decimal(c.prayer.adhan_volume as nat))
    } else if c.prayer.adhan_enabled && c.prayer.adhan_preset == AdhanPreset::Custom {
        match c.prayer.adhan_custom_path {
            Some(p) => if p@.len() == 0 {
                Some("adhan_custom_path required for custom preset"@)
            } else if !adhan_file_exists {
                Some("adhan file not found: "@ + path_debug_text(p@))
            } else if !audio_extension(p@) {
                Some("adhan_custom_path must be .ogg, .wav, .mp3, or .flac"@)
            } else {
                None
            },
            None => Some("adhan_custom_path required for custom preset"@),
        }
    } else {
        None
    }
}

fn invalid(msg: String) -> (r: Result<(), BolootError>)
    ensures
        r matches Err(e) && e matches BolootError::InvalidConfig(m) && m@ == msg@,
{
    Err(BolootError::InvalidConfig(msg))
}

fn check_color(name: &str, color: &String) -> (r: Result<(), BolootError>)
    ensures
        valid_hex(color@) ==> r is Ok,
        !valid_hex(color@) ==> (r matches Err(e) && e matches BolootError::InvalidConfig(m) && m@ == "invalid "@ + name@ + ": "@ + color@),
{
    if is_valid_hex(color.as_str()) {
        Ok(())
    } else {
        let mut s = concat2("invalid ", name);
        s.append(": ");
        s.append(color.as_str());
        proof {
            reveal_strlit(": ");
            reveal_strlit("invalid ");
        }
        assert(s@ =~= "invalid "@ + name@ + ": "@ + color@);
        invalid(s)
    }
}

fn first_bad_minutes(ms: &Vec<u32>) -> (r: Option<u32>)
    ensures
        r == bad_minutes(ms@),
{
    let mut i: usize = 0;
    assert(ms@.skip(0) =~= ms@);
    while i < ms.len()
        invariant
            i <= ms@.len(),
            bad_minutes(ms@) == bad_minutes(ms@.skip(i as int)),
        decreases ms.len() - i,
    {
        proof {
            assert(ms@.skip(i as int)[0] == ms@[i as int]);
            assert(ms@.skip(i as int).drop_first() =~= ms@.skip(i + 1));
        }
        if ms[i] == 0 || ms[i] > 24 * 60 {
            return Some(ms[i]);
        }
        i = i + 1;
    }
    assert(ms@.skip(i as int).len() == 0);
    None
}

fn with_number(prefix: &str, n: u64) -> (r: String)
    ensures
        r@ == prefix@ + decimal(n as nat),
{
    let d = u64_to_string(n);
    concat2(prefix, d.as_str())
}

impl BolootConfig {
    /// Checks the settings, in order: timezone, font size, colors, font
    /// family, prayer city and reminder times (when prayers are on), adhan
    /// volume, and the custom adhan file. The first problem is the error.
    pub fn validate(&self, locations: &LocationStore, adhan_file_exists: bool) -> (r: Result<(), BolootError>)
        ensures
            match config_problem(*self, *locations, adhan_file_exists) {
                None => r is Ok,
                Some(msg) => r matches Err(e) && e matches BolootError::InvalidConfig(m) && m@ == msg,
            },
    {
        if !timezone_is_known(self.calendar.timezone.as_str()) {
            return invalid(concat2("invalid timezone: ", self.calendar.timezone.as_str()));
        }
        let size = self.appearance.font_size_pt;
        if !(8 <= size && size <= 24) {
            return invalid(with_number("font_size_pt must be 8–24, got ", size as u64));
        }
        match check_color("text_color", &self.appearance.text_color) {
            Ok(()) => {},
            Err(e) => {
                return Err(e);
            },
        }
        match check_color("background_color", &self.appearance.background_color) {
            Ok(()) => {},
            Err(e) => {
                return Err(e);
            },
        }
        match check_color("holiday_color", &self.appearance.holiday_color) {
            Ok(()) => {},
            Err(e) => {
                return Err(e);
            },
        }
        match check_color("today_color", &self.appearance.today_color) {
            Ok(()) => {},
            Err(e) => {
                return Err(e);
            },
        }
        match check_color("prayer_color", &self.appearance.prayer_color) {
            Ok(()) => {},
            Err(e) => {
                return Err(e);
            },
        }
        let font = self.appearance.font_family.as_str();
        if font.is_empty() || contains_char(font, '"') || contains_char(font, ';') || contains_char(font, '<')
            || contains_char(font, '>') {
            return invalid(owned("invalid font_family"));
        }
        if self.prayer.enabled {
            let has_coords = self.prayer.latitude_e6.is_some() && self.prayer.longitude_e6.is_some();
            if !has_coords && locations.get(self.prayer.city.as_str()).is_none() {
                return invalid(concat2("unknown prayer city: ", self.prayer.city.as_str()));
            }
            match first_bad_minutes(&self.prayer.notification_minutes) {
                Some(m) => {
                    return invalid(with_number("invalid notification_minutes: ", m as u64));
                },
                None => {},
            }
        }
        if self.prayer.adhan_volume > 100 {
            return invalid(with_number("adhan_volume must be 0–100, got ", self.prayer.adhan_volume as u64));
        }
        if self.prayer.adhan_enabled && self.prayer.adhan_preset == AdhanPreset::Custom {
            let path = match &self.prayer.adhan_custom_path {
                Some(p) => {
                    if p.as_str().is_empty() {
                        return invalid(owned("adhan_custom_path required for custom preset"));
                    }
                    p
                },
                None => {
                    return invalid(owned("adhan_custom_path required for custom preset"));
                },
            };
            if !adhan_file_exists {
                return invalid(concat2("adhan file not found: ", path_debug(path.as_str()).as_str()));
            }
            if !is_valid_audio_extension(path.as_str()) {
                return invalid(owned("adhan_custom_path must be .ogg, .wav, .mp3, or .flac"));
            }
        }
        Ok(())
    }
}

} // verus!
