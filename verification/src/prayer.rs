//! Prayer times: calculation settings, labels, the city catalogue, and the
//! decisions made on computed times (current and next prayer, top-bar text).
//!
//! The astronomical calculation itself works in floating point and is done
//! outside this library; here times are whole hours and minutes and instants
//! are nanoseconds since the Unix epoch.
use vstd::prelude::*;

use crate::config::{toggle_of, BolootConfig, PrayerDisplayMode};
use crate::countries::{chars_le, lemma_seq_le_total2, lemma_seq_le_trans, normalized_id, seq_le, CountryProfile, CountryRegistry};
use crate::error::BolootError;
use crate::format::{format_time, persian_digits, time_text, to_persian_digits, NumeralStyle};
use crate::gregorian::GregorianDate;
use crate::locale::LanguageVariant;
use crate::text::{
    chars_of, concat2, int_decimal, join, join_seq, lower_seq, owned, str_eq, string_from_chars,
    to_ascii_lowercase, views, i64_to_string,
};

verus! {

/// Astronomical calculation method.
#[derive(Debug, Clone, Copy, PartialEq, Eq, Structural, Default)]
pub enum PrayerCalculationMethod {
    #[default]
    Tehran,
    Mwl,
    Karachi,
    Isna,
    Egypt,
    MoonsightingCommittee,
    UmmAlQura,
    Turkey,
    Singapore,
    Dubai,
}

/// The method with the given `snake_case` name.
pub open spec fn method_named(s: Seq<char>) -> Option<PrayerCalculationMethod> {
    if s == "tehran"@ {
        Some(PrayerCalculationMethod::Tehran)
    } else if s == "mwl"@ {
        Some(PrayerCalculationMethod::Mwl)
    } else if s == "karachi"@ {
        Some(PrayerCalculationMethod::Karachi)
    } else if s == "isna"@ {
        Some(PrayerCalculationMethod::Isna)
    } else if s == "egypt"@ {
        Some(PrayerCalculationMethod::Egypt)
    } else if s == "moonsighting_committee"@ {
        Some(PrayerCalculationMethod::MoonsightingCommittee)
    } else if s == "umm_al_qura"@ {
        Some(PrayerCalculationMethod::UmmAlQura)
    } else if s == "turkey"@ {
        Some(PrayerCalculationMethod::Turkey)
    } else if s == "singapore"@ {
        Some(PrayerCalculationMethod::Singapore)
    } else if s == "dubai"@ {
        Some(PrayerCalculationMethod::Dubai)
    } else {
        None
    }
}

/// Juristic school (affects the Asr time).
#[derive(Debug, Clone, Copy, PartialEq, Eq, Structural, Default)]
pub enum PrayerMadhab {
    #[default]
    Jafari,
    Shafi,
    Hanafi,
}

pub open spec fn madhab_named(s: Seq<char>) -> Option<PrayerMadhab> {
    if s == "jafari"@ {
        Some(PrayerMadhab::Jafari)
    } else if s == "shafi"@ {
        Some(PrayerMadhab::Shafi)
    } else if s == "hanafi"@ {
        Some(PrayerMadhab::Hanafi)
    } else {
        None
    }
}

/// Identifier of the registry's default method of a country (`mwl` when unknown).
pub open spec fn country_method_id(registry: CountryRegistry, country: Seq<char>) -> Seq<char> {
    if registry.has_id(country) {
        registry.record_for(country).prayer_method@
    } else {
        "mwl"@
    }
}

/// Identifier of the registry's default madhab of a country (`jafari` when unknown).
pub open spec fn country_madhab_id(registry: CountryRegistry, country: Seq<char>) -> Seq<char> {
    if registry.has_id(country) {
        registry.record_for(country).prayer_madhab@
    } else {
        "jafari"@
    }
}

/// Lower-cases `s` in a new string.
fn lowercase(s: &str) -> (r: String)
    ensures
        r@ == lower_seq(s@),
{
    let v = chars_of(s);
    let l = to_ascii_lowercase(&v);
    string_from_chars(&l)
}

impl PrayerCalculationMethod {
    /// Parses a method name, ignoring ASCII case.
    pub fn from_str(s: &str) -> (r: Result<Self, BolootError>)
        ensures
            match method_named(lower_seq(s@)) {
                Some(m) => r matches Ok(x) && x == m,
                None => r matches Err(e) && e matches BolootError::InvalidConfig(msg) && msg@
                    == "unknown prayer method: "@ + s@,
            },
    {
        let l = lowercase(s);
        let t = l.as_str();
        if str_eq(t, "tehran") {
            Ok(PrayerCalculationMethod::Tehran)
        } else if str_eq(t, "mwl") {
            Ok(PrayerCalculationMethod::Mwl)
        } else if str_eq(t, "karachi") {
            Ok(PrayerCalculationMethod::Karachi)
        } else if str_eq(t, "isna") {
            Ok(PrayerCalculationMethod::Isna)
        } else if str_eq(t, "egypt") {
            Ok(PrayerCalculationMethod::Egypt)
        } else if str_eq(t, "moonsighting_committee") {
            Ok(PrayerCalculationMethod::MoonsightingCommittee)
        } else if str_eq(t, "umm_al_qura") {
            Ok(PrayerCalculationMethod::UmmAlQura)
        } else if str_eq(t, "turkey") {
            Ok(PrayerCalculationMethod::Turkey)
        } else if str_eq(t, "singapore") {
            Ok(PrayerCalculationMethod::Singapore)
        } else if str_eq(t, "dubai") {
            Ok(PrayerCalculationMethod::Dubai)
        } else {
            Err(BolootError::InvalidConfig(concat2("unknown prayer method: ", s)))
        }
    }

    /// The registry's default method of a country; MWL when its name is unknown.
    pub fn for_country(country: &CountryProfile, registry: &CountryRegistry) -> (m: Self)
        requires
            registry.wf(),
        ensures
            m == (match method_named(lower_seq(country_method_id(*registry, country@))) {
                Some(x) => x,
                None => PrayerCalculationMethod::Mwl,
            }),
    {
        match Self::from_str(country.prayer_method_id(registry)) {
            Ok(m) => m,
            Err(_) => PrayerCalculationMethod::Mwl,
        }
    }

    /// A sensible method for a city: the Moonsighting Committee method at
    /// high latitudes in North America and Europe, else the country's
    /// registered method, else a per-country choice.
    pub fn suggested_for_city(city: &CityLocation, registry: &CountryRegistry) -> (m: Self)
        requires
            registry.wf(),
        ensures
            m == suggested_method(*city, *registry),
    {
        let high = city.latitude_e6 > 55_000_000 || city.latitude_e6 < -55_000_000;
        let country = city.country.as_str();
        if high {
            if str_eq(country, "usa") || str_eq(country, "canada") {
                return PrayerCalculationMethod::MoonsightingCommittee;
            }
            match &city.region {
                Some(r) => {
                    if str_eq(r.as_str(), "europe") {
                        return PrayerCalculationMethod::MoonsightingCommittee;
                    }
                },
                None => {},
            }
        }
        let profile = CountryProfile::new(country);
        match Self::from_str(profile.prayer_method_id(registry)) {
            Ok(m) => m,
            Err(_) => {
                if str_eq(country, "iran") {
                    PrayerCalculationMethod::Tehran
                } else if str_eq(country, "afghanistan") || str_eq(country, "pakistan") {
                    PrayerCalculationMethod::Karachi
                } else if str_eq(country, "tajikistan") {
                    PrayerCalculationMethod::Mwl
                } else if str_eq(country, "usa") || str_eq(country, "canada") {
                    PrayerCalculationMethod::Isna
                } else if str_eq(country, "saudi_arabia") {
                    PrayerCalculationMethod::UmmAlQura
                } else if str_eq(country, "uae") {
                    PrayerCalculationMethod::Dubai
                } else if str_eq(country, "qatar") || str_eq(country, "kuwait") || str_eq(
                    country,
                    "bahrain",
                ) {
                    PrayerCalculationMethod::UmmAlQura
                } else if str_eq(country, "turkey") {
                    PrayerCalculationMethod::Turkey
                } else if str_eq(country, "malaysia") || str_eq(country, "indonesia") {
                    PrayerCalculationMethod::Singapore
                } else if high {
                    PrayerCalculationMethod::MoonsightingCommittee
                } else {
                    PrayerCalculationMethod::Mwl
                }
            },
        }
    }
}

/// Latitude beyond 55 degrees north or south.
pub open spec fn high_latitude(lat_e6: i64) -> bool {
    lat_e6 > 55_000_000 || lat_e6 < -55_000_000
}

/// Method chosen when the registry names none: by country, else by latitude.
pub open spec fn fallback_method(country: Seq<char>, lat_e6: i64) -> PrayerCalculationMethod {
    if country == "iran"@ {
        PrayerCalculationMethod::Tehran
    } else if country == "afghanistan"@ || country == "pakistan"@ {
        PrayerCalculationMethod::Karachi
    } else if country == "tajikistan"@ {
        PrayerCalculationMethod::Mwl
    } else if country == "usa"@ || country == "canada"@ {
        PrayerCalculationMethod::Isna
    } else if country == "saudi_arabia"@ {
        PrayerCalculationMethod::UmmAlQura
    } else if country == "uae"@ {
        PrayerCalculationMethod::Dubai
    } else if country == "qatar"@ || country == "kuwait"@ || country == "bahrain"@ {
        PrayerCalculationMethod::UmmAlQura
    } else if country == "turkey"@ {
        PrayerCalculationMethod::Turkey
    } else if country == "malaysia"@ || country == "indonesia"@ {
        PrayerCalculationMethod::Singapore
    } else if high_latitude(lat_e6) {
        PrayerCalculationMethod::MoonsightingCommittee
    } else {
        PrayerCalculationMethod::Mwl
    }
}

pub open spec fn suggested_method(city: CityLocation, registry: CountryRegistry) -> PrayerCalculationMethod {
    let country = city.country@;
    if high_latitude(city.latitude_e6) && (country == "usa"@ || country == "canada"@) {
        PrayerCalculationMethod::MoonsightingCommittee
    } else if high_latitude(city.latitude_e6) && (city.region matches Some(r) && r@ == "europe"@) {
        PrayerCalculationMethod::MoonsightingCommittee
    } else {
        match method_named(lower_seq(country_method_id(registry, normalized_id(country)))) {
            Some(m) => m,
            None => fallback_method(country, city.latitude_e6),
        }
    }
}

impl PrayerMadhab {
    /// Parses a madhab name, ignoring ASCII case.
    pub fn from_str(s: &str) -> (r: Result<Self, BolootError>)
        ensures
            match madhab_named(lower_seq(s@)) {
                Some(m) => r matches Ok(x) && x == m,
                None => r matches Err(e) && e matches BolootError::InvalidConfig(msg) && msg@
                    == "unknown prayer madhab: "@ + s@,
            },
    {
        let l = lowercase(s);
        let t = l.as_str();
        if str_eq(t, "jafari") {
            Ok(PrayerMadhab::Jafari)
        } else if str_eq(t, "shafi") {
            Ok(PrayerMadhab::Shafi)
        } else if str_eq(t, "hanafi") {
            Ok(PrayerMadhab::Hanafi)
        } else {
            Err(BolootError::InvalidConfig(concat2("unknown prayer madhab: ", s)))
        }
    }

    /// The registry's default madhab of a country; Jafari when its name is unknown.
    pub fn for_country(country: &CountryProfile, registry: &CountryRegistry) -> (m: Self)
        requires
            registry.wf(),
        ensures
            m == (match madhab_named(lower_seq(country_madhab_id(*registry, country@))) {
                Some(x) => x,
                None => PrayerMadhab::Jafari,
            }),
    {
        match Self::from_str(country.prayer_madhab_id(registry)) {
            Ok(m) => m,
            Err(_) => PrayerMadhab::Jafari,
        }
    }
}

/// The five daily prayers and sunrise.
#[derive(Debug, Clone, Copy, PartialEq, Eq, Structural)]
pub enum PrayerName {
    Fajr,
    Sunrise,
    Dhuhr,
    Asr,
    Maghrib,
    Isha,
}

pub open spec fn label_en(p: PrayerName) -> Seq<char> {
    match p {
        PrayerName::Fajr => "Fajr"@,
        PrayerName::Sunrise => "Sunrise"@,
        PrayerName::Dhuhr => "Dhuhr"@,
        PrayerName::Asr => "Asr"@,
        PrayerName::Maghrib => "Maghrib"@,
        PrayerName::Isha => "Isha"@,
    }
}

pub open spec fn label_fa(p: PrayerName) -> Seq<char> {
    match p {
        PrayerName::Fajr => "فجر"@,
        PrayerName::Sunrise => "طلوع"@,
        PrayerName::Dhuhr => "ظهر"@,
        PrayerName::Asr => "عصر"@,
        PrayerName::Maghrib => "مغرب"@,
        PrayerName::Isha => "عشا"@,
    }
}

pub open spec fn label_ps(p: PrayerName) -> Seq<char> {
    match p {
        PrayerName::Fajr => "فجر"@,
        PrayerName::Sunrise => "لمر ختلو"@,
        PrayerName::Dhuhr => "غرمه"@,
        PrayerName::Asr => "مازدیګر"@,
        PrayerName::Maghrib => "ماښام"@,
        PrayerName::Isha => "ماسختنه"@,
    }
}

pub open spec fn label_tg(p: PrayerName) -> Seq<char> {
    match p {
        PrayerName::Fajr => "Бомдод"@,
        PrayerName::Sunrise => "Офтоб"@,
        PrayerName::Dhuhr => "Пешин"@,
        PrayerName::Asr => "Аср"@,
        PrayerName::Maghrib => "Шом"@,
        PrayerName::Isha => "Хуфтан"@,
    }
}

/// Label of a prayer in a language (Dari uses the Persian labels).
pub open spec fn prayer_label(p: PrayerName, language: LanguageVariant) -> Seq<char> {
    match language {
        LanguageVariant::English => label_en(p),
        LanguageVariant::Tajik => label_tg(p),
        LanguageVariant::Pashto => label_ps(p),
        LanguageVariant::Dari | LanguageVariant::Persian => label_fa(p),
    }
}

impl PrayerName {
    pub fn label(self, language: LanguageVariant) -> (s: &'static str)
        ensures
            s@ == prayer_label(self, language),
    {
        match language {
            LanguageVariant::English => self.label_en(),
            LanguageVariant::Tajik => self.label_tg(),
            LanguageVariant::Pashto => self.label_ps(),
            LanguageVariant::Dari | LanguageVariant::Persian => self.label_fa(),
        }
    }

    fn label_en(self) -> (s: &'static str)
        ensures
            s@ == label_en(self),
    {
        match self {
            PrayerName::Fajr => "Fajr",
            PrayerName::Sunrise => "Sunrise",
            PrayerName::Dhuhr => "Dhuhr",
            PrayerName::Asr => "Asr",
            PrayerName::Maghrib => "Maghrib",
            PrayerName::Isha => "Isha",
        }
    }

    pub fn label_fa(self) -> (s: &'static str)
        ensures
            s@ == label_fa(self),
    {
        match self {
            PrayerName::Fajr => "فجر",
            PrayerName::Sunrise => "طلوع",
            PrayerName::Dhuhr => "ظهر",
            PrayerName::Asr => "عصر",
            PrayerName::Maghrib => "مغرب",
            PrayerName::Isha => "عشا",
        }
    }

    fn label_ps(self) -> (s: &'static str)
        ensures
            s@ == label_ps(self),
    {
        match self {
            PrayerName::Fajr => "فجر",
            PrayerName::Sunrise => "لمر ختلو",
            PrayerName::Dhuhr => "غرمه",
            PrayerName::Asr => "مازدیګر",
            PrayerName::Maghrib => "ماښام",
            PrayerName::Isha => "ماسختنه",
        }
    }

    fn label_tg(self) -> (s: &'static str)
        ensures
            s@ == label_tg(self),
    {
        match self {
            PrayerName::Fajr => "Бомдод",
            PrayerName::Sunrise => "Офтоб",
            PrayerName::Dhuhr => "Пешин",
            PrayerName::Asr => "Аср",
            PrayerName::Maghrib => "Шом",
            PrayerName::Isha => "Хуфтан",
        }
    }
}

/// A city of the prayer-location catalogue; coordinates in millionths of a degree.
#[derive(Debug)]
pub struct CityLocation {
    pub id: String,
    pub name: String,
    pub name_fa: String,
    pub latitude_e6: i64,
    pub longitude_e6: i64,
    pub timezone: String,
    pub country: String,
    pub region: Option<String>,
}

impl CityLocation {
    pub fn matches_calendar_country(&self, country: &CountryProfile) -> (r: bool)
        ensures
            r == (self.country@ == country@),
    {
        str_eq(self.country.as_str(), country.as_str())
    }
}


/// One computed prayer time, as local wall-clock time.
#[derive(Debug)]
pub struct PrayerTimeEntry {
    pub name: PrayerName,
    pub label: String,
    pub time: String,
    pub hour: u32,
    pub minute: u32,
}

/// The prayer times of one day at one place.
#[derive(Debug)]
pub struct PrayerTimes {
    pub date: GregorianDate,
    pub timezone: String,
    pub city: String,
    pub entries: Vec<PrayerTimeEntry>,
}

/// The next prayer and how long until it.
#[derive(Debug)]
pub struct NextPrayer {
    pub name: PrayerName,
    pub label: String,
    pub time: String,
    pub remaining_seconds: i64,
}

/// A day's times with the current and next prayer.
#[derive(Debug)]
pub struct PrayerDayStatus {
    pub times: PrayerTimes,
    pub next: Option<NextPrayer>,
    pub current: Option<PrayerName>,
}

/// Order of the entries of a day: Fajr, Sunrise, Dhuhr, Asr, Maghrib, Isha.
pub open spec fn prayer_at(i: int) -> PrayerName {
    if i == 0 {
        PrayerName::Fajr
    } else if i == 1 {
        PrayerName::Sunrise
    } else if i == 2 {
        PrayerName::Dhuhr
    } else if i == 3 {
        PrayerName::Asr
    } else if i == 4 {
        PrayerName::Maghrib
    } else {
        PrayerName::Isha
    }
}

/// Prayers whose times decide the current and next prayer (sunrise is not one).
pub open spec fn tracked_at(j: int) -> PrayerName {
    if j == 0 {
        PrayerName::Fajr
    } else if j == 1 {
        PrayerName::Dhuhr
    } else if j == 2 {
        PrayerName::Asr
    } else if j == 3 {
        PrayerName::Maghrib
    } else {
        PrayerName::Isha
    }
}

fn prayer_at_exec(i: usize) -> (p: PrayerName)
    ensures
        p == prayer_at(i as int),
{
    if i == 0 {
        PrayerName::Fajr
    } else if i == 1 {
        PrayerName::Sunrise
    } else if i == 2 {
        PrayerName::Dhuhr
    } else if i == 3 {
        PrayerName::Asr
    } else if i == 4 {
        PrayerName::Maghrib
    } else {
        PrayerName::Isha
    }
}

fn tracked_at_exec(j: usize) -> (p: PrayerName)
    ensures
        p == tracked_at(j as int),
{
    if j == 0 {
        PrayerName::Fajr
    } else if j == 1 {
        PrayerName::Dhuhr
    } else if j == 2 {
        PrayerName::Asr
    } else if j == 3 {
        PrayerName::Maghrib
    } else {
        PrayerName::Isha
    }
}

/// The entries of a day from the local (hour, minute) of each prayer, in
/// the order of [`prayer_at`].
pub fn entries_from_times(times: &Vec<(u32, u32)>, numerals: NumeralStyle, language: LanguageVariant) -> (r: Vec<PrayerTimeEntry>)
    requires
        times@.len() == 6,
    ensures
        r@.len() == 6,
        forall|i: int|
            0 <= i < 6 ==> {
                &&& (#[trigger] r@[i]).name == prayer_at(i)
                &&& r@[i].label@ == prayer_label(prayer_at(i), language)
                &&& r@[i].hour == times@[i].0
                &&& r@[i].minute == times@[i].1
                &&& r@[i].time@ == time_text(times@[i].0 as nat, times@[i].1 as nat, numerals)
            },
{
    let mut out: Vec<PrayerTimeEntry> = Vec::new();
    let mut i: usize = 0;
    while i < 6
        invariant
            times@.len() == 6,
            i <= 6,
            out@.len() == i,
            forall|k: int|
                0 <= k < i ==> {
                    &&& (#[trigger] out@[k]).name == prayer_at(k)
                    &&& out@[k].label@ == prayer_label(prayer_at(k), language)
                    &&& out@[k].hour == times@[k].0
                    &&& out@[k].minute == times@[k].1
                    &&& out@[k].time@ == time_text(times@[k].0 as nat, times@[k].1 as nat, numerals)
                },
        decreases 6 - i,
    {
        let name = prayer_at_exec(i);
        let (hour, minute) = times[i];
        out.push(PrayerTimeEntry {
            label: owned(name.label(language)),
            name,
            time: format_time(hour, minute, numerals),
            hour,
            minute,
        });
        i = i + 1;
    }
    out
}

/// Index of the first entry for prayer `name`.
pub open spec fn first_index(entries: Seq<PrayerTimeEntry>, name: PrayerName) -> Option<int>
    decreases entries.len(),
{
    if entries.len() == 0 {
        None
    } else {
        match first_index(entries.drop_last(), name) {
            Some(i) => Some(i),
            None => if entries.last().name == name {
                Some(entries.len() - 1)
            } else {
                None
            },
        }
    }
}

/// Walks the tracked prayers from the `j`-th: the first whose instant is
/// after `now` is next; each one passed becomes current. Returns the current
/// prayer and the index of the next entry.
pub open spec fn scan_prayers(
    entries: Seq<PrayerTimeEntry>,
    instants: Seq<Option<i64>>,
    now: int,
    j: int,
    current: Option<PrayerName>,
) -> (Option<PrayerName>, Option<int>)
    decreases 5 - j,
{
    if j >= 5 {
        (current, None)
    } else {
        match first_index(entries, tracked_at(j)) {
            None => scan_prayers(entries, instants, now, j + 1, current),
            Some(i) => match instants[i] {
                None => scan_prayers(entries, instants, now, j + 1, current),
                Some(t) => if t > now {
                    (current, Some(i))
                } else {
                    scan_prayers(entries, instants, now, j + 1, Some(tracked_at(j)))
                },
            },
        }
    }
}

/// Whole seconds in a span of nanoseconds, rounded toward zero.
pub open spec fn whole_seconds(nanos: int) -> int {
    if nanos >= 0 {
        nanos / 1_000_000_000
    } else {
        -((-nanos) / 1_000_000_000)
    }
}

fn first_index_exec(entries: &Vec<PrayerTimeEntry>, name: PrayerName) -> (r: Option<usize>)
    ensures
        match first_index(entries@, name) {
            Some(i) => r matches Some(k) && k == i,
            None => r is None,
        },
        r matches Some(k) ==> k < entries@.len() && entries@[k as int].name == name,
{
    let mut i: usize = 0;
    while i < entries.len()
        invariant
            i <= entries@.len(),
            first_index(entries@.take(i as int), name) is None,
        decreases entries.len() - i,
    {
        proof {
            assert(entries@.take(i + 1).drop_last() =~= entries@.take(i as int));
        }
        if entries[i].name == name {
            proof {
                lemma_first_index_prefix(entries@, (i + 1) as int, name);
            }
            return Some(i);
        }
        i = i + 1;
    }
    assert(entries@.take(entries@.len() as int) =~= entries@);
    None
}

proof fn lemma_first_index_prefix(entries: Seq<PrayerTimeEntry>, n: int, name: PrayerName)
    requires
        0 < n <= entries.len(),
        first_index(entries.take(n), name) == Some(n - 1),
    ensures
        first_index(entries, name) == Some(n - 1),
    decreases entries.len() - n,
{
    if n < entries.len() {
        assert(entries.drop_last().take(n) =~= entries.take(n));
        lemma_first_index_prefix(entries.drop_last(), n, name);
    } else {
        assert(entries.take(n) =~= entries);
    }
}

/// The current prayer and the next one at instant `now`, from each entry's
/// instant (`None` where it could not be placed) and tomorrow's Fajr.
/// Instants are nanoseconds since the Unix epoch.
pub fn resolve_current_and_next(
    entries: &Vec<PrayerTimeEntry>,
    instants: &Vec<Option<i64>>,
    now: i64,
    fajr_tomorrow: i64,
    fajr_tomorrow_local: (u32, u32),
    numerals: NumeralStyle,
    language: LanguageVariant,
) -> (r: (Option<PrayerName>, Option<NextPrayer>))
    requires
        instants@.len() == entries@.len(),
    ensures
        ({
            let (cur, nx) = scan_prayers(entries@, instants@, now as int, 0, None);
            match nx {
                Some(i) => {
                    &&& r.0 == cur
                    &&& r.1 matches Some(n) && n.name == entries@[i].name && n.label@
                        == entries@[i].label@ && n.time@ == entries@[i].time@ && (
                    instants@[i] matches Some(t) && n.remaining_seconds == whole_seconds(t - now))
                },
                None => if whole_seconds(fajr_tomorrow - now) > 0 {
                    &&& r.0 == (if cur is Some {
                        cur
                    } else {
                        Some(PrayerName::Isha)
                    })
                    &&& r.1 matches Some(n) && n.name == PrayerName::Fajr && n.label@
                        == prayer_label(PrayerName::Fajr, language) && n.time@ == time_text(
                        fajr_tomorrow_local.0 as nat,
                        fajr_tomorrow_local.1 as nat,
                        numerals,
                    ) && n.remaining_seconds == whole_seconds(fajr_tomorrow - now)
                } else {
                    r.0 == cur && r.1 is None
                },
            }
        }),
{
    let mut current: Option<PrayerName> = None;
    let mut j: usize = 0;
    while j < 5
        invariant
            instants@.len() == entries@.len(),
            j <= 5,
            scan_prayers(entries@, instants@, now as int, 0, None) == scan_prayers(
                entries@,
                instants@,
                now as int,
                j as int,
                current,
            ),
        decreases 5 - j,
    {
        let name = tracked_at_exec(j);
        match first_index_exec(entries, name) {
            None => {},
            Some(i) => {
                match instants[i] {
                    None => {},
                    Some(t) => {
                        if t > now {
                            let d: i128 = t as i128 - now as i128;
                            let du: u128 = d as u128;
                            let secs: u128 = du / 1_000_000_000;
                            assert(secs < 0x7fff_ffff_ffff_ffff);
                            let entry = &entries[i];
                            return (
                                current,
                                Some(
                                    NextPrayer {
                                        name,
                                        label: entry.label.clone(),
                                        time: entry.time.clone(),
                                        remaining_seconds: secs as i64,
                                    },
                                ),
                            );
                        }
                        current = Some(name);
                    },
                }
            },
        }
        j = j + 1;
    }
    let d: i128 = fajr_tomorrow as i128 - now as i128;
    if d >= 1_000_000_000 {
        let du: u128 = d as u128;
        let secs: u128 = du / 1_000_000_000;
        assert(secs < 0x7fff_ffff_ffff_ffff);
        let cur = match current {
            Some(c) => Some(c),
            None => Some(PrayerName::Isha),
        };
        return (
            cur,
            Some(
                NextPrayer {
                    name: PrayerName::Fajr,
                    label: owned(PrayerName::Fajr.label(language)),
                    time: format_time(fajr_tomorrow_local.0, fajr_tomorrow_local.1, numerals),
                    remaining_seconds: secs as i64,
                },
            ),
        );
    }
    proof {
        if d < 0 {
            assert(whole_seconds(d as int) <= 0) by (nonlinear_arith)
                requires
                    d < 0,
            ;
        }
    }
    (current, None)
}


/// The catalogue of prayer cities, keyed by city id.
pub struct LocationStore {
    cities: Vec<CityLocation>,
}

impl LocationStore {
    pub closed spec fn wf(&self) -> bool {
        forall|a: int, b: int|
            0 <= a < b < self.cities@.len() ==> #[trigger] self.cities@[a].id@
                != #[trigger] self.cities@[b].id@
    }

    /// The cities, in catalogue order.
    pub closed spec fn spec_cities(&self) -> Seq<CityLocation> {
        self.cities@
    }

    /// The catalogue has a city with id `id`.
    pub open spec fn has(&self, id: Seq<char>) -> bool {
        exists|i: int| 0 <= i < self.spec_cities().len() && #[trigger] self.spec_cities()[i].id@ == id
    }

    /// Number of cities.
    pub fn len(&self) -> (n: usize)
        ensures
            n == self.spec_cities().len(),
    {
        self.cities.len()
    }

    /// An empty catalogue.
    pub fn new() -> (s: Self)
        ensures
            s.wf(),
            s.spec_cities().len() == 0,
    {
        LocationStore { cities: Vec::new() }
    }

    /// Adds a city, replacing the one with the same id.
    pub fn insert(&mut self, city: CityLocation)
        requires
            old(self).wf(),
        ensures
            final(self).wf(),
            final(self).has(city.id@),
            forall|i: int| 0 <= i < final(self).spec_cities().len() && #[trigger] final(self).spec_cities()[i].id@ == city.id@ ==> final(self).spec_cities()[i] == city,
            forall|id: Seq<char>| id != city.id@ ==> (#[trigger] final(self).has(id) <==> old(self).has(id)),
            forall|i: int| 0 <= i < old(self).spec_cities().len() && #[trigger] old(self).spec_cities()[i].id@ != city.id@ ==> final(self).spec_cities().contains(old(self).spec_cities()[i]),
    {
        let ghost before = self.cities@;
        let ghost id = city.id@;
        let mut i: usize = 0;
        while i < self.cities.len()
            invariant
                self.cities@ == before,
                before == old(self).cities@,
                old(self).wf(),
                id == city.id@,
                i <= before.len(),
                forall|j: int| 0 <= j < i ==> #[trigger] before[j].id@ != id,
            decreases self.cities.len() - i,
        {
            if str_eq(self.cities[i].id.as_str(), city.id.as_str()) {
                self.cities.set(i, city);
                proof {
                    assert forall|a: int, b: int|
                        0 <= a < b < self.cities@.len() implies #[trigger] self.cities@[a].id@
                        != #[trigger] self.cities@[b].id@ by {
                        if a == i as int {
                            assert(before[a].id@ == id);
                            assert(before[a].id@ != before[b].id@);
                        } else if b == i as int {
                            assert(before[a].id@ != before[b].id@);
                        } else {
                            assert(before[a].id@ != before[b].id@);
                        }
                    }
                    assert(self.cities@[i as int].id@ == id);
                    assert forall|k: int| 0 <= k < self.cities@.len() && #[trigger] self.cities@[k].id@ == id implies self.cities@[k] == city by {
                        if k != i as int {
                            if k < i as int {
                                assert(before[k].id@ != id);
                            } else {
                                assert(before[i as int].id@ != before[k].id@);
                            }
                        }
                    }
                    assert forall|other: Seq<char>| other != id implies (#[trigger] self.has(other) <==> old(self).has(other)) by {
                        if old(self).has(other) {
                            let k = choose|k: int| 0 <= k < before.len() && #[trigger] before[k].id@ == other;
                            assert(self.cities@[k] == before[k]);
                        }
                        if self.has(other) {
                            let k = choose|k: int| 0 <= k < self.cities@.len() && #[trigger] self.cities@[k].id@ == other;
                            assert(self.cities@[k] == before[k]);
                        }
                    }
                    assert forall|k: int| 0 <= k < before.len() && #[trigger] before[k].id@ != id implies self.cities@.contains(before[k]) by {
                        assert(self.cities@[k] == before[k]);
                    }
                }
                return;
            }
            i = i + 1;
        }
        self.cities.push(city);
        proof {
            let n = before.len() as int;
            assert forall|a: int, b: int|
                0 <= a < b < self.cities@.len() implies #[trigger] self.cities@[a].id@
                != #[trigger] self.cities@[b].id@ by {
                if b == n {
                    assert(before[a].id@ != id);
                } else {
                    assert(before[a].id@ != before[b].id@);
                }
            }
            assert(self.cities@[n].id@ == id);
            assert forall|k: int| 0 <= k < self.cities@.len() && #[trigger] self.cities@[k].id@ == id implies self.cities@[k] == city by {
                if k < n {
                    assert(before[k].id@ != id);
                }
            }
            assert forall|other: Seq<char>| other != id implies (#[trigger] self.has(other) <==> old(self).has(other)) by {
                if old(self).has(other) {
                    let k = choose|k: int| 0 <= k < before.len() && #[trigger] before[k].id@ == other;
                    assert(self.cities@[k] == before[k]);
                }
                if self.has(other) {
                    let k = choose|k: int| 0 <= k < self.cities@.len() && #[trigger] self.cities@[k].id@ == other;
                    assert(self.cities@[k] == before[k]);
                }
            }
            assert forall|k: int| 0 <= k < before.len() && #[trigger] before[k].id@ != id implies self.cities@.contains(before[k]) by {
                assert(self.cities@[k] == before[k]);
            }
        }
    }

    /// The city with id `id`.
    pub fn get(&self, id: &str) -> (r: Option<&CityLocation>)
        ensures
            r is Some <==> self.has(id@),
            r matches Some(c) ==> c.id@ == id@ && self.spec_cities().contains(*c),
    {
        let mut i: usize = 0;
        while i < self.cities.len()
            invariant
                i <= self.cities@.len(),
                forall|j: int| 0 <= j < i ==> #[trigger] self.cities@[j].id@ != id@,
            decreases self.cities.len() - i,
        {
            if str_eq(self.cities[i].id.as_str(), id) {
                assert(self.spec_cities()[i as int].id@ == id@);
                return Some(&self.cities[i]);
            }
            i = i + 1;
        }
        proof {
            if self.has(id@) {
                let k = choose|k: int| 0 <= k < self.spec_cities().len() && #[trigger] self.spec_cities()[k].id@ == id@;
                assert(self.cities@[k].id@ == id@);
            }
        }
        None
    }

    /// The catalogue used when no location data can be read: Tehran alone.
    pub fn with_fallback() -> (s: Self)
        ensures
            s.wf(),
            s.spec_cities().len() == 1,
            s.spec_cities()[0].id@ == "tehran"@,
            s.spec_cities()[0].name@ == "Tehran"@,
            s.spec_cities()[0].name_fa@ == "تهران"@,
            s.spec_cities()[0].latitude_e6 == 35689200,
            s.spec_cities()[0].longitude_e6 == 51389000,
            s.spec_cities()[0].timezone@ == "Asia/Tehran"@,
            s.spec_cities()[0].country@ == "iran"@,
            s.spec_cities()[0].region is None,
    {
        let mut cities: Vec<CityLocation> = Vec::new();
        cities.push(tehran_fallback_city());
        LocationStore { cities }
    }

    /// The cities ordered by Persian name (code point order).
    pub fn all(&self) -> (r: Vec<&CityLocation>)
        ensures
            name_sorted(deref_cities(r@)),
            deref_cities(r@).to_multiset() == self.spec_cities().to_multiset(),
    {
        let mut out: Vec<&CityLocation> = Vec::new();
        let mut i: usize = 0;
        assert(deref_cities(out@) =~= Seq::<CityLocation>::empty());
        assert(self.cities@.subrange(0, 0) =~= Seq::<CityLocation>::empty());
        while i < self.cities.len()
            invariant
                i <= self.cities.len(),
                out@.len() == i,
                forall|a: int, b: int|
                    0 <= a < b < out@.len() ==> seq_le(out@[a].name_fa@, out@[b].name_fa@),
                deref_cities(out@).to_multiset() == self.cities@.subrange(0, i as int).to_multiset(),
            decreases self.cities.len() - i,
        {
            let item = &self.cities[i];
            let name = chars_of(item.name_fa.as_str());
            let mut pos: usize = out.len();
            while pos > 0 && !chars_le(&chars_of(out[pos - 1].name_fa.as_str()), &name)
                invariant
                    pos <= out@.len(),
                    name@ == item.name_fa@,
                    forall|k: int| pos <= k < out@.len() ==> !seq_le(#[trigger] out@[k].name_fa@, name@),
                decreases pos,
            {
                pos = pos - 1;
            }
            let ghost before = out@;
            out.insert(pos, item);
            proof {
                assert forall|a: int, b: int|
                    0 <= a < b < out@.len() implies seq_le(out@[a].name_fa@, out@[b].name_fa@) by {
                    lemma_insert_by_name(before, pos as int, item, a, b);
                }
                assert(deref_cities(out@) =~= deref_cities(before).insert(pos as int, *item));
                vstd::seq_lib::to_multiset_insert(deref_cities(before), pos as int, *item);
                assert(self.cities@.subrange(0, i + 1) =~= self.cities@.subrange(0, i as int).push(*item));
                vstd::seq_lib::to_multiset_build(self.cities@.subrange(0, i as int), *item);
            }
            i = i + 1;
        }
        proof {
            assert(self.cities@.subrange(0, self.cities@.len() as int) =~= self.cities@);
            assert forall|a: int, b: int| 0 <= a < b < deref_cities(out@).len() implies seq_le(
                deref_cities(out@)[a].name_fa@,
                deref_cities(out@)[b].name_fa@,
            ) by {
                assert(deref_cities(out@)[a] == *out@[a] && deref_cities(out@)[b] == *out@[b]);
            }
        }
        out
    }

    /// Coordinates of the other catalogue cities in the timezone of city
    /// `city_id`, ordered by Persian name (none for an unknown city).
    pub fn same_timezone_coords(&self, city_id: &str) -> (r: Vec<(i64, i64)>)
        requires
            self.wf(),
        ensures
            !self.has(city_id@) ==> r@.len() == 0,
            self.has(city_id@) ==> coords_in_name_order(r@, self.spec_cities(), city_id@, self.city_timezone(city_id@)),
    {
        let city = match self.get(city_id) {
            Some(c) => c,
            None => {
                return Vec::new();
            },
        };
        let ghost tz = city.timezone@;
        proof {
            let k = choose|k: int| 0 <= k < self.spec_cities().len() && self.spec_cities()[k] == *city;
            assert(self.spec_cities()[k].id@ == city_id@);
            lemma_city_timezone(self, city_id@, k);
        }
        let all = self.all();
        let ghost cs = deref_cities(all@);
        let mut out: Vec<(i64, i64)> = Vec::new();
        let mut i: usize = 0;
        assert(cs.take(0) =~= Seq::<CityLocation>::empty());
        while i < all.len()
            invariant
                i <= all@.len(),
                cs == deref_cities(all@),
                tz == city.timezone@,
                out@ == same_timezone_coords_spec(cs.take(i as int), city_id@, tz),
            decreases all.len() - i,
        {
            let c = all[i];
            proof {
                assert(cs.take(i + 1).drop_last() =~= cs.take(i as int));
                assert(cs.take(i + 1).last() == *c);
            }
            if !str_eq(c.id.as_str(), city_id) && str_eq(c.timezone.as_str(), city.timezone.as_str()) {
                out.push((c.latitude_e6, c.longitude_e6));
            }
            i = i + 1;
        }
        proof {
            assert(cs.take(cs.len() as int) =~= cs);
            assert(name_sorted(cs));
        }
        out
    }

    /// Timezone of city `id` in the catalogue.
    pub closed spec fn city_timezone(&self, id: Seq<char>) -> Seq<char> {
        self.cities@[choose|k: int| 0 <= k < self.cities@.len() && #[trigger] self.cities@[k].id@ == id].timezone@
    }
}

proof fn lemma_city_timezone(s: &LocationStore, id: Seq<char>, k: int)
    requires
        s.wf(),
        0 <= k < s.spec_cities().len(),
        s.spec_cities()[k].id@ == id,
    ensures
        s.city_timezone(id) == s.spec_cities()[k].timezone@,
{
    let j = choose|j: int| 0 <= j < s.cities@.len() && #[trigger] s.cities@[j].id@ == id;
    assert(s.cities@[k].id@ == id);
    if j != k {
        if j < k {
            assert(s.cities@[j].id@ != s.cities@[k].id@);
        } else {
            assert(s.cities@[k].id@ != s.cities@[j].id@);
        }
    }
}

/// Coordinates of the cities other than `id` whose timezone is `tz`, in order.
/// The cities behind references.
pub open spec fn deref_cities(s: Seq<&CityLocation>) -> Seq<CityLocation> {
    s.map_values(|x: &CityLocation| *x)
}

/// Ordered by Persian name (code point order).
pub open spec fn name_sorted(cs: Seq<CityLocation>) -> bool {
    forall|i: int, j: int| 0 <= i < j < cs.len() ==> seq_le(cs[i].name_fa@, cs[j].name_fa@)
}

/// `r` holds the coordinates of the cities other than `id` in timezone `tz`,
/// taken from the catalogue `cities` ordered by Persian name.
pub open spec fn coords_in_name_order(r: Seq<(i64, i64)>, cities: Seq<CityLocation>, id: Seq<char>, tz: Seq<char>) -> bool {
    exists|cs: Seq<CityLocation>|
        #[trigger] name_sorted(cs) && cs.to_multiset() == cities.to_multiset() && r == same_timezone_coords_spec(cs, id, tz)
}

proof fn lemma_insert_by_name(before: Seq<&CityLocation>, pos: int, item: &CityLocation, a: int, b: int)
    requires
        0 <= pos <= before.len(),
        forall|x: int, y: int| 0 <= x < y < before.len() ==> seq_le(before[x].name_fa@, before[y].name_fa@),
        forall|k: int| pos <= k < before.len() ==> !seq_le(#[trigger] before[k].name_fa@, item.name_fa@),
        pos > 0 ==> seq_le(before[pos - 1].name_fa@, item.name_fa@),
        0 <= a < b < before.len() + 1,
    ensures
        seq_le(before.insert(pos, item)[a].name_fa@, before.insert(pos, item)[b].name_fa@),
{
    let out = before.insert(pos, item);
    let name = item.name_fa@;
    if b < pos {
        assert(out[a] == before[a] && out[b] == before[b]);
    } else if b == pos {
        assert(out[a] == before[a]);
        if a < pos - 1 {
            lemma_seq_le_trans(before[a].name_fa@, before[pos - 1].name_fa@, name);
        }
    } else if a < pos {
        assert(out[a] == before[a] && out[b] == before[b - 1]);
    } else if a == pos {
        assert(out[b] == before[b - 1]);
        lemma_seq_le_total2(before[b - 1].name_fa@, name);
    } else {
        assert(out[a] == before[a - 1] && out[b] == before[b - 1]);
    }
}

pub open spec fn same_timezone_coords_spec(cities: Seq<CityLocation>, id: Seq<char>, tz: Seq<char>) -> Seq<(i64, i64)>
    decreases cities.len(),
{
    if cities.len() == 0 {
        Seq::empty()
    } else {
        let rest = same_timezone_coords_spec(cities.drop_last(), id, tz);
        let c = cities.last();
        if c.id@ != id && c.timezone@ == tz {
            rest.push((c.latitude_e6, c.longitude_e6))
        } else {
            rest
        }
    }
}

fn tehran_fallback_city() -> (c: CityLocation)
    ensures
        c.id@ == "tehran"@,
        c.name@ == "Tehran"@,
        c.name_fa@ == "تهران"@,
        c.latitude_e6 == 35689200,
        c.longitude_e6 == 51389000,
        c.timezone@ == "Asia/Tehran"@,
        c.country@ == "iran"@,
        c.region is None,
{
    CityLocation {
        id: owned("tehran"),
        name: owned("Tehran"),
        name_fa: owned("تهران"),
        latitude_e6: 35689200,
        longitude_e6: 51389000,
        timezone: owned("Asia/Tehran"),
        country: owned("iran"),
        region: None,
    }
}

/// Where prayer times are computed: coordinates, timezone and a display name.
#[derive(Debug)]
pub struct ResolvedPrayerLocation {
    pub latitude_e6: i64,
    pub longitude_e6: i64,
    pub timezone: String,
    pub display_name: String,
}

/// `timezone`, or the city's own when it is empty.
pub open spec fn tz_or(timezone: Seq<char>, city_tz: Seq<char>) -> Seq<char> {
    if timezone.len() == 0 {
        city_tz
    } else {
        timezone
    }
}

/// Resolves where to compute: explicit coordinates (named after the catalogue
/// city when it is one, else "custom coordinates", which then need a
/// timezone), or the catalogue city's own coordinates.
pub fn resolve_location(
    locations: &LocationStore,
    city_id: &str,
    latitude_e6: Option<i64>,
    longitude_e6: Option<i64>,
    timezone: &str,
) -> (r: Result<ResolvedPrayerLocation, BolootError>)
    requires
        locations.wf(),
    ensures
        match (latitude_e6, longitude_e6) {
            (Some(lat), Some(lng)) => if locations.has(city_id@) {
                r matches Ok(l) && l.latitude_e6 == lat && l.longitude_e6 == lng && (exists|k: int| 0 <= k < locations.spec_cities().len() && #[trigger] locations.spec_cities()[k].id@ == city_id@ && l.timezone@ == tz_or(timezone@, locations.spec_cities()[k].timezone@) && l.display_name@ == locations.spec_cities()[k].name_fa@)
            } else if timezone@.len() == 0 {
                r matches Err(e) && e matches BolootError::InvalidConfig(m) && m@ == "timezone required for custom prayer coordinates"@
            } else {
                r matches Ok(l) && l.latitude_e6 == lat && l.longitude_e6 == lng && l.timezone@ == timezone@ && l.display_name@ == "مختصات سفارشی"@
            },
            _ => if locations.has(city_id@) {
                r matches Ok(l) && (exists|k: int| 0 <= k < locations.spec_cities().len() && #[trigger] locations.spec_cities()[k].id@ == city_id@ && l.latitude_e6 == locations.spec_cities()[k].latitude_e6 && l.longitude_e6 == locations.spec_cities()[k].longitude_e6 && l.timezone@ == tz_or(timezone@, locations.spec_cities()[k].timezone@) && l.display_name@ == locations.spec_cities()[k].name_fa@)
            } else {
                r matches Err(e) && e matches BolootError::LocationNotFound(m) && m@ == city_id@
            },
        },
{
    match (latitude_e6, longitude_e6) {
        (Some(lat), Some(lng)) => {
            match locations.get(city_id) {
                Some(city) => {
                    let tz = if timezone.is_empty() {
                        city.timezone.clone()
                    } else {
                        owned(timezone)
                    };
                    let l = ResolvedPrayerLocation {
                        latitude_e6: lat,
                        longitude_e6: lng,
                        timezone: tz,
                        display_name: city.name_fa.clone(),
                    };
                    proof {
                        let k = choose|k: int| 0 <= k < locations.spec_cities().len() && locations.spec_cities()[k] == *city;
                        assert(locations.spec_cities()[k].id@ == city_id@ && l.timezone@ == tz_or(timezone@, locations.spec_cities()[k].timezone@) && l.display_name@ == locations.spec_cities()[k].name_fa@);
                    }
                    return Ok(l);
                },
                None => {},
            }
            if timezone.is_empty() {
                return Err(BolootError::InvalidConfig(owned("timezone required for custom prayer coordinates")));
            }
            Ok(ResolvedPrayerLocation {
                latitude_e6: lat,
                longitude_e6: lng,
                timezone: owned(timezone),
                display_name: owned("مختصات سفارشی"),
            })
        },
        _ => {
            match locations.get(city_id) {
                Some(city) => {
                    let tz = if timezone.is_empty() {
                        city.timezone.clone()
                    } else {
                        owned(timezone)
                    };
                    let l = ResolvedPrayerLocation {
                        latitude_e6: city.latitude_e6,
                        longitude_e6: city.longitude_e6,
                        timezone: tz,
                        display_name: city.name_fa.clone(),
                    };
                    proof {
                        let k = choose|k: int| 0 <= k < locations.spec_cities().len() && locations.spec_cities()[k] == *city;
                        assert(locations.spec_cities()[k].id@ == city_id@ && l.latitude_e6 == locations.spec_cities()[k].latitude_e6 && l.longitude_e6 == locations.spec_cities()[k].longitude_e6 && l.timezone@ == tz_or(timezone@, locations.spec_cities()[k].timezone@) && l.display_name@ == locations.spec_cities()[k].name_fa@);
                    }
                    Ok(l)
                },
                None => Err(BolootError::LocationNotFound(owned(city_id))),
            }
        },
    }
}


/// `a / b` rounded toward zero, as Rust's integer division.
pub open spec fn trunc_div(a: int, b: int) -> int {
    if a >= 0 {
        a / b
    } else {
        -((-a) / b)
    }
}

/// `"{h}h {m}m"` (or `"{h}س {m}د"` in Persian digits) for a span in seconds.
pub open spec fn countdown_text(rem: int, numerals: NumeralStyle) -> Seq<char> {
    let h = trunc_div(rem, 3600);
    let m = trunc_div(rem - 3600 * h, 60);
    match numerals {
        NumeralStyle::Persian => persian_digits(int_decimal(h) + "س "@ + int_decimal(m) + "د"@),
        NumeralStyle::Latin => int_decimal(h) + "h "@ + int_decimal(m) + "m"@,
    }
}

pub open spec fn entry_text(e: PrayerTimeEntry) -> Seq<char> {
    e.label@ + " "@ + e.time@
}

/// The prayer part of the top bar in a display mode.
pub open spec fn top_bar_text(s: PrayerDayStatus, mode: PrayerDisplayMode, numerals: NumeralStyle) -> Option<Seq<char>> {
    match mode {
        PrayerDisplayMode::Hidden => None,
        PrayerDisplayMode::AllTimes => Some(
            join_seq(s.times.entries@.map_values(|e: PrayerTimeEntry| entry_text(e)), "  "@),
        ),
        PrayerDisplayMode::Countdown => match s.next {
            Some(n) => Some(n.label@ + " "@ + countdown_text(n.remaining_seconds as int, numerals)),
            None => None,
        },
        PrayerDisplayMode::NextPrayer => match s.next {
            Some(n) => Some(n.label@ + " "@ + n.time@),
            None => None,
        },
    }
}

/// `(n / d, n % d)` rounded toward zero, for a positive divisor.
fn trunc_div_rem(n: i64, d: i64) -> (r: (i64, i64))
    requires
        d > 0,
    ensures
        r.0 as int == trunc_div(n as int, d as int),
        r.1 as int == n - d * trunc_div(n as int, d as int),
        -d < r.1 < d,
{
    let a: i128 = n as i128;
    if a >= 0 {
        let q: u128 = (a as u128) / (d as u128);
        proof {
            vstd::arithmetic::div_mod::lemma_fundamental_div_mod(a as int, d as int);
            vstd::arithmetic::div_mod::lemma_mod_bound(a as int, d as int);
            assert(q as int == (a as int) / (d as int));
            assert(0 <= q <= a) by (nonlinear_arith)
                requires
                    a >= 0,
                    d > 0,
                    a == d * q + ((a as int) % (d as int)),
                    0 <= (a as int) % (d as int),
            ;
        }
        let q64 = q as i64;
        let rem: i64 = n - d * q64;
        (q64, rem)
    } else {
        let b: i128 = -a;
        let q: u128 = (b as u128) / (d as u128);
        proof {
            vstd::arithmetic::div_mod::lemma_fundamental_div_mod(b as int, d as int);
            vstd::arithmetic::div_mod::lemma_mod_bound(b as int, d as int);
            assert(q as int == (b as int) / (d as int));
            assert(0 <= q <= b) by (nonlinear_arith)
                requires
                    b > 0,
                    d > 0,
                    b == d * q + ((b as int) % (d as int)),
                    0 <= (b as int) % (d as int),
            ;
        }
        let q128: i128 = q as i128;
        let qn: i128 = -q128;
        let rem: i128 = a + (d as i128) * q128;
        assert(rem == -((b as int) % (d as int)));
        assert(-(d as int) < rem <= 0);
        assert(rem == n - d * (qn as int)) by (nonlinear_arith)
            requires
                rem == a + d * q128,
                qn == -q128,
                a == n,
        ;
        (qn as i64, rem as i64)
    }
}

fn countdown(rem: i64, numerals: NumeralStyle) -> (r: String)
    ensures
        r@ == countdown_text(rem as int, numerals),
{
    let (h, r1) = trunc_div_rem(rem, 3600);
    let (m, _r2) = trunc_div_rem(r1, 60);
    assert(h > i64::MIN) by (nonlinear_arith)
        requires
            h == trunc_div(rem as int, 3600),
    {
        if rem >= 0 {
        } else {
        }
    }
    let hs = i64_to_string(h);
    let ms = i64_to_string(m);
    match numerals {
        NumeralStyle::Persian => {
            let mut raw = hs;
            raw.append("س ");
            raw.append(ms.as_str());
            raw.append("د");
            to_persian_digits(raw.as_str())
        },
        NumeralStyle::Latin => {
            let mut raw = hs;
            raw.append("h ");
            raw.append(ms.as_str());
            raw.append("m");
            raw
        },
    }
}

fn label_and(label: &String, rest: &str) -> (r: String)
    ensures
        r@ == label@ + " "@ + rest@,
{
    let mut s = label.clone();
    s.append(" ");
    s.append(rest);
    s
}

/// The prayer part of the top bar in a display mode.
pub fn format_top_bar(schedule: &PrayerDayStatus, mode: PrayerDisplayMode, numerals: NumeralStyle) -> (r: Option<String>)
    ensures
        match top_bar_text(*schedule, mode, numerals) {
            Some(t) => r matches Some(s) && s@ == t,
            None => r is None,
        },
{
    match mode {
        PrayerDisplayMode::Hidden => None,
        PrayerDisplayMode::AllTimes => {
            let entries = &schedule.times.entries;
            let mut parts: Vec<String> = Vec::new();
            let mut i: usize = 0;
            while i < entries.len()
                invariant
                    i <= entries@.len(),
                    views(parts@) == entries@.take(i as int).map_values(|e: PrayerTimeEntry| entry_text(e)),
                decreases entries.len() - i,
            {
                let ghost before = parts@;
                let t = label_and(&entries[i].label, entries[i].time.as_str());
                assert(t@ == entry_text(entries@[i as int]));
                parts.push(t);
                proof {
                    assert(views(parts@) =~= views(before).push(t@));
                    assert(entries@.take(i + 1).map_values(|e: PrayerTimeEntry| entry_text(e)) =~= entries@.take(i as int).map_values(|e: PrayerTimeEntry| entry_text(e)).push(entry_text(entries@[i as int])));
                }
                i = i + 1;
            }
            assert(entries@.take(entries@.len() as int) =~= entries@);
            Some(join(&parts, "  "))
        },
        PrayerDisplayMode::Countdown => match &schedule.next {
            Some(next) => {
                let c = countdown(next.remaining_seconds, numerals);
                Some(label_and(&next.label, c.as_str()))
            },
            None => None,
        },
        PrayerDisplayMode::NextPrayer => match &schedule.next {
            Some(next) => Some(label_and(&next.label, next.time.as_str())),
            None => None,
        },
    }
}


/// Least of the non-negative `deltas[k]`, `k < n`, of entries whose adhan is enabled.
pub open spec fn min_enabled_upto(
    entries: Seq<PrayerTimeEntry>,
    deltas: Seq<Option<i64>>,
    config: BolootConfig,
    n: int,
) -> Option<i64>
    decreases n,
{
    if n <= 0 {
        None
    } else {
        let rest = min_enabled_upto(entries, deltas, config, n - 1);
        let k = n - 1;
        if config.prayer.adhan_enabled && toggle_of(config.prayer.adhan_prayers, entries[k].name) && (
        deltas[k] matches Some(s) && s >= 0) {
            match rest {
                Some(m) => if deltas[k]->0 < m {
                    deltas[k]
                } else {
                    Some(m)
                },
                None => deltas[k],
            }
        } else {
            rest
        }
    }
}

impl PrayerTimes {
    /// Least seconds until an entry whose adhan is enabled, among those not
    /// yet past; `deltas[k]` is the time until entry `k`, when known.
    pub fn min_seconds_until_enabled(&self, deltas: &Vec<Option<i64>>, config: &BolootConfig) -> (r: Option<i64>)
        requires
            deltas@.len() == self.entries@.len(),
        ensures
            r == min_enabled_upto(self.entries@, deltas@, *config, self.entries@.len() as int),
    {
        let mut best: Option<i64> = None;
        let mut k: usize = 0;
        while k < self.entries.len()
            invariant
                deltas@.len() == self.entries@.len(),
                k <= self.entries@.len(),
                best == min_enabled_upto(self.entries@, deltas@, *config, k as int),
            decreases self.entries.len() - k,
        {
            let enabled = crate::adhan::is_adhan_enabled_for(self.entries[k].name, config);
            if enabled {
                match deltas[k] {
                    Some(s) => {
                        if s >= 0 {
                            best = match best {
                                Some(m) => if s < m {
                                    Some(s)
                                } else {
                                    Some(m)
                                },
                                None => Some(s),
                            };
                        }
                    },
                    None => {},
                }
            }
            k = k + 1;
        }
        best
    }
}

} // verus!
