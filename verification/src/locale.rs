//! Weekdays, languages and the per-country locale tables (month and weekday names).
use vstd::prelude::*;

use crate::calendar::CalendarSystem;
use crate::countries::CountryProfile;
use crate::text::{owned, views};

verus! {

/// Display language of the calendar.
#[derive(Debug, Clone, Copy, PartialEq, Eq, Structural, Hash, Default)]
pub enum LanguageVariant {
    #[default]
    Persian,
    Dari,
    Pashto,
    Tajik,
    English,
}

/// Day of the week, numbered from Saturday (0) to Friday (6).
#[derive(Debug, Clone, Copy, PartialEq, Eq, Structural, Hash, Default)]
pub enum Weekday {
    #[default]
    Saturday,
    Sunday,
    Monday,
    Tuesday,
    Wednesday,
    Thursday,
    Friday,
}

pub open spec fn weekday_index_spec(w: Weekday) -> int {
    match w {
        Weekday::Saturday => 0,
        Weekday::Sunday => 1,
        Weekday::Monday => 2,
        Weekday::Tuesday => 3,
        Weekday::Wednesday => 4,
        Weekday::Thursday => 5,
        Weekday::Friday => 6,
    }
}

/// The weekday with index `i` (Saturday = 0).
pub open spec fn weekday_of_index(i: int) -> Weekday {
    if i == 0 {
        Weekday::Saturday
    } else if i == 1 {
        Weekday::Sunday
    } else if i == 2 {
        Weekday::Monday
    } else if i == 3 {
        Weekday::Tuesday
    } else if i == 4 {
        Weekday::Wednesday
    } else if i == 5 {
        Weekday::Thursday
    } else {
        Weekday::Friday
    }
}

pub fn weekday_from_index(i: u8) -> (w: Weekday)
    requires
        i < 7,
    ensures
        w == weekday_of_index(i as int),
        w.index() == i,
{
    if i == 0 {
        Weekday::Saturday
    } else if i == 1 {
        Weekday::Sunday
    } else if i == 2 {
        Weekday::Monday
    } else if i == 3 {
        Weekday::Tuesday
    } else if i == 4 {
        Weekday::Wednesday
    } else if i == 5 {
        Weekday::Thursday
    } else {
        Weekday::Friday
    }
}

impl Weekday {
    pub open spec fn spec_index(self) -> u8 {
        weekday_index_spec(self) as u8
    }

    /// Position of the day in a Saturday-first week.
    #[verifier::when_used_as_spec(spec_index)]
    pub fn index(self) -> (i: u8)
        ensures
            i as int == weekday_index_spec(self),
            i == self.spec_index(),
            i < 7,
    {
        match self {
            Weekday::Saturday => 0,
            Weekday::Sunday => 1,
            Weekday::Monday => 2,
            Weekday::Tuesday => 3,
            Weekday::Wednesday => 4,
            Weekday::Thursday => 5,
            Weekday::Friday => 6,
        }
    }

    /// Column of this day in a week that starts on `week_start`.
    pub fn index_from(self, week_start: Self) -> (i: u8)
        ensures
            i as int == (weekday_index_spec(self) + 7 - weekday_index_spec(week_start)) % 7,
            i < 7,
    {
        (self.index() + 7 - week_start.index()) % 7
    }
}

/// Month, weekday and regional settings of one country/language pair.
#[derive(Debug)]
pub struct LocaleProfile {
    pub country: CountryProfile,
    pub language: LanguageVariant,
    pub month_names: Vec<String>,
    pub hijri_month_names: Vec<String>,
    pub weekday_names: Vec<String>,
    pub weekday_short: Vec<String>,
    pub hijri_weekday_names: Vec<String>,
    pub hijri_weekday_short: Vec<String>,
    pub default_week_start: Weekday,
    pub weekend_days: Vec<Weekday>,
    pub default_timezone: String,
    pub locale_code: String,
}

/// Which of the four built-in profiles a country/language pair selects
/// (0 Iran, 1 Afghanistan/Dari, 2 Afghanistan/Pashto, 3 Tajikistan).
pub open spec fn profile_kind(country: Seq<char>, language: LanguageVariant) -> int {
    if country == "afghanistan"@ {
        if language == LanguageVariant::Pashto {
            2
        } else {
            1
        }
    } else if country == "tajikistan"@ {
        3
    } else {
        0
    }
}

pub open spec fn kind_month_names(k: int) -> Seq<Seq<char>> {
    if k == 0 {
        iran_month_names()
    } else if k == 1 {
        dari_month_names()
    } else if k == 2 {
        pashto_month_names()
    } else {
        tajik_month_names()
    }
}

pub open spec fn kind_weekday_names(k: int) -> Seq<Seq<char>> {
    if k == 3 {
        tajik_weekday_names()
    } else {
        persian_weekday_names()
    }
}

pub open spec fn kind_weekday_short(k: int) -> Seq<Seq<char>> {
    if k == 3 {
        tajik_weekday_short()
    } else {
        persian_weekday_short()
    }
}

pub open spec fn kind_weekend(k: int) -> Seq<Weekday> {
    if k == 0 {
        seq![Weekday::Friday]
    } else if k == 3 {
        seq![Weekday::Saturday, Weekday::Sunday]
    } else {
        seq![Weekday::Thursday, Weekday::Friday]
    }
}

pub open spec fn kind_country(k: int) -> Seq<char> {
    if k == 0 {
        "iran"@
    } else if k == 3 {
        "tajikistan"@
    } else {
        "afghanistan"@
    }
}

pub open spec fn kind_language(k: int) -> LanguageVariant {
    if k == 0 {
        LanguageVariant::Persian
    } else if k == 1 {
        LanguageVariant::Dari
    } else if k == 2 {
        LanguageVariant::Pashto
    } else {
        LanguageVariant::Tajik
    }
}

pub open spec fn kind_timezone(k: int) -> Seq<char> {
    if k == 0 {
        "Asia/Tehran"@
    } else if k == 3 {
        "Asia/Dushanbe"@
    } else {
        "Asia/Kabul"@
    }
}

pub open spec fn kind_locale_code(k: int) -> Seq<char> {
    if k == 0 {
        "fa_IR"@
    } else if k == 1 {
        "fa_AF"@
    } else if k == 2 {
        "ps_AF"@
    } else {
        "tg_TJ"@
    }
}

pub open spec fn kind_week_start(k: int) -> Weekday {
    if k == 3 {
        Weekday::Monday
    } else {
        Weekday::Saturday
    }
}

impl LocaleProfile {
    /// Whether this value holds exactly the tables of built-in profile `k`.
    pub open spec fn is_profile(&self, k: int) -> bool {
        &&& self.country@ == kind_country(k)
        &&& self.language == kind_language(k)
        &&& views(self.month_names@) == kind_month_names(k)
        &&& views(self.hijri_month_names@) == hijri_month_table()
        &&& views(self.weekday_names@) == kind_weekday_names(k)
        &&& views(self.weekday_short@) == kind_weekday_short(k)
        &&& views(self.hijri_weekday_names@) == hijri_weekday_table()
        &&& views(self.hijri_weekday_short@) == hijri_weekday_short_table()
        &&& self.default_week_start == kind_week_start(k)
        &&& self.weekend_days@ == kind_weekend(k)
        &&& self.default_timezone@ == kind_timezone(k)
        &&& self.locale_code@ == kind_locale_code(k)
    }

    /// The built-in profile for a country and language: Afghanistan has a
    /// Dari and a Pashto variant, Tajikistan its own, every other country Iran's.
    pub fn resolve(country: CountryProfile, language: LanguageVariant) -> (p: LocaleProfile)
        ensures
            p.is_profile(profile_kind(country@, language)),
    {
        if country.is_afghanistan() {
            if language == LanguageVariant::Pashto {
                afghanistan_pashto()
            } else {
                afghanistan_dari()
            }
        } else if country.is_tajikistan() {
            tajikistan()
        } else {
            iran()
        }
    }

    /// Name of Jalali month `month` (1-based).
    pub fn month_name(&self, month: u8) -> (r: Option<&str>)
        requires
            month >= 1,
        ensures
            r is Some <==> month <= self.month_names@.len(),
            r matches Some(s) ==> s@ == self.month_names@[month - 1]@,
    {
        let i = (month - 1) as usize;
        if i < self.month_names.len() {
            Some(self.month_names[i].as_str())
        } else {
            None
        }
    }

    /// Full weekday name; the Hijri calendar uses the Arabic names.
    pub fn weekday_name(&self, weekday: Weekday, calendar: CalendarSystem) -> (r: Option<&str>)
        ensures
            ({
                let names = if calendar == CalendarSystem::Hijri {
                    self.hijri_weekday_names@
                } else {
                    self.weekday_names@
                };
                &&& r is Some <==> weekday.index() < names.len()
                &&& r matches Some(s) ==> s@ == names[weekday.index() as int]@
            }),
    {
        let i = weekday.index() as usize;
        if calendar == CalendarSystem::Hijri {
            if i < self.hijri_weekday_names.len() {
                Some(self.hijri_weekday_names[i].as_str())
            } else {
                None
            }
        } else {
            if i < self.weekday_names.len() {
                Some(self.weekday_names[i].as_str())
            } else {
                None
            }
        }
    }

    /// Short weekday label; the Hijri calendar uses the Arabic letters.
    pub fn weekday_short(&self, weekday: Weekday, calendar: CalendarSystem) -> (r: Option<&str>)
        ensures
            ({
                let names = if calendar == CalendarSystem::Hijri {
                    self.hijri_weekday_short@
                } else {
                    self.weekday_short@
                };
                &&& r is Some <==> weekday.index() < names.len()
                &&& r matches Some(s) ==> s@ == names[weekday.index() as int]@
            }),
    {
        let i = weekday.index() as usize;
        if calendar == CalendarSystem::Hijri {
            if i < self.hijri_weekday_short.len() {
                Some(self.hijri_weekday_short[i].as_str())
            } else {
                None
            }
        } else {
            if i < self.weekday_short.len() {
                Some(self.weekday_short[i].as_str())
            } else {
                None
            }
        }
    }

    /// Name of Hijri month `month` (1-based).
    pub fn hijri_month_name(&self, month: u8) -> (r: Option<&str>)
        requires
            month >= 1,
        ensures
            r is Some <==> month <= self.hijri_month_names@.len(),
            r matches Some(s) ==> s@ == self.hijri_month_names@[month - 1]@,
    {
        let i = (month - 1) as usize;
        if i < self.hijri_month_names.len() {
            Some(self.hijri_month_names[i].as_str())
        } else {
            None
        }
    }

    /// English name of Gregorian month `month` (1-based).
    pub fn gregorian_month_name(&self, month: u32) -> (r: Option<String>)
        requires
            month >= 1,
        ensures
            r is Some <==> month <= 12,
            r matches Some(s) ==> s@ == gregorian_month_table()[month - 1],
    {
        let names = make_gregorian_month_table();
        assert(names@.len() == views(names@).len());
        let i = (month - 1) as usize;
        if i < names.len() {
            Some(owned(names[i].as_str()))
        } else {
            None
        }
    }
}

fn weekdays1(a: Weekday) -> (v: Vec<Weekday>)
    ensures
        v@ == seq![a],
{
    let mut v: Vec<Weekday> = Vec::new();
    v.push(a);
    assert(v@ =~= seq![a]);
    v
}

fn weekdays2(a: Weekday, b: Weekday) -> (v: Vec<Weekday>)
    ensures
        v@ == seq![a, b],
{
    let mut v: Vec<Weekday> = Vec::new();
    v.push(a);
    v.push(b);
    assert(v@ =~= seq![a, b]);
    v
}

fn iran() -> (p: LocaleProfile)
    ensures
        p.is_profile(0),
{
    LocaleProfile {
        country: CountryProfile::iran(),
        language: LanguageVariant::Persian,
        month_names: make_iran_month_names(),
        hijri_month_names: make_hijri_month_table(),
        weekday_names: make_persian_weekday_names(),
        weekday_short: make_persian_weekday_short(),
        hijri_weekday_names: make_hijri_weekday_table(),
        hijri_weekday_short: make_hijri_weekday_short_table(),
        default_week_start: Weekday::Saturday,
        weekend_days: weekdays1(Weekday::Friday),
        default_timezone: String::from_str("Asia/Tehran"),
        locale_code: String::from_str("fa_IR"),
    }
}

fn afghanistan_dari() -> (p: LocaleProfile)
    ensures
        p.is_profile(1),
{
    LocaleProfile {
        country: CountryProfile::afghanistan(),
        language: LanguageVariant::Dari,
        month_names: make_dari_month_names(),
        hijri_month_names: make_hijri_month_table(),
        weekday_names: make_persian_weekday_names(),
        weekday_short: make_persian_weekday_short(),
        hijri_weekday_names: make_hijri_weekday_table(),
        hijri_weekday_short: make_hijri_weekday_short_table(),
        default_week_start: Weekday::Saturday,
        weekend_days: weekdays2(Weekday::Thursday, Weekday::Friday),
        default_timezone: String::from_str("Asia/Kabul"),
        locale_code: String::from_str("fa_AF"),
    }
}

fn afghanistan_pashto() -> (p: LocaleProfile)
    ensures
        p.is_profile(2),
{
    let mut profile = afghanistan_dari();
    profile.language = LanguageVariant::Pashto;
    profile.month_names = make_pashto_month_names();
    profile.locale_code = String::from_str("ps_AF");
    profile
}

fn tajikistan() -> (p: LocaleProfile)
    ensures
        p.is_profile(3),
{
    LocaleProfile {
        country: CountryProfile::tajikistan(),
        language: LanguageVariant::Tajik,
        month_names: make_tajik_month_names(),
        hijri_month_names: make_hijri_month_table(),
        weekday_names: make_tajik_weekday_names(),
        weekday_short: make_tajik_weekday_short(),
        hijri_weekday_names: make_hijri_weekday_table(),
        hijri_weekday_short: make_hijri_weekday_short_table(),
        default_week_start: Weekday::Monday,
        weekend_days: weekdays2(Weekday::Saturday, Weekday::Sunday),
        default_timezone: String::from_str("Asia/Dushanbe"),
        locale_code: String::from_str("tg_TJ"),
    }
}

pub open spec fn iran_month_names() -> Seq<Seq<char>> {
    seq!["فروردین"@, "اردیبهشت"@, "خرداد"@, "تیر"@, "مرداد"@, "شهریور"@, "مهر"@, "آبان"@, "آذر"@, "دی"@, "بهمن"@, "اسفند"@]
}

fn make_iran_month_names() -> (v: Vec<String>)
    ensures
        views(v@) == iran_month_names(),
{
    let mut v: Vec<String> = Vec::new();
    v.push(String::from_str("فروردین"));
    v.push(String::from_str("اردیبهشت"));
    v.push(String::from_str("خرداد"));
    v.push(String::from_str("تیر"));
    v.push(String::from_str("مرداد"));
    v.push(String::from_str("شهریور"));
    v.push(String::from_str("مهر"));
    v.push(String::from_str("آبان"));
    v.push(String::from_str("آذر"));
    v.push(String::from_str("دی"));
    v.push(String::from_str("بهمن"));
    v.push(String::from_str("اسفند"));
    assert(views(v@) =~= iran_month_names());
    v
}

pub open spec fn dari_month_names() -> Seq<Seq<char>> {
    seq!["حمل"@, "ثور"@, "جوزا"@, "سرطان"@, "اسد"@, "سنبله"@, "میزان"@, "عقرب"@, "قوس"@, "جدی"@, "دلو"@, "حوت"@]
}

fn make_dari_month_names() -> (v: Vec<String>)
    ensures
        views(v@) == dari_month_names(),
{
    let mut v: Vec<String> = Vec::new();
    v.push(String::from_str("حمل"));
    v.push(String::from_str("ثور"));
    v.push(String::from_str("جوزا"));
    v.push(String::from_str("سرطان"));
    v.push(String::from_str("اسد"));
    v.push(String::from_str("سنبله"));
    v.push(String::from_str("میزان"));
    v.push(String::from_str("عقرب"));
    v.push(String::from_str("قوس"));
    v.push(String::from_str("جدی"));
    v.push(String::from_str("دلو"));
    v.push(String::from_str("حوت"));
    assert(views(v@) =~= dari_month_names());
    v
}

pub open spec fn pashto_month_names() -> Seq<Seq<char>> {
    seq!["وری"@, "غویی"@, "غبرګولی"@, "چنګاښ"@, "زمری"@, "وږی"@, "تله"@, "لړم"@, "لیندۍ"@, "مرغومی"@, "سلواغه"@, "کب"@]
}

fn make_pashto_month_names() -> (v: Vec<String>)
    ensures
        views(v@) == pashto_month_names(),
{
    let mut v: Vec<String> = Vec::new();
    v.push(String::from_str("وری"));
    v.push(String::from_str("غویی"));
    v.push(String::from_str("غبرګولی"));
    v.push(String::from_str("چنګاښ"));
    v.push(String::from_str("زمری"));
    v.push(String::from_str("وږی"));
    v.push(String::from_str("تله"));
    v.push(String::from_str("لړم"));
    v.push(String::from_str("لیندۍ"));
    v.push(String::from_str("مرغومی"));
    v.push(String::from_str("سلواغه"));
    v.push(String::from_str("کب"));
    assert(views(v@) =~= pashto_month_names());
    v
}

pub open spec fn tajik_month_names() -> Seq<Seq<char>> {
    seq!["Фарвардин"@, "Урдибихишт"@, "Хурдод"@, "Тир"@, "Мурдод"@, "Шаҳривар"@, "Мехр"@, "Абон"@, "Азар"@, "Ди"@, "Бахман"@, "Исфанд"@]
}

fn make_tajik_month_names() -> (v: Vec<String>)
    ensures
        views(v@) == tajik_month_names(),
{
    let mut v: Vec<String> = Vec::new();
    v.push(String::from_str("Фарвардин"));
    v.push(String::from_str("Урдибихишт"));
    v.push(String::from_str("Хурдод"));
    v.push(String::from_str("Тир"));
    v.push(String::from_str("Мурдод"));
    v.push(String::from_str("Шаҳривар"));
    v.push(String::from_str("Мехр"));
    v.push(String::from_str("Абон"));
    v.push(String::from_str("Азар"));
    v.push(String::from_str("Ди"));
    v.push(String::from_str("Бахман"));
    v.push(String::from_str("Исфанд"));
    assert(views(v@) =~= tajik_month_names());
    v
}

pub open spec fn hijri_month_table() -> Seq<Seq<char>> {
    seq!["محرم"@, "صفر"@, "ربيع الأول"@, "ربيع الثاني"@, "جمادي الأولى"@, "جمادي الآخرة"@, "رجب"@, "شعبان"@, "رمضان"@, "شوال"@, "ذو القعدة"@, "ذو الحجة"@]
}

fn make_hijri_month_table() -> (v: Vec<String>)
    ensures
        views(v@) == hijri_month_table(),
{
    let mut v: Vec<String> = Vec::new();
    v.push(String::from_str("محرم"));
    v.push(String::from_str("صفر"));
    v.push(String::from_str("ربيع الأول"));
    v.push(String::from_str("ربيع الثاني"));
    v.push(String::from_str("جمادي الأولى"));
    v.push(String::from_str("جمادي الآخرة"));
    v.push(String::from_str("رجب"));
    v.push(String::from_str("شعبان"));
    v.push(String::from_str("رمضان"));
    v.push(String::from_str("شوال"));
    v.push(String::from_str("ذو القعدة"));
    v.push(String::from_str("ذو الحجة"));
    assert(views(v@) =~= hijri_month_table());
    v
}

pub open spec fn hijri_weekday_table() -> Seq<Seq<char>> {
    seq!["السبت"@, "الاحد"@, "الاثنين"@, "الثلاثاء"@, "الاربعاء"@, "الخميس"@, "الجمعة"@]
}

fn make_hijri_weekday_table() -> (v: Vec<String>)
    ensures
        views(v@) == hijri_weekday_table(),
{
    let mut v: Vec<String> = Vec::new();
    v.push(String::from_str("السبت"));
    v.push(String::from_str("الاحد"));
    v.push(String::from_str("الاثنين"));
    v.push(String::from_str("الثلاثاء"));
    v.push(String::from_str("الاربعاء"));
    v.push(String::from_str("الخميس"));
    v.push(String::from_str("الجمعة"));
    assert(views(v@) =~= hijri_weekday_table());
    v
}

pub open spec fn hijri_weekday_short_table() -> Seq<Seq<char>> {
    seq!["س"@, "ح"@, "ن"@, "ث"@, "ر"@, "خ"@, "ج"@]
}

fn make_hijri_weekday_short_table() -> (v: Vec<String>)
    ensures
        views(v@) == hijri_weekday_short_table(),
{
    let mut v: Vec<String> = Vec::new();
    v.push(String::from_str("س"));
    v.push(String::from_str("ح"));
    v.push(String::from_str("ن"));
    v.push(String::from_str("ث"));
    v.push(String::from_str("ر"));
    v.push(String::from_str("خ"));
    v.push(String::from_str("ج"));
    assert(views(v@) =~= hijri_weekday_short_table());
    v
}

pub open spec fn persian_weekday_names() -> Seq<Seq<char>> {
    seq!["شنبه"@, "یکشنبه"@, "دوشنبه"@, "سه‌شنبه"@, "چهارشنبه"@, "پنج‌شنبه"@, "جمعه"@]
}

fn make_persian_weekday_names() -> (v: Vec<String>)
    ensures
        views(v@) == persian_weekday_names(),
{
    let mut v: Vec<String> = Vec::new();
    v.push(String::from_str("شنبه"));
    v.push(String::from_str("یکشنبه"));
    v.push(String::from_str("دوشنبه"));
    v.push(String::from_str("سه‌شنبه"));
    v.push(String::from_str("چهارشنبه"));
    v.push(String::from_str("پنج‌شنبه"));
    v.push(String::from_str("جمعه"));
    assert(views(v@) =~= persian_weekday_names());
    v
}

pub open spec fn persian_weekday_short() -> Seq<Seq<char>> {
    seq!["ش"@, "ی"@, "د"@, "س"@, "چ"@, "پ"@, "ج"@]
}

fn make_persian_weekday_short() -> (v: Vec<String>)
    ensures
        views(v@) == persian_weekday_short(),
{
    let mut v: Vec<String> = Vec::new();
    v.push(String::from_str("ش"));
    v.push(String::from_str("ی"));
    v.push(String::from_str("د"));
    v.push(String::from_str("س"));
    v.push(String::from_str("چ"));
    v.push(String::from_str("پ"));
    v.push(String::from_str("ج"));
    assert(views(v@) =~= persian_weekday_short());
    v
}

pub open spec fn tajik_weekday_names() -> Seq<Seq<char>> {
    seq!["Шанбе"@, "Якшанбе"@, "Душанбе"@, "Сешанбе"@, "Чоршанбе"@, "Панҷшанбе"@, "Ҷумъа"@]
}

fn make_tajik_weekday_names() -> (v: Vec<String>)
    ensures
        views(v@) == tajik_weekday_names(),
{
    let mut v: Vec<String> = Vec::new();
    v.push(String::from_str("Шанбе"));
    v.push(String::from_str("Якшанбе"));
    v.push(String::from_str("Душанбе"));
    v.push(String::from_str("Сешанбе"));
    v.push(String::from_str("Чоршанбе"));
    v.push(String::from_str("Панҷшанбе"));
    v.push(String::from_str("Ҷумъа"));
    assert(views(v@) =~= tajik_weekday_names());
    v
}

pub open spec fn tajik_weekday_short() -> Seq<Seq<char>> {
    seq!["Ш"@, "Я"@, "Д"@, "С"@, "Ч"@, "П"@, "Ҷ"@]
}

fn make_tajik_weekday_short() -> (v: Vec<String>)
    ensures
        views(v@) == tajik_weekday_short(),
{
    let mut v: Vec<String> = Vec::new();
    v.push(String::from_str("Ш"));
    v.push(String::from_str("Я"));
    v.push(String::from_str("Д"));
    v.push(String::from_str("С"));
    v.push(String::from_str("Ч"));
    v.push(String::from_str("П"));
    v.push(String::from_str("Ҷ"));
    assert(views(v@) =~= tajik_weekday_short());
    v
}

pub open spec fn gregorian_month_table() -> Seq<Seq<char>> {
    seq!["January"@, "February"@, "March"@, "April"@, "May"@, "June"@, "July"@, "August"@, "September"@, "October"@, "November"@, "December"@]
}

fn make_gregorian_month_table() -> (v: Vec<String>)
    ensures
        views(v@) == gregorian_month_table(),
{
    let mut v: Vec<String> = Vec::new();
    v.push(String::from_str("January"));
    v.push(String::from_str("February"));
    v.push(String::from_str("March"));
    v.push(String::from_str("April"));
    v.push(String::from_str("May"));
    v.push(String::from_str("June"));
    v.push(String::from_str("July"));
    v.push(String::from_str("August"));
    v.push(String::from_str("September"));
    v.push(String::from_str("October"));
    v.push(String::from_str("November"));
    v.push(String::from_str("December"));
    assert(views(v@) =~= gregorian_month_table());
    v
}
} // verus!
