//! Interface and notification texts per language.
use vstd::prelude::*;

use crate::locale::LanguageVariant;
use crate::text::{decimal, str_eq, u64_to_string};

verus! {

#[derive(Debug)]
pub struct UiStrings {
    pub holidays_prefix: String,
    pub prayer_section_title: String,
    pub next_prayer_prefix: String,
    pub today_button: String,
    pub settings_button: String,
    pub holiday_notification_title: String,
    pub holiday_notification_body_prefix: String,
    pub prev_month_label: String,
    pub next_month_label: String,
    pub prev_year_label: String,
    pub next_year_label: String,
    pub adhan_stop_label: String,
    pub adhan_playing_label: String,
}

/// The texts of a language, in field order.
pub open spec fn ui_table(language: LanguageVariant) -> Seq<Seq<char>> {
    match language {
        LanguageVariant::English => english_table(),
        LanguageVariant::Persian => persian_table(),
        LanguageVariant::Dari => dari_table(),
        LanguageVariant::Pashto => pashto_table(),
        LanguageVariant::Tajik => tajik_table(),
    }
}

/// Which family of notification sentences a section title selects
/// (0 English, 1 Tajik, 2 Pashto, 3 Persian/Dari).
pub open spec fn message_family(title: Seq<char>) -> int {
    if title == "Prayer times"@ {
        0
    } else if title == "Вақти намоз"@ {
        1
    } else if title == "د لمانځه وختونه"@ {
        2
    } else {
        3
    }
}

fn family_of(title: &str) -> (k: u8)
    ensures
        k as int == message_family(title@),
{
    if str_eq(title, "Prayer times") {
        0
    } else if str_eq(title, "Вақти намоз") {
        1
    } else if str_eq(title, "د لمانځه وختونه") {
        2
    } else {
        3
    }
}

/// Reminder summary: the adhan of `label` in `minutes` minutes.
pub open spec fn notification_summary_text(title: Seq<char>, label: Seq<char>, minutes: nat) -> Seq<
    char,
> {
    let k = message_family(title);
    let m = decimal(minutes);
    if k == 0 {
        "Adhan "@ + label + " in "@ + m + " minutes"@
    } else if k == 1 {
        "Азон "@ + label + " дар "@ + m + " дақиқа"@
    } else if k == 2 {
        "اذان "@ + label + " تر "@ + m + " دقیقو"@
    } else {
        "اذان "@ + label + " تا "@ + m + " دقیقه دیگر"@
    }
}

/// Reminder body: `label` at `time`.
pub open spec fn notification_body_text(title: Seq<char>, label: Seq<char>, time: Seq<char>) -> Seq<
    char,
> {
    let k = message_family(title);
    if k == 0 {
        label + " at "@ + time
    } else if k == 1 {
        label + " соат "@ + time
    } else if k == 2 {
        label + " وخت "@ + time
    } else {
        label + " ساعت "@ + time
    }
}

/// Adhan summary: time of `label`.
pub open spec fn adhan_summary_text(title: Seq<char>, label: Seq<char>) -> Seq<char> {
    let k = message_family(title);
    if k == 0 {
        label + " time"@
    } else if k == 1 {
        "Вақти "@ + label
    } else if k == 2 {
        "د "@ + label + " وخت"@
    } else {
        "وقت "@ + label
    }
}

/// Adhan body: it is now time for `label`.
pub open spec fn adhan_body_text(title: Seq<char>, label: Seq<char>) -> Seq<char> {
    let k = message_family(title);
    if k == 0 {
        "It is now time for "@ + label + " prayer"@
    } else if k == 1 {
        "Акнун вақти намози "@ + label
    } else if k == 2 {
        "اوس د "@ + label + " لمانځه وخت دی"@
    } else {
        "اکنون وقت نماز "@ + label
    }
}

impl UiStrings {
    /// All texts in field order.
    pub open spec fn fields(&self) -> Seq<Seq<char>> {
        seq![
            self.holidays_prefix@,
            self.prayer_section_title@,
            self.next_prayer_prefix@,
            self.today_button@,
            self.settings_button@,
            self.holiday_notification_title@,
            self.holiday_notification_body_prefix@,
            self.prev_month_label@,
            self.next_month_label@,
            self.prev_year_label@,
            self.next_year_label@,
            self.adhan_stop_label@,
            self.adhan_playing_label@,
        ]
    }

    pub fn for_language(language: LanguageVariant) -> (u: Self)
        ensures
            u.fields() == ui_table(language),
    {
        match language {
            LanguageVariant::English => english(),
            LanguageVariant::Persian => persian(),
            LanguageVariant::Dari => dari(),
            LanguageVariant::Pashto => pashto(),
            LanguageVariant::Tajik => tajik(),
        }
    }

    /// Switches the four navigation labels to English.
    pub fn apply_english_nav_labels(&mut self)
        ensures
            final(self).fields() == old(self).fields().update(7, "Previous month"@).update(
                8,
                "Next month"@,
            ).update(9, "Previous year"@).update(10, "Next year"@),
    {
        self.prev_month_label = String::from_str("Previous month");
        self.next_month_label = String::from_str("Next month");
        self.prev_year_label = String::from_str("Previous year");
        self.next_year_label = String::from_str("Next year");
        assert(self.fields() =~= old(self).fields().update(7, "Previous month"@).update(
            8,
            "Next month"@,
        ).update(9, "Previous year"@).update(10, "Next year"@));
    }

    pub fn prayer_notification_summary(&self, label: &str, minutes: u32) -> (s: String)
        ensures
            s@ == notification_summary_text(self.prayer_section_title@, label@, minutes as nat),
    {
        let k = family_of(self.prayer_section_title.as_str());
        let m = u64_to_string(minutes as u64);
        let (a, b, c) = if k == 0 {
            ("Adhan ", " in ", " minutes")
        } else if k == 1 {
            ("Азон ", " дар ", " дақиқа")
        } else if k == 2 {
            ("اذان ", " تر ", " دقیقو")
        } else {
            ("اذان ", " تا ", " دقیقه دیگر")
        };
        let mut s = String::from_str(a);
        s.append(label);
        s.append(b);
        s.append(m.as_str());
        s.append(c);
        s
    }

    pub fn prayer_notification_body(&self, label: &str, time: &str) -> (s: String)
        ensures
            s@ == notification_body_text(self.prayer_section_title@, label@, time@),
    {
        let k = family_of(self.prayer_section_title.as_str());
        let sep = if k == 0 {
            " at "
        } else if k == 1 {
            " соат "
        } else if k == 2 {
            " وخت "
        } else {
            " ساعت "
        };
        let mut s = String::from_str(label);
        s.append(sep);
        s.append(time);
        s
    }

    pub fn prayer_adhan_summary(&self, label: &str) -> (s: String)
        ensures
            s@ == adhan_summary_text(self.prayer_section_title@, label@),
    {
        let k = family_of(self.prayer_section_title.as_str());
        if k == 0 {
            let mut s = String::from_str(label);
            s.append(" time");
            s
        } else if k == 1 {
            let mut s = String::from_str("Вақти ");
            s.append(label);
            s
        } else if k == 2 {
            let mut s = String::from_str("د ");
            s.append(label);
            s.append(" وخت");
            s
        } else {
            let mut s = String::from_str("وقت ");
            s.append(label);
            s
        }
    }

    pub fn prayer_adhan_body(&self, label: &str) -> (s: String)
        ensures
            s@ == adhan_body_text(self.prayer_section_title@, label@),
    {
        let k = family_of(self.prayer_section_title.as_str());
        if k == 0 {
            let mut s = String::from_str("It is now time for ");
            s.append(label);
            s.append(" prayer");
            s
        } else if k == 1 {
            let mut s = String::from_str("Акнун вақти намози ");
            s.append(label);
            s
        } else if k == 2 {
            let mut s = String::from_str("اوس د ");
            s.append(label);
            s.append(" لمانځه وخت دی");
            s
        } else {
            let mut s = String::from_str("اکنون وقت نماز ");
            s.append(label);
            s
        }
    }

    /// The holiday body prefix, a space and the holiday names.
    pub fn holiday_notification_body(&self, names: &str) -> (s: String)
        ensures
            s@ == self.holiday_notification_body_prefix@ + " "@ + names@,
    {
        let mut s = self.holiday_notification_body_prefix.clone();
        s.append(" ");
        s.append(names);
        s
    }
}

pub open spec fn persian_table() -> Seq<Seq<char>> {
    seq!["تعطیلات:"@, "اوقات شرعی"@, "بعدی:"@, "امروز"@, "تنظیمات بولوت"@, "تعطیلی فردا"@, "فردا:"@, "ماه قبل"@, "ماه بعد"@, "سال قبل"@, "سال بعد"@, "قطع اذان"@, "در حال پخش اذان"@]
}

fn persian() -> (u: UiStrings)
    ensures
        u.fields() == persian_table(),
{
    let u = UiStrings {
        holidays_prefix: String::from_str("تعطیلات:"),
        prayer_section_title: String::from_str("اوقات شرعی"),
        next_prayer_prefix: String::from_str("بعدی:"),
        today_button: String::from_str("امروز"),
        settings_button: String::from_str("تنظیمات بولوت"),
        holiday_notification_title: String::from_str("تعطیلی فردا"),
        holiday_notification_body_prefix: String::from_str("فردا:"),
        prev_month_label: String::from_str("ماه قبل"),
        next_month_label: String::from_str("ماه بعد"),
        prev_year_label: String::from_str("سال قبل"),
        next_year_label: String::from_str("سال بعد"),
        adhan_stop_label: String::from_str("قطع اذان"),
        adhan_playing_label: String::from_str("در حال پخش اذان"),
    };
    assert(u.fields() =~= persian_table());
    u
}

pub open spec fn dari_table() -> Seq<Seq<char>> {
    seq!["رخصتی‌ها:"@, "اوقات شرعی"@, "بعدی:"@, "امروز"@, "تنظیمات بولوت"@, "رخصتی فردا"@, "فردا:"@, "ماه قبل"@, "ماه بعد"@, "سال قبل"@, "سال بعد"@, "قطع اذان"@, "در حال پخش اذان"@]
}

fn dari() -> (u: UiStrings)
    ensures
        u.fields() == dari_table(),
{
    let u = UiStrings {
        holidays_prefix: String::from_str("رخصتی‌ها:"),
        prayer_section_title: String::from_str("اوقات شرعی"),
        next_prayer_prefix: String::from_str("بعدی:"),
        today_button: String::from_str("امروز"),
        settings_button: String::from_str("تنظیمات بولوت"),
        holiday_notification_title: String::from_str("رخصتی فردا"),
        holiday_notification_body_prefix: String::from_str("فردا:"),
        prev_month_label: String::from_str("ماه قبل"),
        next_month_label: String::from_str("ماه بعد"),
        prev_year_label: String::from_str("سال قبل"),
        next_year_label: String::from_str("سال بعد"),
        adhan_stop_label: String::from_str("قطع اذان"),
        adhan_playing_label: String::from_str("در حال پخش اذان"),
    };
    assert(u.fields() =~= dari_table());
    u
}

pub open spec fn pashto_table() -> Seq<Seq<char>> {
    seq!["رخصتيانې:"@, "د لمانځه وختونه"@, "راتلونکی:"@, "نن"@, "د بولوت تنظیمات"@, "سبا رخصتي"@, "سبا:"@, "تیر ماه"@, "راتلونکی ماه"@, "تیر کال"@, "راتلونکی کال"@, "اذان بند کړئ"@, "اذان غږېږي"@]
}

fn pashto() -> (u: UiStrings)
    ensures
        u.fields() == pashto_table(),
{
    let u = UiStrings {
        holidays_prefix: String::from_str("رخصتيانې:"),
        prayer_section_title: String::from_str("د لمانځه وختونه"),
        next_prayer_prefix: String::from_str("راتلونکی:"),
        today_button: String::from_str("نن"),
        settings_button: String::from_str("د بولوت تنظیمات"),
        holiday_notification_title: String::from_str("سبا رخصتي"),
        holiday_notification_body_prefix: String::from_str("سبا:"),
        prev_month_label: String::from_str("تیر ماه"),
        next_month_label: String::from_str("راتلونکی ماه"),
        prev_year_label: String::from_str("تیر کال"),
        next_year_label: String::from_str("راتلونکی کال"),
        adhan_stop_label: String::from_str("اذان بند کړئ"),
        adhan_playing_label: String::from_str("اذان غږېږي"),
    };
    assert(u.fields() =~= pashto_table());
    u
}

pub open spec fn english_table() -> Seq<Seq<char>> {
    seq!["Holidays:"@, "Prayer times"@, "Next:"@, "Today"@, "BOLOOT Settings"@, "Holiday tomorrow"@, "Tomorrow:"@, "Previous month"@, "Next month"@, "Previous year"@, "Next year"@, "Stop adhan"@, "Playing adhan"@]
}

fn english() -> (u: UiStrings)
    ensures
        u.fields() == english_table(),
{
    let u = UiStrings {
        holidays_prefix: String::from_str("Holidays:"),
        prayer_section_title: String::from_str("Prayer times"),
        next_prayer_prefix: String::from_str("Next:"),
        today_button: String::from_str("Today"),
        settings_button: String::from_str("BOLOOT Settings"),
        holiday_notification_title: String::from_str("Holiday tomorrow"),
        holiday_notification_body_prefix: String::from_str("Tomorrow:"),
        prev_month_label: String::from_str("Previous month"),
        next_month_label: String::from_str("Next month"),
        prev_year_label: String::from_str("Previous year"),
        next_year_label: String::from_str("Next year"),
        adhan_stop_label: String::from_str("Stop adhan"),
        adhan_playing_label: String::from_str("Playing adhan"),
    };
    assert(u.fields() =~= english_table());
    u
}

pub open spec fn tajik_table() -> Seq<Seq<char>> {
    seq!["Идҳо:"@, "Вақти намоз"@, "Бад:"@, "Имрӯз"@, "Танзимоти BOLOOT"@, "Ид пагоҳ"@, "Пагоҳ:"@, "Моҳи қаблӣ"@, "Моҳи баъдӣ"@, "Соли қаблӣ"@, "Соли баъдӣ"@, "Қатъ кардани азон"@, "Азон пахш мешавад"@]
}

fn tajik() -> (u: UiStrings)
    ensures
        u.fields() == tajik_table(),
{
    let u = UiStrings {
        holidays_prefix: String::from_str("Идҳо:"),
        prayer_section_title: String::from_str("Вақти намоз"),
        next_prayer_prefix: String::from_str("Бад:"),
        today_button: String::from_str("Имрӯз"),
        settings_button: String::from_str("Танзимоти BOLOOT"),
        holiday_notification_title: String::from_str("Ид пагоҳ"),
        holiday_notification_body_prefix: String::from_str("Пагоҳ:"),
        prev_month_label: String::from_str("Моҳи қаблӣ"),
        next_month_label: String::from_str("Моҳи баъдӣ"),
        prev_year_label: String::from_str("Соли қаблӣ"),
        next_year_label: String::from_str("Соли баъдӣ"),
        adhan_stop_label: String::from_str("Қатъ кардани азон"),
        adhan_playing_label: String::from_str("Азон пахш мешавад"),
    };
    assert(u.fields() =~= tajik_table());
    u
}
} // verus!
