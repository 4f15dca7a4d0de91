//! Date and time formatting with Persian or Latin digits.
use vstd::prelude::*;

use crate::calendar::{CalendarDate, CalendarSystem};
use crate::locale::{gregorian_month_table, LocaleProfile};
use crate::text::{chars_of, i64_to_string, int_decimal, padded_decimal, padded_to_string, push_char, string_from_chars};

verus! {

#[derive(Debug, Clone, Copy, PartialEq, Eq, Structural, Default)]
pub enum NumeralStyle {
    #[default]
    Persian,
    Latin,
}

#[derive(Debug, Clone, Copy, PartialEq, Eq, Structural, Default)]
pub enum DateFormatStyle {
    #[default]
    ShortSlash,
    LongNamed,
    Custom,
}

/// Gregorian calendar always uses Latin digits; other calendars follow `numerals`.
pub open spec fn effective_numerals_spec(calendar: CalendarSystem, numerals: NumeralStyle) -> NumeralStyle {
    if calendar == CalendarSystem::Gregorian {
        NumeralStyle::Latin
    } else {
        numerals
    }
}

/// Gregorian calendar always uses Latin digits; other calendars follow `numerals`.
pub fn effective_numerals(calendar: CalendarSystem, numerals: NumeralStyle) -> (n: NumeralStyle)
    ensures
        n == effective_numerals_spec(calendar, numerals),
{
    if calendar == CalendarSystem::Gregorian {
        NumeralStyle::Latin
    } else {
        numerals
    }
}

/// Extended Arabic-Indic (Persian) digit for an ASCII digit; other characters unchanged.
pub open spec fn persian_digit(c: char) -> char {
    if c == '0' {
        '۰'
    } else if c == '1' {
        '۱'
    } else if c == '2' {
        '۲'
    } else if c == '3' {
        '۳'
    } else if c == '4' {
        '۴'
    } else if c == '5' {
        '۵'
    } else if c == '6' {
        '۶'
    } else if c == '7' {
        '۷'
    } else if c == '8' {
        '۸'
    } else if c == '9' {
        '۹'
    } else {
        c
    }
}

fn persian_digit_char(c: char) -> (r: char)
    ensures
        r == persian_digit(c),
{
    if c == '0' {
        '۰'
    } else if c == '1' {
        '۱'
    } else if c == '2' {
        '۲'
    } else if c == '3' {
        '۳'
    } else if c == '4' {
        '۴'
    } else if c == '5' {
        '۵'
    } else if c == '6' {
        '۶'
    } else if c == '7' {
        '۷'
    } else if c == '8' {
        '۸'
    } else if c == '9' {
        '۹'
    } else {
        c
    }
}

pub open spec fn persian_digits(s: Seq<char>) -> Seq<char> {
    s.map_values(|c: char| persian_digit(c))
}

/// Replaces ASCII digits by Persian digits.
pub fn to_persian_digits(input: &str) -> (r: String)
    ensures
        r@ == persian_digits(input@),
{
    let v = chars_of(input);
    let mut out: Vec<char> = Vec::new();
    let mut i: usize = 0;
    while i < v.len()
        invariant
            i <= v.len(),
            out@ == persian_digits(v@.subrange(0, i as int)),
        decreases v.len() - i,
    {
        out.push(persian_digit_char(v[i]));
        i = i + 1;
        assert(out@ =~= persian_digits(v@.subrange(0, i as int)));
    }
    assert(v@.subrange(0, v.len() as int) =~= v@);
    string_from_chars(&out)
}

/// Digits of `s` in a numeral style.
pub open spec fn styled(s: Seq<char>, numerals: NumeralStyle) -> Seq<char> {
    match numerals {
        NumeralStyle::Latin => s,
        NumeralStyle::Persian => persian_digits(s),
    }
}

fn style_text(s: String, numerals: NumeralStyle) -> (r: String)
    ensures
        r@ == styled(s@, numerals),
{
    match numerals {
        NumeralStyle::Latin => s,
        NumeralStyle::Persian => to_persian_digits(s.as_str()),
    }
}

/// `HH:MM` text of a time.
pub open spec fn time_text(hour: nat, minute: nat, numerals: NumeralStyle) -> Seq<char> {
    styled(padded_decimal(hour, 2) + seq![':'] + padded_decimal(minute, 2), numerals)
}

/// `format!("{hour:02}:{minute:02}")` in the given digits.
pub fn format_time(hour: u32, minute: u32, numerals: NumeralStyle) -> (r: String)
    ensures
        r@ == time_text(hour as nat, minute as nat, numerals),
{
    let mut raw = padded_to_string(hour as u64, 2);
    push_char(&mut raw, ':');
    let m = padded_to_string(minute as u64, 2);
    raw.append(m.as_str());
    style_text(raw, numerals)
}

/// How a date is written.
#[derive(Debug)]
pub struct DateFormatter {
    pub calendar: CalendarSystem,
    pub numerals: NumeralStyle,
    pub style: DateFormatStyle,
    pub custom_pattern: Option<String>,
    pub show_weekday: bool,
}

/// A number as the formatter writes it.
pub open spec fn num_text(calendar: CalendarSystem, numerals: NumeralStyle, v: int) -> Seq<char> {
    styled(int_decimal(v), effective_numerals_spec(calendar, numerals))
}

/// `a/b/c` with formatted numbers.
pub open spec fn slash_text(
    calendar: CalendarSystem,
    numerals: NumeralStyle,
    a: int,
    b: int,
    c: int,
) -> Seq<char> {
    num_text(calendar, numerals, a) + seq!['/'] + num_text(calendar, numerals, b) + seq!['/']
        + num_text(calendar, numerals, c)
}

/// `day month year` with formatted numbers.
pub open spec fn named_text(
    calendar: CalendarSystem,
    numerals: NumeralStyle,
    day: int,
    month: Seq<char>,
    year: int,
) -> Seq<char> {
    num_text(calendar, numerals, day) + seq![' '] + month + seq![' '] + num_text(
        calendar,
        numerals,
        year,
    )
}

/// Entry `i` (1-based) of a name table, or `---`.
pub open spec fn name_or_dashes(names: Seq<Seq<char>>, i: int) -> Seq<char> {
    if 1 <= i <= names.len() {
        names[i - 1]
    } else {
        "---"@
    }
}

pub open spec fn name_views(v: Seq<String>) -> Seq<Seq<char>> {
    v.map_values(|s: String| s@)
}

/// Expansion of a `%` directive in a custom pattern.
pub open spec fn directive_text(
    f: DateFormatter,
    c: char,
    date: CalendarDate,
    locale: LocaleProfile,
    jalali: bool,
) -> Seq<char> {
    if c == 'Y' {
        num_text(
            f.calendar,
            f.numerals,
            if jalali {
                date.jalali_year as int
            } else {
                date.gregorian.year as int
            },
        )
    } else if c == 'M' {
        if jalali {
            name_or_empty(name_views(locale.month_names@), date.jalali_month as int)
        } else if f.calendar == CalendarSystem::Hijri {
            name_or_empty(name_views(locale.hijri_month_names@), date.hijri_month as int)
        } else if 1 <= date.gregorian.month <= 12 {
            gregorian_month_table()[date.gregorian.month - 1]
        } else {
            num_text(f.calendar, f.numerals, date.gregorian.month as int)
        }
    } else if c == 'D' {
        num_text(
            f.calendar,
            f.numerals,
            if jalali {
                date.jalali_day as int
            } else {
                date.gregorian.day as int
            },
        )
    } else if c == 'W' {
        weekday_name_or(
            if f.calendar == CalendarSystem::Hijri {
                name_views(locale.hijri_weekday_names@)
            } else {
                name_views(locale.weekday_names@)
            },
            date,
            Seq::empty(),
        )
    } else {
        seq!['%', c]
    }
}

/// Entry `i` (1-based) of a name table, or nothing.
pub open spec fn name_or_empty(names: Seq<Seq<char>>, i: int) -> Seq<char> {
    if 1 <= i <= names.len() {
        names[i - 1]
    } else {
        Seq::empty()
    }
}

/// Weekday name of `date` from a table, or `fallback`.
pub open spec fn weekday_name_or(names: Seq<Seq<char>>, date: CalendarDate, fallback: Seq<char>) -> Seq<
    char,
> {
    let i = crate::locale::weekday_index_spec(date.weekday);
    if i < names.len() {
        names[i]
    } else {
        fallback
    }
}

/// Text of a custom pattern: `%Y`, `%M`, `%D` and `%W` are replaced, any other
/// `%x` is kept, and a trailing `%` is kept as is.
pub open spec fn pattern_text(
    f: DateFormatter,
    pat: Seq<char>,
    date: CalendarDate,
    locale: LocaleProfile,
    jalali: bool,
) -> Seq<char>
    decreases pat.len(),
{
    if pat.len() == 0 {
        Seq::empty()
    } else if pat[0] == '%' && pat.len() >= 2 {
        directive_text(f, pat[1], date, locale, jalali) + pattern_text(
            f,
            pat.subrange(2, pat.len() as int),
            date,
            locale,
            jalali,
        )
    } else {
        seq![pat[0]] + pattern_text(f, pat.subrange(1, pat.len() as int), date, locale, jalali)
    }
}

/// The pattern used for the custom style.
pub open spec fn custom_pattern_of(f: DateFormatter) -> Seq<char> {
    match f.custom_pattern {
        Some(p) => p@,
        None => "%D %M %Y"@,
    }
}

/// The date body (without weekday) in the formatter's calendar and style.
pub open spec fn body_text(f: DateFormatter, date: CalendarDate, locale: LocaleProfile) -> Seq<
    char,
> {
    let cal = f.calendar;
    let nums = f.numerals;
    if cal == CalendarSystem::Jalali || cal == CalendarSystem::DualJalaliGregorian {
        match f.style {
            DateFormatStyle::ShortSlash => slash_text(
                cal,
                nums,
                date.jalali_year as int,
                date.jalali_month as int,
                date.jalali_day as int,
            ),
            DateFormatStyle::LongNamed => named_text(
                cal,
                nums,
                date.jalali_day as int,
                name_or_dashes(name_views(locale.month_names@), date.jalali_month as int),
                date.jalali_year as int,
            ),
            DateFormatStyle::Custom => pattern_text(f, custom_pattern_of(f), date, locale, true),
        }
    } else if cal == CalendarSystem::Hijri {
        match f.style {
            DateFormatStyle::ShortSlash => slash_text(
                cal,
                nums,
                date.hijri_year as int,
                date.hijri_month as int,
                date.hijri_day as int,
            ),
            DateFormatStyle::LongNamed => named_text(
                cal,
                nums,
                date.hijri_day as int,
                name_or_dashes(name_views(locale.hijri_month_names@), date.hijri_month as int),
                date.hijri_year as int,
            ),
            DateFormatStyle::Custom => pattern_text(f, custom_pattern_of(f), date, locale, false),
        }
    } else {
        match f.style {
            DateFormatStyle::ShortSlash => slash_text(
                cal,
                nums,
                date.gregorian.year as int,
                date.gregorian.month as int,
                date.gregorian.day as int,
            ),
            DateFormatStyle::LongNamed => named_text(
                cal,
                nums,
                date.gregorian.day as int,
                name_or_dashes(gregorian_month_table(), date.gregorian.month as int),
                date.gregorian.year as int,
            ),
            DateFormatStyle::Custom => pattern_text(f, custom_pattern_of(f), date, locale, false),
        }
    }
}

/// The full formatted date: the weekday name (or `---`) and the body when
/// `show_weekday` is set, else the body.
pub open spec fn formatted(f: DateFormatter, date: CalendarDate, locale: LocaleProfile) -> Seq<
    char,
> {
    if f.show_weekday {
        weekday_name_or(
            if f.calendar == CalendarSystem::Hijri {
                name_views(locale.hijri_weekday_names@)
            } else {
                name_views(locale.weekday_names@)
            },
            date,
            "---"@,
        ) + seq![' '] + body_text(f, date, locale)
    } else {
        body_text(f, date, locale)
    }
}

/// The formatter with another calendar and without the weekday.
pub open spec fn with_calendar_spec(f: DateFormatter, calendar: CalendarSystem) -> DateFormatter {
    DateFormatter {
        calendar,
        numerals: f.numerals,
        style: f.style,
        custom_pattern: f.custom_pattern,
        show_weekday: false,
    }
}

fn clone_opt(o: &Option<String>) -> (r: Option<String>)
    ensures
        r == *o,
{
    match o {
        Some(s) => Some(s.clone()),
        None => None,
    }
}

impl Default for DateFormatter {
    /// Jalali, Persian digits, long named style, with the weekday.
    fn default() -> (f: Self)
        ensures
            f.calendar == CalendarSystem::Jalali,
            f.numerals == NumeralStyle::Persian,
            f.style == DateFormatStyle::LongNamed,
            f.custom_pattern is None,
            f.show_weekday,
    {
        DateFormatter::new_default()
    }
}

impl DateFormatter {
    /// Jalali, Persian digits, long named style, with the weekday.
    pub fn new_default() -> (f: Self)
        ensures
            f.calendar == CalendarSystem::Jalali,
            f.numerals == NumeralStyle::Persian,
            f.style == DateFormatStyle::LongNamed,
            f.custom_pattern is None,
            f.show_weekday,
    {
        DateFormatter {
            calendar: CalendarSystem::Jalali,
            numerals: NumeralStyle::Persian,
            style: DateFormatStyle::LongNamed,
            custom_pattern: None,
            show_weekday: true,
        }
    }

    /// Formats a date for display.
    pub fn format(&self, date: &CalendarDate, locale: &LocaleProfile) -> (s: String)
        requires
            date.wf(),
        ensures
            s@ == formatted(*self, *date, *locale),
    {
        let body = if self.calendar == CalendarSystem::Jalali || self.calendar
            == CalendarSystem::DualJalaliGregorian {
            self.format_jalali(date, locale)
        } else if self.calendar == CalendarSystem::Hijri {
            self.format_hijri(date, locale)
        } else {
            self.format_gregorian(date, locale)
        };
        if self.show_weekday {
            let mut out = match locale.weekday_name(date.weekday, self.calendar) {
                Some(n) => String::from_str(n),
                None => String::from_str("---"),
            };
            push_char(&mut out, ' ');
            out.append(body.as_str());
            out
        } else {
            body
        }
    }

    /// The Gregorian date under the main one, for the dual calendar only.
    pub fn format_secondary(&self, date: &CalendarDate, locale: &LocaleProfile) -> (r: Option<
        String,
    >)
        requires
            date.wf(),
        ensures
            r is Some <==> self.calendar == CalendarSystem::DualJalaliGregorian,
            r matches Some(s) ==> s@ == formatted(
                with_calendar_spec(*self, CalendarSystem::Gregorian),
                *date,
                *locale,
            ),
    {
        if self.calendar != CalendarSystem::DualJalaliGregorian {
            return None;
        }
        Some(self.with_calendar(CalendarSystem::Gregorian).format(date, locale))
    }

    fn with_calendar(&self, calendar: CalendarSystem) -> (f: Self)
        ensures
            f == with_calendar_spec(*self, calendar),
    {
        DateFormatter {
            calendar,
            numerals: self.numerals,
            style: self.style,
            custom_pattern: clone_opt(&self.custom_pattern),
            show_weekday: false,
        }
    }

    fn num(&self, value: i32) -> (s: String)
        ensures
            s@ == num_text(self.calendar, self.numerals, value as int),
    {
        let raw = i64_to_string(value as i64);
        style_text(raw, effective_numerals(self.calendar, self.numerals))
    }

    fn join_slash(&self, a: i32, b: i32, c: i32) -> (s: String)
        ensures
            s@ == slash_text(self.calendar, self.numerals, a as int, b as int, c as int),
    {
        let mut s = self.num(a);
        push_char(&mut s, '/');
        let bs = self.num(b);
        s.append(bs.as_str());
        push_char(&mut s, '/');
        let cs = self.num(c);
        s.append(cs.as_str());
        s
    }

    fn join_named(&self, day: i32, month: &str, year: i32) -> (s: String)
        ensures
            s@ == named_text(self.calendar, self.numerals, day as int, month@, year as int),
    {
        let mut s = self.num(day);
        push_char(&mut s, ' ');
        s.append(month);
        push_char(&mut s, ' ');
        let ys = self.num(year);
        s.append(ys.as_str());
        s
    }

    fn pattern(&self) -> (p: &str)
        ensures
            p@ == custom_pattern_of(*self),
    {
        match &self.custom_pattern {
            Some(p) => p.as_str(),
            None => "%D %M %Y",
        }
    }

    fn format_jalali(&self, date: &CalendarDate, locale: &LocaleProfile) -> (s: String)
        requires
            date.wf(),
            self.calendar == CalendarSystem::Jalali || self.calendar
                == CalendarSystem::DualJalaliGregorian,
        ensures
            s@ == body_text(*self, *date, *locale),
    {
        match self.style {
            DateFormatStyle::ShortSlash => self.join_slash(
                date.jalali_year,
                date.jalali_month as i32,
                date.jalali_day as i32,
            ),
            DateFormatStyle::LongNamed => {
                let month = match locale.month_name(date.jalali_month) {
                    Some(n) => n,
                    None => "---",
                };
                self.join_named(date.jalali_day as i32, month, date.jalali_year)
            },
            DateFormatStyle::Custom => self.apply_pattern(self.pattern(), date, locale, true),
        }
    }

    fn format_hijri(&self, date: &CalendarDate, locale: &LocaleProfile) -> (s: String)
        requires
            date.wf(),
            self.calendar == CalendarSystem::Hijri,
        ensures
            s@ == body_text(*self, *date, *locale),
    {
        match self.style {
            DateFormatStyle::ShortSlash => self.join_slash(
                date.hijri_year,
                date.hijri_month as i32,
                date.hijri_day as i32,
            ),
            DateFormatStyle::LongNamed => {
                let month = match locale.hijri_month_name(date.hijri_month) {
                    Some(n) => n,
                    None => "---",
                };
                self.join_named(date.hijri_day as i32, month, date.hijri_year)
            },
            DateFormatStyle::Custom => self.apply_pattern(self.pattern(), date, locale, false),
        }
    }

    fn format_gregorian(&self, date: &CalendarDate, locale: &LocaleProfile) -> (s: String)
        requires
            date.wf(),
            self.calendar == CalendarSystem::Gregorian,
        ensures
            s@ == body_text(*self, *date, *locale),
    {
        match self.style {
            DateFormatStyle::ShortSlash => self.join_slash(
                date.gregorian.year,
                date.gregorian.month as i32,
                date.gregorian.day as i32,
            ),
            DateFormatStyle::LongNamed => {
                let month = match locale.gregorian_month_name(date.gregorian.month) {
                    Some(n) => n,
                    None => String::from_str("---"),
                };
                self.join_named(date.gregorian.day as i32, month.as_str(), date.gregorian.year)
            },
            DateFormatStyle::Custom => self.apply_pattern(self.pattern(), date, locale, false),
        }
    }

    fn directive(&self, c: char, date: &CalendarDate, locale: &LocaleProfile, jalali: bool) -> (s:
        String)
        requires
            date.wf(),
        ensures
            s@ == directive_text(*self, c, *date, *locale, jalali),
    {
        if c == 'Y' {
            let y = if jalali {
                date.jalali_year
            } else {
                date.gregorian.year
            };
            self.num(y)
        } else if c == 'M' {
            if jalali {
                match locale.month_name(date.jalali_month) {
                    Some(n) => String::from_str(n),
                    None => String::new(),
                }
            } else if self.calendar == CalendarSystem::Hijri {
                match locale.hijri_month_name(date.hijri_month) {
                    Some(n) => String::from_str(n),
                    None => String::new(),
                }
            } else {
                match locale.gregorian_month_name(date.gregorian.month) {
                    Some(n) => n,
                    None => self.num(date.gregorian.month as i32),
                }
            }
        } else if c == 'D' {
            let d = if jalali {
                date.jalali_day as i32
            } else {
                date.gregorian.day as i32
            };
            self.num(d)
        } else if c == 'W' {
            match locale.weekday_name(date.weekday, self.calendar) {
                Some(n) => String::from_str(n),
                None => String::new(),
            }
        } else {
            let mut s = String::new();
            push_char(&mut s, '%');
            push_char(&mut s, c);
            assert(s@ =~= seq!['%', c]);
            s
        }
    }

    fn apply_pattern(
        &self,
        pattern: &str,
        date: &CalendarDate,
        locale: &LocaleProfile,
        jalali: bool,
    ) -> (out: String)
        requires
            date.wf(),
        ensures
            out@ == pattern_text(*self, pattern@, *date, *locale, jalali),
    {
        let chars = chars_of(pattern);
        let mut out = String::new();
        let mut i: usize = 0;
        assert(chars@.subrange(0, chars@.len() as int) =~= pattern@);
        assert(out@ + pattern_text(*self, pattern@, *date, *locale, jalali) =~= pattern_text(
            *self,
            pattern@,
            *date,
            *locale,
            jalali,
        ));
        while i < chars.len()
            invariant
                chars@ == pattern@,
                i <= chars.len(),
                date.wf(),
                out@ + pattern_text(
                    *self,
                    chars@.subrange(i as int, chars@.len() as int),
                    *date,
                    *locale,
                    jalali,
                ) == pattern_text(*self, pattern@, *date, *locale, jalali),
            decreases chars.len() - i,
        {
            let ghost rest = chars@.subrange(i as int, chars@.len() as int);
            let ghost old_out = out@;
            if chars[i] == '%' && i + 1 < chars.len() {
                let piece = self.directive(chars[i + 1], date, locale, jalali);
                out.append(piece.as_str());
                proof {
                    let tail = chars@.subrange(i + 2, chars@.len() as int);
                    assert(rest.subrange(2, rest.len() as int) =~= tail);
                    assert(rest[0] == '%' && rest[1] == chars@[i + 1]);
                    assert(pattern_text(*self, rest, *date, *locale, jalali) == piece@ + pattern_text(
                        *self,
                        tail,
                        *date,
                        *locale,
                        jalali,
                    ));
                    assert((old_out + piece@) + pattern_text(*self, tail, *date, *locale, jalali)
                        =~= old_out + (piece@ + pattern_text(*self, tail, *date, *locale, jalali)));
                }
                i = i + 2;
            } else {
                push_char(&mut out, chars[i]);
                proof {
                    let tail = chars@.subrange(i + 1, chars@.len() as int);
                    assert(rest.subrange(1, rest.len() as int) =~= tail);
                    assert(rest[0] == chars@[i as int]);
                    assert(pattern_text(*self, rest, *date, *locale, jalali) == seq![rest[0]]
                        + pattern_text(*self, tail, *date, *locale, jalali));
                    assert(old_out.push(chars@[i as int]) + pattern_text(
                        *self,
                        tail,
                        *date,
                        *locale,
                        jalali,
                    ) =~= old_out + (seq![rest[0]] + pattern_text(
                        *self,
                        tail,
                        *date,
                        *locale,
                        jalali,
                    )));
                }
                i = i + 1;
            }
        }
        assert(chars@.subrange(chars.len() as int, chars@.len() as int) =~= Seq::<char>::empty());
        assert(out@ + Seq::<char>::empty() =~= out@);
        out
    }
}

} // verus!
