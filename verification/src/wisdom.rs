//! A saying of the day, chosen by the day of the Jalali year.
use vstd::prelude::*;

use crate::calendar::CalendarDate;
use crate::locale::LanguageVariant;
use crate::paths::{join_path, joined};
use crate::text::{concat2, str_eq, trim, trimmed};

verus! {

/// Localized texts keyed by language code (`fa`, `fa_af`, `ps`, `tg`, `en`).
pub type Localized = Vec<(String, String)>;

/// Sayings with their attribution.
pub struct WisdomStore {
    attribution: Localized,
    quotes: Vec<Localized>,
}

/// Directory of the sayings below the data directory.
pub fn wisdom_dir(data_dir: &str) -> (r: String)
    ensures
        r@ == joined(data_dir@, "wisdom"@),
{
    join_path(data_dir, "wisdom")
}

/// Key of a language in the sayings file.
pub open spec fn lang_key_text(lang: LanguageVariant) -> Seq<char> {
    match lang {
        LanguageVariant::English => "en"@,
        LanguageVariant::Persian => "fa"@,
        LanguageVariant::Dari => "fa_af"@,
        LanguageVariant::Pashto => "ps"@,
        LanguageVariant::Tajik => "tg"@,
    }
}

pub fn lang_key(lang: LanguageVariant) -> (r: &'static str)
    ensures
        r@ == lang_key_text(lang),
{
    match lang {
        LanguageVariant::English => "en",
        LanguageVariant::Persian => "fa",
        LanguageVariant::Dari => "fa_af",
        LanguageVariant::Pashto => "ps",
        LanguageVariant::Tajik => "tg",
    }
}

/// Value stored under `key` (the first entry with that key).
pub open spec fn lookup(map: Seq<(String, String)>, key: Seq<char>) -> Option<Seq<char>>
    decreases map.len(),
{
    if map.len() == 0 {
        None
    } else if map[0].0@ == key {
        Some(map[0].1@)
    } else {
        lookup(map.drop_first(), key)
    }
}

/// Some text that is not blank.
pub open spec fn not_blank(s: Seq<char>) -> bool {
    trimmed(s).len() != 0
}

/// First value of the map that is not blank.
pub open spec fn first_not_blank(map: Seq<(String, String)>) -> Option<Seq<char>>
    decreases map.len(),
{
    if map.len() == 0 {
        None
    } else if not_blank(map[0].1@) {
        Some(map[0].1@)
    } else {
        first_not_blank(map.drop_first())
    }
}

/// The text for a language: its own entry, or the Persian one when it has
/// none, if that is not blank; else the first non-blank entry.
pub open spec fn localized(map: Seq<(String, String)>, lang: LanguageVariant) -> Option<Seq<char>> {
    let primary = match lookup(map, lang_key_text(lang)) {
        Some(v) => Some(v),
        None => lookup(map, "fa"@),
    };
    match primary {
        Some(v) => if not_blank(v) {
            Some(v)
        } else {
            first_not_blank(map)
        },
        None => first_not_blank(map),
    }
}

fn lookup_exec(map: &Localized, key: &str) -> (r: Option<String>)
    ensures
        match lookup(map@, key@) {
            Some(v) => r matches Some(s) && s@ == v,
            None => r is None,
        },
{
    let mut i: usize = 0;
    assert(map@.skip(0) =~= map@);
    while i < map.len()
        invariant
            i <= map@.len(),
            lookup(map@, key@) == lookup(map@.skip(i as int), key@),
        decreases map.len() - i,
    {
        proof {
            assert(map@.skip(i as int)[0] == map@[i as int]);
            assert(map@.skip(i as int).drop_first() =~= map@.skip(i + 1));
        }
        if str_eq(map[i].0.as_str(), key) {
            return Some(map[i].1.clone());
        }
        i = i + 1;
    }
    assert(map@.skip(i as int).len() == 0);
    None
}

fn is_not_blank(s: &str) -> (r: bool)
    ensures
        r == not_blank(s@),
{
    trim(s).len() != 0
}

fn first_not_blank_exec(map: &Localized) -> (r: Option<String>)
    ensures
        match first_not_blank(map@) {
            Some(v) => r matches Some(s) && s@ == v,
            None => r is None,
        },
{
    let mut i: usize = 0;
    assert(map@.skip(0) =~= map@);
    while i < map.len()
        invariant
            i <= map@.len(),
            first_not_blank(map@) == first_not_blank(map@.skip(i as int)),
        decreases map.len() - i,
    {
        proof {
            assert(map@.skip(i as int)[0] == map@[i as int]);
            assert(map@.skip(i as int).drop_first() =~= map@.skip(i + 1));
        }
        if is_not_blank(map[i].1.as_str()) {
            return Some(map[i].1.clone());
        }
        i = i + 1;
    }
    assert(map@.skip(i as int).len() == 0);
    None
}

/// The text of `map` for a language (see [`localized`]).
pub fn localized_text(map: &Localized, lang: LanguageVariant) -> (r: Option<String>)
    ensures
        match localized(map@, lang) {
            Some(v) => r matches Some(s) && s@ == v,
            None => r is None,
        },
{
    let primary = match lookup_exec(map, lang_key(lang)) {
        Some(v) => Some(v),
        None => lookup_exec(map, "fa"),
    };
    match primary {
        Some(v) => {
            if is_not_blank(v.as_str()) {
                Some(v)
            } else {
                first_not_blank_exec(map)
            }
        },
        None => first_not_blank_exec(map),
    }
}

/// Leap years of the 33-year cycle.
pub open spec fn jalali_leap(year: int) -> bool {
    let r = year % 33;
    r == 1 || r == 5 || r == 9 || r == 13 || r == 17 || r == 22 || r == 26 || r == 30
}

pub fn is_jalali_leap(year: i32) -> (r: bool)
    ensures
        r == jalali_leap(year as int),
{
    let shifted: u64 = (year as i64 + 2_147_483_679i64) as u64;
    let r = shifted % 33;
    proof {
        assert(2_147_483_679int == 33 * 65_075_263);
        vstd::arithmetic::div_mod::lemma_mod_add_multiples_vanish(year as int, 33);
        assert((year as int + 33 * 65_075_263) % 33 == (year as int) % 33) by {
            vstd::arithmetic::div_mod::lemma_mod_multiples_vanish(65_075_263, year as int, 33);
        }
    }
    r == 1 || r == 5 || r == 9 || r == 13 || r == 17 || r == 22 || r == 26 || r == 30
}

/// Length of month `i` (0-based) of a Jalali year.
pub open spec fn jalali_month_length(year: int, i: int) -> int {
    if i < 6 {
        31
    } else if i < 11 {
        30
    } else if jalali_leap(year) {
        30
    } else {
        29
    }
}

/// Days in the first `n` months of a Jalali year.
pub open spec fn days_in_first_months(year: int, n: int) -> int
    decreases n,
{
    if n <= 0 {
        0
    } else {
        days_in_first_months(year, n - 1) + jalali_month_length(year, n - 1)
    }
}

/// Zero-based day of the Jalali year of `month/day`: the days of the
/// months before it (at most twelve) plus the day, less one, not below zero.
pub open spec fn day_index(year: int, month: int, day: int) -> int {
    let before = if month <= 1 {
        0
    } else if month - 1 > 12 {
        12
    } else {
        month - 1
    };
    let total = day + days_in_first_months(year, before);
    if total == 0 {
        0
    } else {
        total - 1
    }
}

fn jalali_month_lengths(year: i32) -> (r: Vec<u8>)
    ensures
        r@.len() == 12,
        forall|i: int| 0 <= i < 12 ==> r@[i] as int == jalali_month_length(year as int, i),
{
    let leap = is_jalali_leap(year);
    let mut v: Vec<u8> = Vec::new();
    let mut i: usize = 0;
    while i < 12
        invariant
            leap == jalali_leap(year as int),
            i <= 12,
            v@.len() == i,
            forall|k: int| 0 <= k < i ==> v@[k] as int == jalali_month_length(year as int, k),
        decreases 12 - i,
    {
        let n: u8 = if i < 6 {
            31
        } else if i < 11 {
            30
        } else if leap {
            30
        } else {
            29
        };
        v.push(n);
        i = i + 1;
    }
    v
}

/// Zero-based day of the Jalali year.
pub fn jalali_day_index(year: i32, month: u8, day: u8) -> (r: usize)
    ensures
        r as int == day_index(year as int, month as int, day as int),
{
    let lengths = jalali_month_lengths(year);
    let take: usize = if month <= 1 {
        0
    } else {
        (month - 1) as usize
    };
    let take = if take > 12 {
        12
    } else {
        take
    };
    let mut total: u32 = day as u32;
    let mut i: usize = 0;
    while i < take
        invariant
            take <= 12,
            lengths@.len() == 12,
            forall|k: int| 0 <= k < 12 ==> lengths@[k] as int == jalali_month_length(year as int, k),
            i <= take,
            total as int == day + days_in_first_months(year as int, i as int),
            total <= 255 + 31 * i,
        decreases take - i,
    {
        total = total + lengths[i] as u32;
        i = i + 1;
    }
    let r = if total == 0 {
        0
    } else {
        total - 1
    };
    r as usize
}

impl WisdomStore {
    /// A store of sayings with their attribution.
    pub fn new(attribution: Localized, quotes: Vec<Localized>) -> (s: Self)
        ensures
            s.spec_attribution() == attribution@,
            s.spec_quotes() == quotes@,
    {
        WisdomStore { attribution, quotes }
    }

    pub closed spec fn spec_attribution(&self) -> Seq<(String, String)> {
        self.attribution@
    }

    pub closed spec fn spec_quotes(&self) -> Seq<Localized> {
        self.quotes@
    }

    /// Number of sayings.
    pub fn len(&self) -> (n: usize)
        ensures
            n == self.spec_quotes().len(),
    {
        self.quotes.len()
    }

    /// `"{attribution}:\n{quote}"` for the saying of the date's day of the
    /// Jalali year (cycling through the sayings); none without sayings or
    /// without text for the language.
    pub fn quote_for_date(&self, date: &CalendarDate, lang: LanguageVariant) -> (r: Option<String>)
        ensures
            self.spec_quotes().len() == 0 ==> r is None,
            self.spec_quotes().len() > 0 ==> ({
                let i = day_index(date.jalali_year as int, date.jalali_month as int, date.jalali_day as int)
                    % (self.spec_quotes().len() as int);
                match (localized(self.spec_quotes()[i]@, lang), localized(self.spec_attribution(), lang)) {
                    (Some(q), Some(a)) => r matches Some(s) && s@ == a + ":\n"@ + q,
                    _ => r is None,
                }
            }),
    {
        if self.quotes.len() == 0 {
            return None;
        }
        let index = jalali_day_index(date.jalali_year, date.jalali_month, date.jalali_day) % self.quotes.len();
        let quote = match localized_text(&self.quotes[index], lang) {
            Some(q) => q,
            None => {
                return None;
            },
        };
        let attribution = match localized_text(&self.attribution, lang) {
            Some(a) => a,
            None => {
                return None;
            },
        };
        let mut s = concat2(attribution.as_str(), ":\n");
        s.append(quote.as_str());
        Some(s)
    }
}

} // verus!
