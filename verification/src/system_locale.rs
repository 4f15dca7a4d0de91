//! Mapping the system locale (`LC_TIME`, `LC_ALL`, `LANG`) to a country,
//! language and digit style.
use vstd::prelude::*;

use crate::countries::{iso_first, normalized_id, CountryProfile, CountryRegistry};
use crate::format::NumeralStyle;
use crate::locale::{kind_timezone, profile_kind, LanguageVariant, LocaleProfile};
use crate::text::{chars_of, lower_seq, owned, str_eq, string_from_chars, to_ascii_lowercase, trim, trimmed};

verus! {

/// What the system locale selects.
#[derive(Debug)]
pub struct DetectedLocale {
    pub country: CountryProfile,
    pub language: LanguageVariant,
    pub numerals: NumeralStyle,
    pub locale_code: String,
    pub timezone: String,
}

/// Position of the first `c` in `s` (its length when there is none).
pub open spec fn index_or_len(s: Seq<char>, c: char) -> int
    decreases s.len(),
{
    if s.len() == 0 {
        0
    } else if s[0] == c {
        0
    } else {
        1 + index_or_len(s.drop_first(), c)
    }
}

/// The part of `s` before its first `c`.
pub open spec fn before_first(s: Seq<char>, c: char) -> Seq<char> {
    s.take(index_or_len(s, c))
}

proof fn lemma_index_or_len_bounds(s: Seq<char>, c: char)
    ensures
        0 <= index_or_len(s, c) <= s.len(),
        index_or_len(s, c) < s.len() ==> s[index_or_len(s, c)] == c,
        forall|j: int| 0 <= j < index_or_len(s, c) ==> s[j] != c,
    decreases s.len(),
{
    if s.len() > 0 && s[0] != c {
        lemma_index_or_len_bounds(s.drop_first(), c);
        assert forall|j: int| 0 <= j < index_or_len(s, c) implies s[j] != c by {
            if j > 0 {
                assert(s[j] == s.drop_first()[j - 1]);
            }
        }
    }
}

/// Position of the first `c` in `v`, or its length.
fn find_char(v: &Vec<char>, c: char) -> (r: usize)
    ensures
        r as int == index_or_len(v@, c),
{
    let mut i: usize = 0;
    assert(v@.skip(0) =~= v@);
    while i < v.len() && v[i] != c
        invariant
            i <= v@.len(),
            index_or_len(v@, c) == i + index_or_len(v@.skip(i as int), c),
        decreases v.len() - i,
    {
        proof {
            assert(v@.skip(i as int)[0] == v@[i as int]);
            assert(v@.skip(i as int).drop_first() =~= v@.skip(i + 1));
        }
        i = i + 1;
    }
    proof {
        if i < v.len() {
            assert(v@.skip(i as int)[0] == v@[i as int]);
        } else {
            assert(v@.skip(i as int).len() == 0);
        }
    }
    i
}

/// A locale name without its encoding (`.UTF-8`) and modifier (`@...`), with `-` as `_`.
pub open spec fn normalized_locale(raw: Seq<char>) -> Seq<char> {
    before_first(before_first(raw, '.'), '@').map_values(|c: char| if c == '-' { '_' } else { c })
}

/// Normalizes a locale name (see [`normalized_locale`]).
pub fn normalize_locale_code(raw: &str) -> (r: String)
    ensures
        r@ == normalized_locale(raw@),
{
    let v = chars_of(raw);
    let d = find_char(&v, '.');
    let mut a: Vec<char> = Vec::new();
    let mut i: usize = 0;
    proof {
        lemma_index_or_len_bounds(v@, '.');
    }
    while i < d
        invariant
            d <= v@.len(),
            i <= d,
            a@ == v@.take(i as int),
        decreases d - i,
    {
        a.push(v[i]);
        i = i + 1;
        assert(a@ =~= v@.take(i as int));
    }
    let m = find_char(&a, '@');
    proof {
        lemma_index_or_len_bounds(a@, '@');
    }
    let mut out: Vec<char> = Vec::new();
    let mut k: usize = 0;
    while k < m
        invariant
            m <= a@.len(),
            k <= m,
            out@ == a@.take(k as int).map_values(|c: char| if c == '-' { '_' } else { c }),
        decreases m - k,
    {
        let c = if a[k] == '-' {
            '_'
        } else {
            a[k]
        };
        out.push(c);
        k = k + 1;
        assert(out@ =~= a@.take(k as int).map_values(|c: char| if c == '-' { '_' } else { c }));
    }
    string_from_chars(&out)
}

/// An English locale: `en` or `en_...`, ignoring ASCII case.
pub open spec fn english_locale(code: Seq<char>) -> bool {
    let l = lower_seq(code);
    l == "en"@ || (l.len() >= 3 && l.take(3) == "en_"@)
}

/// Whether a (normalized) locale name is English.
pub fn is_english_locale(code: &str) -> (r: bool)
    ensures
        r == english_locale(code@),
{
    let v = to_ascii_lowercase(&chars_of(code));
    let l = string_from_chars(&v);
    if str_eq(l.as_str(), "en") {
        return true;
    }
    if v.len() >= 3 && v[0] == 'e' && v[1] == 'n' && v[2] == '_' {
        proof {
            reveal_strlit("en_");
            assert(v@.take(3) =~= "en_"@);
        }
        return true;
    }
    proof {
        reveal_strlit("en_");
        if v@.len() >= 3 {
            assert(v@.take(3) != "en_"@) by {
                if v@.take(3) == "en_"@ {
                    assert(v@.take(3)[0] == 'e');
                    assert(v@.take(3)[1] == 'n');
                    assert(v@.take(3)[2] == '_');
                }
            }
        }
    }
    false
}

/// Language of a locale name; English for anything not Persian, Dari, Pashto or Tajik.
pub open spec fn language_of_locale(code: Seq<char>) -> LanguageVariant {
    if code == "fa_IR"@ || code == "fa"@ {
        LanguageVariant::Persian
    } else if code == "fa_AF"@ {
        LanguageVariant::Dari
    } else if code == "ps_AF"@ || code == "ps"@ {
        LanguageVariant::Pashto
    } else if code == "tg_TJ"@ || code == "tg"@ {
        LanguageVariant::Tajik
    } else {
        LanguageVariant::English
    }
}

pub fn language_from_locale_code(code: &str) -> (r: LanguageVariant)
    ensures
        r == language_of_locale(code@),
{
    if str_eq(code, "fa_IR") || str_eq(code, "fa") {
        LanguageVariant::Persian
    } else if str_eq(code, "fa_AF") {
        LanguageVariant::Dari
    } else if str_eq(code, "ps_AF") || str_eq(code, "ps") {
        LanguageVariant::Pashto
    } else if str_eq(code, "tg_TJ") || str_eq(code, "tg") {
        LanguageVariant::Tajik
    } else {
        LanguageVariant::English
    }
}

/// Country of a locale name: the registry country of the region after the
/// first `_` (matched by ISO code), else Iran.
pub open spec fn country_of_locale(code: Seq<char>, records: Seq<crate::countries::CountryRecord>) -> Seq<char> {
    let i = index_or_len(code, '_');
    if i < code.len() {
        match iso_first(records, crate::text::upper_seq(code.skip(i + 1))) {
            Some(id) => normalized_id(id),
            None => "iran"@,
        }
    } else {
        "iran"@
    }
}

pub fn country_from_locale_code(code: &str, registry: &CountryRegistry) -> (r: CountryProfile)
    ensures
        r@ == country_of_locale(code@, registry.records@),
{
    let v = chars_of(code);
    let i = find_char(&v, '_');
    proof {
        lemma_index_or_len_bounds(v@, '_');
    }
    if i < v.len() {
        let mut region: Vec<char> = Vec::new();
        let mut k: usize = i + 1;
        while k < v.len()
            invariant
                i < v@.len(),
                i + 1 <= k <= v@.len(),
                region@ == v@.subrange(i + 1, k as int),
            decreases v.len() - k,
        {
            region.push(v[k]);
            k = k + 1;
            assert(region@ =~= v@.subrange(i + 1, k as int));
        }
        assert(region@ =~= v@.skip(i + 1));
        let rs = string_from_chars(&region);
        match registry.iso_to_id(rs.as_str()) {
            Some(id) => CountryProfile::new(id),
            None => CountryProfile::iran(),
        }
    } else {
        CountryProfile::iran()
    }
}

/// Country, language, digits and recorded locale name selected by a locale name.
pub open spec fn locale_choice(code: Seq<char>, records: Seq<crate::countries::CountryRecord>) -> (
    Seq<char>,
    LanguageVariant,
    NumeralStyle,
    Seq<char>,
) {
    if code == "fa_IR"@ {
        ("iran"@, LanguageVariant::Persian, NumeralStyle::Persian, "fa_IR"@)
    } else if code == "fa_AF"@ {
        ("afghanistan"@, LanguageVariant::Dari, NumeralStyle::Persian, "fa_AF"@)
    } else if code == "ps_AF"@ || code == "ps"@ {
        ("afghanistan"@, LanguageVariant::Pashto, NumeralStyle::Persian, "ps_AF"@)
    } else if code == "tg_TJ"@ || code == "tg"@ {
        ("tajikistan"@, LanguageVariant::Tajik, NumeralStyle::Latin, "tg_TJ"@)
    } else if code == "fa"@ {
        ("iran"@, LanguageVariant::Persian, NumeralStyle::Persian, "fa_IR"@)
    } else if english_locale(code) {
        (country_of_locale(code, records), LanguageVariant::English, NumeralStyle::Latin, code)
    } else if index_or_len(code, '_') < code.len() {
        (country_of_locale(code, records), language_of_locale(code), NumeralStyle::Latin, code)
    } else {
        ("iran"@, LanguageVariant::Persian, NumeralStyle::Persian, code)
    }
}

/// What a (normalized) locale name selects; the timezone is the system's
/// when it reports one, else the default of the selected profile.
pub fn map_locale_code(code: &str, registry: &CountryRegistry, system_timezone: Option<String>) -> (d: DetectedLocale)
    ensures
        ({
            let t = locale_choice(code@, registry.records@);
            &&& d.country@ == t.0
            &&& d.language == t.1
            &&& d.numerals == t.2
            &&& d.locale_code@ == t.3
            &&& d.timezone@ == (match system_timezone {
                Some(tz) => tz@,
                None => kind_timezone(profile_kind(t.0, t.1)),
            })
        }),
{
    proof {
        lemma_index_or_len_bounds(code@, '_');
    }
    let (country, language, numerals, locale_code) = if str_eq(code, "fa_IR") {
        (CountryProfile::iran(), LanguageVariant::Persian, NumeralStyle::Persian, owned("fa_IR"))
    } else if str_eq(code, "fa_AF") {
        (CountryProfile::afghanistan(), LanguageVariant::Dari, NumeralStyle::Persian, owned("fa_AF"))
    } else if str_eq(code, "ps_AF") || str_eq(code, "ps") {
        (CountryProfile::afghanistan(), LanguageVariant::Pashto, NumeralStyle::Persian, owned("ps_AF"))
    } else if str_eq(code, "tg_TJ") || str_eq(code, "tg") {
        (CountryProfile::tajikistan(), LanguageVariant::Tajik, NumeralStyle::Latin, owned("tg_TJ"))
    } else if str_eq(code, "fa") {
        (CountryProfile::iran(), LanguageVariant::Persian, NumeralStyle::Persian, owned("fa_IR"))
    } else if is_english_locale(code) {
        (country_from_locale_code(code, registry), LanguageVariant::English, NumeralStyle::Latin, owned(code))
    } else if find_char(&chars_of(code), '_') < code.unicode_len() {
        (country_from_locale_code(code, registry), language_from_locale_code(code), NumeralStyle::Latin, owned(code))
    } else {
        (CountryProfile::iran(), LanguageVariant::Persian, NumeralStyle::Persian, owned(code))
    };
    let timezone = match system_timezone {
        Some(tz) => tz,
        None => LocaleProfile::resolve(country.duplicate(), language).default_timezone,
    };
    DetectedLocale { country, language, numerals, locale_code, timezone }
}

/// The locale name the environment selects: the first of `LC_TIME`,
/// `LC_ALL`, `LANG` (given in that order) that is set, not blank, and not
/// `C` or `POSIX` once trimmed, normalized.
pub open spec fn env_locale(values: Seq<Option<Seq<char>>>) -> Option<Seq<char>>
    decreases values.len(),
{
    if values.len() == 0 {
        None
    } else {
        match values[0] {
            Some(v) => {
                let t = trimmed(v);
                if t.len() != 0 && t != "C"@ && t != "POSIX"@ {
                    Some(normalized_locale(t))
                } else {
                    env_locale(values.drop_first())
                }
            },
            None => env_locale(values.drop_first()),
        }
    }
}

pub open spec fn option_views(values: Seq<Option<String>>) -> Seq<Option<Seq<char>>> {
    values.map_values(|o: Option<String>| match o {
        Some(s) => Some(s@),
        None => None,
    })
}

/// The locale name from the values of `LC_TIME`, `LC_ALL` and `LANG`.
pub fn env_locale_code(values: &Vec<Option<String>>) -> (r: Option<String>)
    ensures
        match env_locale(option_views(values@)) {
            Some(c) => r matches Some(s) && s@ == c,
            None => r is None,
        },
{
    let mut i: usize = 0;
    assert(option_views(values@).skip(0) =~= option_views(values@));
    while i < values.len()
        invariant
            i <= values@.len(),
            env_locale(option_views(values@)) == env_locale(option_views(values@).skip(i as int)),
        decreases values.len() - i,
    {
        proof {
            assert(option_views(values@).skip(i as int).drop_first() =~= option_views(values@).skip(i + 1));
            assert(option_views(values@).skip(i as int)[0] == option_views(values@)[i as int]);
        }
        match &values[i] {
            Some(v) => {
                let t = trim(v.as_str());
                let ts = string_from_chars(&t);
                if t.len() != 0 && !str_eq(ts.as_str(), "C") && !str_eq(ts.as_str(), "POSIX") {
                    return Some(normalize_locale_code(ts.as_str()));
                }
            },
            None => {},
        }
        i = i + 1;
    }
    assert(option_views(values@).skip(i as int).len() == 0);
    None
}

/// What the environment's locale selects (`fa_IR` when none is set).
pub fn detect_from_env(values: &Vec<Option<String>>, registry: &CountryRegistry, system_timezone: Option<String>) -> (d: DetectedLocale)
    ensures
        ({
            let code = match env_locale(option_views(values@)) {
                Some(c) => c,
                None => "fa_IR"@,
            };
            let t = locale_choice(code, registry.records@);
            &&& d.country@ == t.0
            &&& d.language == t.1
            &&& d.numerals == t.2
            &&& d.locale_code@ == t.3
            &&& d.timezone@ == (match system_timezone {
                Some(tz) => tz@,
                None => kind_timezone(profile_kind(t.0, t.1)),
            })
        }),
{
    let code = match env_locale_code(values) {
        Some(c) => c,
        None => owned("fa_IR"),
    };
    map_locale_code(code.as_str(), registry, system_timezone)
}

} // verus!
