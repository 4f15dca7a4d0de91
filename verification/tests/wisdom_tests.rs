use boloot_cal_core::calendar::{CalendarDate, CalendarEngine};
use boloot_cal_core::countries::CountryProfile;
use boloot_cal_core::gregorian::GregorianDate;
use boloot_cal_core::locale::LanguageVariant;
use boloot_cal_core::wisdom::{is_jalali_leap, jalali_day_index, lang_key, localized_text, WisdomStore};

fn entries(items: &[(&str, &str)]) -> Vec<(String, String)> {
    items.iter().map(|(k, v)| (k.to_string(), v.to_string())).collect()
}

fn store() -> WisdomStore {
    let attribution = entries(&[
        ("fa", "امیرالمومنین علی علیه السلام"),
        ("fa_af", "امیرالمومنین علی علیه السلام"),
        ("ps", "امیرالمومنین علی علیه السلام"),
        ("tg", "Имом Алӣ (а)"),
        ("en", "Imam Ali (AS)"),
    ]);
    let quotes = (0..7)
        .map(|i| {
            entries(&[
                ("fa", &format!("سخن {i}")),
                ("fa_af", &format!("سخن {i}")),
                ("ps", &format!("خبره {i}")),
                ("tg", &format!("Сухан {i}")),
                ("en", &format!("Saying {i}")),
            ])
        })
        .collect();
    WisdomStore::new(attribution, quotes)
}

fn date_for(y: i32, m: u32, d: u32) -> CalendarDate {
    CalendarEngine::new(CountryProfile::iran(), LanguageVariant::Persian)
        .on_date(GregorianDate::from_ymd_opt(y, m, d).unwrap())
        .unwrap()
}

#[test]
fn quote_selection_is_stable_for_same_date() {
    let store = store();
    let date = date_for(2026, 3, 20);
    let first = store.quote_for_date(&date, LanguageVariant::Persian);
    let second = store.quote_for_date(&date, LanguageVariant::Persian);
    assert_eq!(first, second);
    assert!(first.unwrap().starts_with("امیرالمومنین علی علیه السلام:"));
}

#[test]
fn quote_includes_attribution() {
    let store = store();
    let date = date_for(2026, 7, 10);
    let quote = store.quote_for_date(&date, LanguageVariant::Persian).expect("quote should exist");
    assert!(quote.starts_with("امیرالمومنین علی علیه السلام:"));
    let lines: Vec<&str> = quote.splitn(2, '\n').collect();
    assert_eq!(lines.len(), 2);
    assert!(!lines[1].trim().is_empty());
}

#[test]
fn english_quote_uses_latin_attribution() {
    let store = store();
    let date = date_for(2026, 7, 10);
    let quote = store.quote_for_date(&date, LanguageVariant::English).expect("quote should exist");
    assert!(quote.starts_with("Imam Ali (AS):"));
}

#[test]
fn tajik_quote_uses_cyrillic() {
    let store = store();
    let date = date_for(2026, 1, 15);
    let quote = store.quote_for_date(&date, LanguageVariant::Tajik).expect("quote should exist");
    assert!(quote.contains("Имом"));
}

#[test]
fn language_fallback_to_persian() {
    let store = store();
    let date = date_for(2026, 5, 5);
    let quote = store.quote_for_date(&date, LanguageVariant::Dari).expect("quote should exist");
    assert!(!quote.is_empty());
}

#[test]
fn day_index_picks_the_quote() {
    assert_eq!(jalali_day_index(1404, 1, 1), 0);
    assert_eq!(jalali_day_index(1404, 7, 1), 186);
    assert_eq!(jalali_day_index(1403, 12, 30), 365);
    assert_eq!(jalali_day_index(1404, 0, 0), 0);
    assert!(is_jalali_leap(1403));
    assert!(!is_jalali_leap(1404));
    assert!(is_jalali_leap(-32));
    let store = store();
    assert_eq!(store.len(), 7);
    let quote = store.quote_for_date(&date_for(2025, 3, 21), LanguageVariant::English).unwrap();
    assert_eq!(quote, "Imam Ali (AS):\nSaying 0");
    assert!(WisdomStore::new(vec![], vec![]).quote_for_date(&date_for(2025, 3, 21), LanguageVariant::English).is_none());
}

#[test]
fn localized_text_falls_back() {
    let map = entries(&[("fa", "فارسی"), ("en", "  "), ("tg", "тоҷикӣ")]);
    assert_eq!(localized_text(&map, LanguageVariant::Persian), Some("فارسی".into()));
    assert_eq!(localized_text(&map, LanguageVariant::English), Some("فارسی".into()));
    assert_eq!(localized_text(&map, LanguageVariant::Pashto), Some("فارسی".into()));
    let map = entries(&[("fa", " "), ("tg", "тоҷикӣ")]);
    assert_eq!(localized_text(&map, LanguageVariant::Dari), Some("тоҷикӣ".into()));
    assert_eq!(localized_text(&entries(&[]), LanguageVariant::Dari), None);
    assert_eq!(lang_key(LanguageVariant::Dari), "fa_af");
}
