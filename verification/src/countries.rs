//! Country identifiers and the registry of per-country calendar settings.
use vstd::prelude::*;

use crate::locale::Weekday;
use crate::text::{chars_of, lower_seq, owned, str_eq, string_from_chars, to_ascii_lowercase, to_ascii_uppercase, trim, trimmed, upper_seq};

verus! {

/// Calendar country identifier (`snake_case`, e.g. `"iran"`, `"germany"`).
#[derive(Debug)]
pub struct CountryProfile(String);

impl View for CountryProfile {
    type V = Seq<char>;

    open spec fn view(&self) -> Seq<char> {
        self.spec_id()
    }
}

impl CountryProfile {
    pub closed spec fn spec_id(&self) -> Seq<char> {
        self.0@
    }

    pub fn iran() -> (c: Self)
        ensures
            c@ == "iran"@,
    {
        CountryProfile(String::from_str("iran"))
    }

    pub fn afghanistan() -> (c: Self)
        ensures
            c@ == "afghanistan"@,
    {
        CountryProfile(String::from_str("afghanistan"))
    }

    pub fn tajikistan() -> (c: Self)
        ensures
            c@ == "tajikistan"@,
    {
        CountryProfile(String::from_str("tajikistan"))
    }

    /// A profile from a free-form identifier, normalized by [`normalize_id`].
    pub fn new(id: &str) -> (c: Self)
        ensures
            c@ == normalized_id(id@),
    {
        CountryProfile(normalize_id(id))
    }

    pub fn as_str(&self) -> (s: &str)
        ensures
            s@ == self@,
    {
        self.0.as_str()
    }

    /// A copy of this profile.
    pub fn duplicate(&self) -> (c: Self)
        ensures
            c@ == self@,
    {
        CountryProfile(self.0.clone())
    }

    /// Whether two profiles name the same country.
    pub fn same_as(&self, other: &CountryProfile) -> (r: bool)
        ensures
            r == (self@ == other@),
    {
        str_eq(self.0.as_str(), other.0.as_str())
    }

    pub fn is_iran(&self) -> (r: bool)
        ensures
            r == (self@ == "iran"@),
    {
        str_eq(self.0.as_str(), "iran")
    }

    pub fn is_afghanistan(&self) -> (r: bool)
        ensures
            r == (self@ == "afghanistan"@),
    {
        str_eq(self.0.as_str(), "afghanistan")
    }

    pub fn is_tajikistan(&self) -> (r: bool)
        ensures
            r == (self@ == "tajikistan"@),
    {
        str_eq(self.0.as_str(), "tajikistan")
    }

    /// The registry entry of this country.
    pub fn record<'a>(&self, registry: &'a CountryRegistry) -> (r: Option<&'a CountryRecord>)
        requires
            registry.wf(),
        ensures
            r is Some <==> registry.has_id(self@),
            r matches Some(rec) ==> rec.id@ == self@ && registry.records@.contains(*rec),
    {
        registry.get(self.0.as_str())
    }

    /// IANA timezone of the country; `Asia/Tehran` when it is not registered.
    pub fn default_timezone(&self, registry: &CountryRegistry) -> (tz: String)
        requires
            registry.wf(),
        ensures
            registry.has_id(self@) ==> tz@ == registry.record_for(self@).default_timezone@,
            !registry.has_id(self@) ==> tz@ == "Asia/Tehran"@,
    {
        match self.record(registry) {
            Some(r) => r.default_timezone.clone(),
            None => String::from_str("Asia/Tehran"),
        }
    }

    /// First day of the week; Saturday when unknown or unparsable.
    pub fn default_week_start(&self, registry: &CountryRegistry) -> (w: Weekday)
        requires
            registry.wf(),
        ensures
            w == (if registry.has_id(self@) {
                match weekday_from_name(registry.record_for(self@).week_start@) {
                    Some(d) => d,
                    None => Weekday::Saturday,
                }
            } else {
                Weekday::Saturday
            }),
    {
        match self.record(registry) {
            Some(r) => match parse_weekday(r.week_start.as_str()) {
                Some(d) => d,
                None => Weekday::Saturday,
            },
            None => Weekday::Saturday,
        }
    }

    /// Weekend days (unparsable names skipped); Friday when unknown.
    pub fn weekend_days(&self, registry: &CountryRegistry) -> (days: Vec<Weekday>)
        requires
            registry.wf(),
        ensures
            days@ == (if registry.has_id(self@) {
                parsed_weekdays(views_of(registry.record_for(self@).weekend_days@))
            } else {
                seq![Weekday::Friday]
            }),
    {
        match self.record(registry) {
            Some(r) => {
                let mut out: Vec<Weekday> = Vec::new();
                let mut i: usize = 0;
                while i < r.weekend_days.len()
                    invariant
                        i <= r.weekend_days.len(),
                        out@ == parsed_weekdays(views_of(r.weekend_days@.subrange(0, i as int))),
                    decreases r.weekend_days.len() - i,
                {
                    let ghost prev = views_of(r.weekend_days@.subrange(0, i as int));
                    if let Some(d) = parse_weekday(r.weekend_days[i].as_str()) {
                        out.push(d);
                    }
                    i = i + 1;
                    assert(views_of(r.weekend_days@.subrange(0, i as int)).drop_last() =~= prev);
                }
                assert(r.weekend_days@.subrange(0, r.weekend_days.len() as int)
                    =~= r.weekend_days@);
                out
            },
            None => vec![Weekday::Friday],
        }
    }

    /// Identifier of the default prayer calculation method; `mwl` when unknown.
    pub fn prayer_method_id<'a>(&self, registry: &'a CountryRegistry) -> (s: &'a str)
        requires
            registry.wf(),
        ensures
            registry.has_id(self@) ==> s@ == registry.record_for(self@).prayer_method@,
            !registry.has_id(self@) ==> s@ == "mwl"@,
    {
        match self.record(registry) {
            Some(r) => r.prayer_method.as_str(),
            None => "mwl",
        }
    }

    /// Identifier of the default madhab; `jafari` when unknown.
    pub fn prayer_madhab_id<'a>(&self, registry: &'a CountryRegistry) -> (s: &'a str)
        requires
            registry.wf(),
        ensures
            registry.has_id(self@) ==> s@ == registry.record_for(self@).prayer_madhab@,
            !registry.has_id(self@) ==> s@ == "jafari"@,
    {
        match self.record(registry) {
            Some(r) => r.prayer_madhab.as_str(),
            None => "jafari",
        }
    }
}

pub open spec fn views_of(v: Seq<String>) -> Seq<Seq<char>> {
    v.map_values(|s: String| s@)
}

/// Lower-case weekday name, as the registry files spell them.
pub open spec fn weekday_from_name(s: Seq<char>) -> Option<Weekday> {
    if s == "saturday"@ || s == "Saturday"@ {
        Some(Weekday::Saturday)
    } else if s == "sunday"@ || s == "Sunday"@ {
        Some(Weekday::Sunday)
    } else if s == "monday"@ || s == "Monday"@ {
        Some(Weekday::Monday)
    } else if s == "tuesday"@ || s == "Tuesday"@ {
        Some(Weekday::Tuesday)
    } else if s == "wednesday"@ || s == "Wednesday"@ {
        Some(Weekday::Wednesday)
    } else if s == "thursday"@ || s == "Thursday"@ {
        Some(Weekday::Thursday)
    } else if s == "friday"@ || s == "Friday"@ {
        Some(Weekday::Friday)
    } else {
        None
    }
}

/// The weekdays named in `names`, skipping unknown names.
pub open spec fn parsed_weekdays(names: Seq<Seq<char>>) -> Seq<Weekday>
    decreases names.len(),
{
    if names.len() == 0 {
        Seq::empty()
    } else {
        let rest = parsed_weekdays(names.drop_last());
        match weekday_from_name(names.last()) {
            Some(d) => rest.push(d),
            None => rest,
        }
    }
}

/// Parses a weekday name (`snake_case`, or capitalised as older settings wrote it).
pub fn parse_weekday(s: &str) -> (w: Option<Weekday>)
    ensures
        w == weekday_from_name(s@),
{
    if str_eq(s, "saturday") || str_eq(s, "Saturday") {
        Some(Weekday::Saturday)
    } else if str_eq(s, "sunday") || str_eq(s, "Sunday") {
        Some(Weekday::Sunday)
    } else if str_eq(s, "monday") || str_eq(s, "Monday") {
        Some(Weekday::Monday)
    } else if str_eq(s, "tuesday") || str_eq(s, "Tuesday") {
        Some(Weekday::Tuesday)
    } else if str_eq(s, "wednesday") || str_eq(s, "Wednesday") {
        Some(Weekday::Wednesday)
    } else if str_eq(s, "thursday") || str_eq(s, "Thursday") {
        Some(Weekday::Thursday)
    } else if str_eq(s, "friday") || str_eq(s, "Friday") {
        Some(Weekday::Friday)
    } else {
        None
    }
}

pub open spec fn dash_to_underscore(s: Seq<char>) -> Seq<char> {
    s.map_values(|c: char| if c == '-' { '_' } else { c })
}

/// Trimmed, ASCII-lower-cased, `-` replaced by `_`; empty becomes `iran`.
pub open spec fn normalized_id(raw: Seq<char>) -> Seq<char> {
    let id = dash_to_underscore(lower_seq(trimmed(raw)));
    if id.len() == 0 {
        "iran"@
    } else {
        id
    }
}

/// Normalizes a country identifier (see [`normalized_id`]).
pub fn normalize_id(raw: &str) -> (r: String)
    ensures
        r@ == normalized_id(raw@),
{
    let t = trim(raw);
    let low = to_ascii_lowercase(&t);
    let mut out: Vec<char> = Vec::new();
    let mut i: usize = 0;
    while i < low.len()
        invariant
            i <= low.len(),
            out@ == dash_to_underscore(low@.subrange(0, i as int)),
        decreases low.len() - i,
    {
        let c = if low[i] == '-' {
            '_'
        } else {
            low[i]
        };
        out.push(c);
        i = i + 1;
        assert(out@ =~= dash_to_underscore(low@.subrange(0, i as int)));
    }
    assert(low@.subrange(0, low.len() as int) =~= low@);
    if out.len() == 0 {
        String::from_str("iran")
    } else {
        string_from_chars(&out)
    }
}

/// One row of the countries table.
#[derive(Debug)]
pub struct CountryRecord {
    pub id: String,
    pub iso_alpha2: String,
    pub name_en: String,
    pub name_fa: String,
    pub region: String,
    pub default_timezone: String,
    pub week_start: String,
    pub weekend_days: Vec<String>,
    pub default_language: String,
    pub languages: Vec<String>,
    pub prayer_method: String,
    pub prayer_madhab: String,
    pub capital_city_id: String,
}

/// Countries by identifier; no identifier occurs twice.
#[derive(Debug, Default)]
pub struct CountryRegistry {
    pub records: Vec<CountryRecord>,
}

impl CountryRegistry {
    /// Identifiers are unique.
    pub open spec fn wf(&self) -> bool {
        forall|i: int, j: int|
            0 <= i < j < self.records@.len() ==> #[trigger] self.records@[i].id@
                != #[trigger] self.records@[j].id@
    }

    pub open spec fn has_id(&self, id: Seq<char>) -> bool {
        exists|i: int| 0 <= i < self.records@.len() && #[trigger] self.records@[i].id@ == id
    }

    pub open spec fn record_for(&self, id: Seq<char>) -> CountryRecord {
        let i = choose|i: int| 0 <= i < self.records@.len() && #[trigger] self.records@[i].id@ == id;
        self.records@[i]
    }

    /// An empty registry.
    pub fn empty() -> (r: Self)
        ensures
            r.wf(),
            r.records@.len() == 0,
    {
        CountryRegistry { records: Vec::new() }
    }

    /// Position of the record with identifier `id`.
    pub open spec fn position_of(&self, id: Seq<char>) -> int {
        choose|i: int| 0 <= i < self.records@.len() && #[trigger] self.records@[i].id@ == id
    }

    /// Adds a record; a record with the same identifier is replaced, as a map insert does.
    pub fn insert(&mut self, record: CountryRecord)
        requires
            old(self).wf(),
        ensures
            final(self).wf(),
            old(self).has_id(record.id@) ==> final(self).records@ == old(self).records@.update(
                old(self).position_of(record.id@),
                record,
            ),
            !old(self).has_id(record.id@) ==> final(self).records@ == old(self).records@.push(
                record,
            ),
    {
        let ghost id = record.id@;
        let ghost before = self.records@;
        match self.find_index(record.id.as_str()) {
            Some(i) => {
                self.records.set(i, record);
                proof {
                    assert forall|a: int, b: int|
                        0 <= a < b < self.records@.len() implies #[trigger] self.records@[a].id@
                        != #[trigger] self.records@[b].id@ by {
                        if a == i as int {
                            assert(before[b].id@ != before[a].id@);
                        } else if b == i as int {
                            assert(before[a].id@ != before[b].id@);
                        } else {
                            assert(before[a].id@ != before[b].id@);
                        }
                    }
                }
            },
            None => {
                self.records.push(record);
                proof {
                    assert forall|a: int, b: int|
                        0 <= a < b < self.records@.len() implies #[trigger] self.records@[a].id@
                        != #[trigger] self.records@[b].id@ by {
                        if b == before.len() {
                            assert(before[a].id@ != id);
                        } else {
                            assert(before[a].id@ != before[b].id@);
                        }
                    }
                }
            },
        }
    }

    /// Index of the record with identifier `id`.
    fn find_index(&self, id: &str) -> (r: Option<usize>)
        requires
            self.wf(),
        ensures
            r is Some <==> self.has_id(id@),
            r matches Some(i) ==> i < self.records@.len() && self.records@[i as int].id@ == id@
                && i == self.position_of(id@),
            r is None ==> forall|j: int| 0 <= j < self.records@.len() ==> #[trigger] self.records@[j].id@ != id@,
    {
        let mut i: usize = 0;
        while i < self.records.len()
            invariant
                self.wf(),
                i <= self.records.len(),
                forall|j: int| 0 <= j < i ==> #[trigger] self.records@[j].id@ != id@,
            decreases self.records.len() - i,
        {
            if str_eq(self.records[i].id.as_str(), id) {
                proof {
                    assert(self.records@[i as int].id@ == id@);
                    assert(self.has_id(id@));
                    let k = self.position_of(id@);
                    if k != i as int {
                        if k > i as int {
                            assert(self.records@[i as int].id@ != self.records@[k].id@);
                        }
                    }
                }
                return Some(i);
            }
            i = i + 1;
        }
        None
    }

    /// The record with identifier `id`.
    pub fn get(&self, id: &str) -> (r: Option<&CountryRecord>)
        requires
            self.wf(),
        ensures
            r is Some <==> self.has_id(id@),
            r matches Some(rec) ==> rec.id@ == id@ && *rec == self.record_for(id@)
                && self.records@.contains(*rec),
    {
        match self.find_index(id) {
            Some(i) => Some(&self.records[i]),
            None => None,
        }
    }

    pub fn contains(&self, id: &str) -> (r: bool)
        requires
            self.wf(),
        ensures
            r == self.has_id(id@),
    {
        self.get(id).is_some()
    }

    /// Identifier of a country whose ISO 3166 alpha-2 code matches, ignoring ASCII case.
    pub fn iso_to_id(&self, iso_alpha2: &str) -> (r: Option<&str>)
        ensures
            r is None <==> forall|i: int|
                0 <= i < self.records@.len() ==> upper_seq(#[trigger] self.records@[i].iso_alpha2@)
                    != upper_seq(iso_alpha2@),
            r matches Some(id) ==> exists|i: int|
                0 <= i < self.records@.len() && upper_seq(#[trigger] self.records@[i].iso_alpha2@)
                    == upper_seq(iso_alpha2@) && self.records@[i].id@ == id@,
            match iso_first(self.records@, upper_seq(iso_alpha2@)) {
                Some(id) => r matches Some(x) && x@ == id,
                None => r is None,
            },
    {
        let wanted = to_ascii_uppercase(&chars_of(iso_alpha2));
        let mut i: usize = 0;
        while i < self.records.len()
            invariant
                i <= self.records.len(),
                wanted@ == upper_seq(iso_alpha2@),
                iso_first(self.records@.take(i as int), upper_seq(iso_alpha2@)) is None,
                forall|j: int|
                    0 <= j < i ==> upper_seq(#[trigger] self.records@[j].iso_alpha2@) != upper_seq(
                        iso_alpha2@,
                    ),
            decreases self.records.len() - i,
        {
            let code = to_ascii_uppercase(&chars_of(self.records[i].iso_alpha2.as_str()));
            proof {
                assert(self.records@.take(i + 1).drop_last() =~= self.records@.take(i as int));
            }
            if chars_equal(&code, &wanted) {
                proof {
                    lemma_iso_first_prefix(self.records@, i + 1, upper_seq(iso_alpha2@));
                }
                return Some(self.records[i].id.as_str());
            }
            i = i + 1;
        }
        assert(self.records@.take(self.records@.len() as int) =~= self.records@);
        None
    }

    /// The three built-in countries, used when no countries table is installed.
    pub fn fallback() -> (r: Self)
        ensures
            r.wf(),
            r.records@.len() == 3,
            r.records@[0].id@ == "iran"@,
            r.records@[1].id@ == "afghanistan"@,
            r.records@[2].id@ == "tajikistan"@,
            r.records@[0].iso_alpha2@ == "IR"@,
            r.records@[1].iso_alpha2@ == "AF"@,
            r.records@[2].iso_alpha2@ == "TJ"@,
            r.records@[0].default_timezone@ == "Asia/Tehran"@,
            r.records@[1].default_timezone@ == "Asia/Kabul"@,
            r.records@[2].default_timezone@ == "Asia/Dushanbe"@,
            r.records@[0].week_start@ == "saturday"@,
            r.records@[1].week_start@ == "saturday"@,
            r.records@[2].week_start@ == "monday"@,
            views_of(r.records@[0].weekend_days@) == seq!["friday"@],
            views_of(r.records@[1].weekend_days@) == seq!["thursday"@, "friday"@],
            views_of(r.records@[2].weekend_days@) == seq!["saturday"@, "sunday"@],
            r.records@[0].prayer_method@ == "tehran"@,
            r.records@[1].prayer_method@ == "karachi"@,
            r.records@[2].prayer_method@ == "mwl"@,
            r.records@[0].prayer_madhab@ == "jafari"@,
            r.records@[1].prayer_madhab@ == "hanafi"@,
            r.records@[2].prayer_madhab@ == "hanafi"@,
            r.records@[0].name_en@ == "Iran"@,
            r.records@[1].name_en@ == "Afghanistan"@,
            r.records@[2].name_en@ == "Tajikistan"@,
            r.records@[0].name_fa@ == "ایران"@,
            r.records@[1].name_fa@ == "افغانستان"@,
            r.records@[2].name_fa@ == "تاجیکستان"@,
            r.records@[0].region@ == "middle_east"@,
            r.records@[1].region@ == "south_asia"@,
            r.records@[2].region@ == "russia_central_asia"@,
            r.records@[0].default_language@ == "persian"@,
            r.records@[1].default_language@ == "dari"@,
            r.records@[2].default_language@ == "tajik"@,
            views_of(r.records@[0].languages@) == seq!["persian"@, "english"@],
            views_of(r.records@[1].languages@) == seq!["dari"@, "pashto"@, "english"@],
            views_of(r.records@[2].languages@) == seq!["tajik"@, "english"@],
            r.records@[0].capital_city_id@ == "tehran"@,
            r.records@[1].capital_city_id@ == "kabul"@,
            r.records@[2].capital_city_id@ == "dushanbe"@,
    {
        let iran = CountryRecord {
            id: String::from_str("iran"),
            iso_alpha2: String::from_str("IR"),
            name_en: String::from_str("Iran"),
            name_fa: String::from_str("ایران"),
            region: String::from_str("middle_east"),
            default_timezone: String::from_str("Asia/Tehran"),
            week_start: String::from_str("saturday"),
            weekend_days: vec![String::from_str("friday")],
            default_language: String::from_str("persian"),
            languages: vec![String::from_str("persian"), String::from_str("english")],
            prayer_method: String::from_str("tehran"),
            prayer_madhab: String::from_str("jafari"),
            capital_city_id: String::from_str("tehran"),
        };
        let afghanistan = CountryRecord {
            id: String::from_str("afghanistan"),
            iso_alpha2: String::from_str("AF"),
            name_en: String::from_str("Afghanistan"),
            name_fa: String::from_str("افغانستان"),
            region: String::from_str("south_asia"),
            default_timezone: String::from_str("Asia/Kabul"),
            week_start: String::from_str("saturday"),
            weekend_days: vec![String::from_str("thursday"), String::from_str("friday")],
            default_language: String::from_str("dari"),
            languages: vec![
                String::from_str("dari"),
                String::from_str("pashto"),
                String::from_str("english"),
            ],
            prayer_method: String::from_str("karachi"),
            prayer_madhab: String::from_str("hanafi"),
            capital_city_id: String::from_str("kabul"),
        };
        let tajikistan = CountryRecord {
            id: String::from_str("tajikistan"),
            iso_alpha2: String::from_str("TJ"),
            name_en: String::from_str("Tajikistan"),
            name_fa: String::from_str("تاجیکستان"),
            region: String::from_str("russia_central_asia"),
            default_timezone: String::from_str("Asia/Dushanbe"),
            week_start: String::from_str("monday"),
            weekend_days: vec![String::from_str("saturday"), String::from_str("sunday")],
            default_language: String::from_str("tajik"),
            languages: vec![String::from_str("tajik"), String::from_str("english")],
            prayer_method: String::from_str("mwl"),
            prayer_madhab: String::from_str("hanafi"),
            capital_city_id: String::from_str("dushanbe"),
        };
        proof {
            reveal_strlit("iran");
            reveal_strlit("afghanistan");
            reveal_strlit("tajikistan");
        }
        let mut records: Vec<CountryRecord> = Vec::new();
        records.push(iran);
        records.push(afghanistan);
        records.push(tajikistan);
        let r = CountryRegistry { records };
        assert(r.records@[0].id@ == "iran"@);
        assert("iran"@.len() == 4);
        assert(r.records@[0].id@.len() == 4);
        assert(r.records@[1].id@.len() == 11);
        assert(r.records@[2].id@.len() == 10);
        assert(r.records@[0].id@ != r.records@[1].id@);
        assert(r.records@[0].id@ != r.records@[2].id@);
        assert(r.records@[1].id@ != r.records@[2].id@);
        assert(views_of(r.records@[0].weekend_days@) =~= seq!["friday"@]);
        assert(views_of(r.records@[1].weekend_days@) =~= seq!["thursday"@, "friday"@]);
        assert(views_of(r.records@[2].weekend_days@) =~= seq!["saturday"@, "sunday"@]);
        assert(views_of(r.records@[0].languages@) =~= seq!["persian"@, "english"@]);
        assert(views_of(r.records@[1].languages@) =~= seq!["dari"@, "pashto"@, "english"@]);
        assert(views_of(r.records@[2].languages@) =~= seq!["tajik"@, "english"@]);
        r
    }

    /// All records ordered by Persian name (code point order, stable).
    pub fn all_sorted(&self) -> (r: Vec<&CountryRecord>)
        ensures
            r@.len() == self.records@.len(),
            forall|i: int, j: int|
                0 <= i < j < r@.len() ==> seq_le(r@[i].name_fa@, r@[j].name_fa@),
            forall|i: int| 0 <= i < r@.len() ==> self.records@.contains(*#[trigger] r@[i]),
            deref_records(r@).to_multiset() == self.records@.to_multiset(),
    {
        let mut out: Vec<&CountryRecord> = Vec::new();
        let mut i: usize = 0;
        assert(deref_records(out@) =~= Seq::<CountryRecord>::empty());
        assert(self.records@.subrange(0, 0) =~= Seq::<CountryRecord>::empty());
        while i < self.records.len()
            invariant
                i <= self.records.len(),
                out@.len() == i,
                forall|a: int, b: int|
                    0 <= a < b < out@.len() ==> seq_le(out@[a].name_fa@, out@[b].name_fa@),
                deref_records(out@).to_multiset()
                    == self.records@.subrange(0, i as int).to_multiset(),
            decreases self.records.len() - i,
        {
            let item = &self.records[i];
            let name = chars_of(item.name_fa.as_str());
            let mut pos: usize = out.len();
            while pos > 0 && !chars_le(&chars_of(out[pos - 1].name_fa.as_str()), &name)
                invariant
                    pos <= out@.len(),
                    name@ == item.name_fa@,
                    forall|k: int| pos <= k < out@.len() ==> !seq_le(#[trigger] out@[k].name_fa@, name@),
                decreases pos,
            {
                pos = pos - 1;
            }
            let ghost before = out@;

            out.insert(pos, item);
            proof {
                assert forall|a: int, b: int|
                    0 <= a < b < out@.len() implies seq_le(out@[a].name_fa@, out@[b].name_fa@) by {
                    lemma_insert_sorted(before, pos as int, item, a, b);
                }
                assert(deref_records(out@) =~= deref_records(before).insert(pos as int, *item));
                vstd::seq_lib::to_multiset_insert(deref_records(before), pos as int, *item);
                assert(self.records@.subrange(0, i + 1) =~= self.records@.subrange(0, i as int).push(
                    *item,
                ));
                vstd::seq_lib::to_multiset_build(self.records@.subrange(0, i as int), *item);
            }
            i = i + 1;
        }
        proof {
            assert(self.records@.subrange(0, self.records@.len() as int) =~= self.records@);
            assert forall|k: int| 0 <= k < out@.len() implies self.records@.contains(
                *#[trigger] out@[k],
            ) by {
                assert(deref_records(out@)[k] == *out@[k]);
                vstd::seq_lib::to_multiset_contains(deref_records(out@), *out@[k]);
                vstd::seq_lib::to_multiset_contains(self.records@, *out@[k]);
            }
        }
        out
    }
}

/// Lexicographic order on character sequences (code point order, as `str` compares).
pub open spec fn seq_le(a: Seq<char>, b: Seq<char>) -> bool
    decreases a.len(),
{
    if a.len() == 0 {
        true
    } else if b.len() == 0 {
        false
    } else if (a[0] as u32) < (b[0] as u32) {
        true
    } else if (a[0] as u32) == (b[0] as u32) {
        seq_le(a.drop_first(), b.drop_first())
    } else {
        false
    }
}

pub proof fn lemma_seq_le_total2(a: Seq<char>, b: Seq<char>)
    ensures
        seq_le(a, b) || seq_le(b, a),
    decreases a.len(),
{
    if a.len() > 0 && b.len() > 0 && (a[0] as u32) == (b[0] as u32) {
        lemma_seq_le_total2(a.drop_first(), b.drop_first());
    }
}

/// Two texts each ordered before the other are equal.
pub proof fn lemma_seq_le_antisym(a: Seq<char>, b: Seq<char>)
    requires
        seq_le(a, b),
        seq_le(b, a),
    ensures
        a == b,
    decreases a.len(),
{
    if a.len() > 0 && b.len() > 0 {
        lemma_seq_le_antisym(a.drop_first(), b.drop_first());
        assert(a.len() == b.len());
        let (x, y) = (a[0], b[0]);
        assert((x as u32) == (y as u32));
        vstd::utf8::char_u32_cast(x, x as u32);
        vstd::utf8::char_u32_cast(y, y as u32);
        assert(x == y);
        assert forall|i: int| 0 <= i < a.len() implies a[i] == b[i] by {
            if i > 0 {
                assert(a[i] == a.drop_first()[i - 1]);
                assert(b[i] == b.drop_first()[i - 1]);
            }
        }
        assert(a =~= b);
    } else {
        assert(a =~= b);
    }
}

pub proof fn lemma_seq_le_trans(a: Seq<char>, b: Seq<char>, c: Seq<char>)
    requires
        seq_le(a, b),
        seq_le(b, c),
    ensures
        seq_le(a, c),
    decreases a.len(),
{
    if a.len() > 0 && b.len() > 0 && c.len() > 0 && (a[0] as u32) == (b[0] as u32) && (b[0] as u32) == (c[0] as u32) {
        lemma_seq_le_trans(a.drop_first(), b.drop_first(), c.drop_first());
    }
}

proof fn lemma_insert_sorted(
    before: Seq<&CountryRecord>,
    pos: int,
    item: &CountryRecord,
    a: int,
    b: int,
)
    requires
        0 <= pos <= before.len(),
        forall|x: int, y: int|
            0 <= x < y < before.len() ==> seq_le(before[x].name_fa@, before[y].name_fa@),
        forall|k: int|
            pos <= k < before.len() ==> !seq_le(#[trigger] before[k].name_fa@, item.name_fa@),
        pos > 0 ==> seq_le(before[pos - 1].name_fa@, item.name_fa@),
        0 <= a < b < before.len() + 1,
    ensures
        seq_le(before.insert(pos, item)[a].name_fa@, before.insert(pos, item)[b].name_fa@),
{
    let out = before.insert(pos, item);
    let name = item.name_fa@;
    if b < pos {
        assert(out[a] == before[a] && out[b] == before[b]);
    } else if b == pos {
        assert(out[a] == before[a]);
        if a < pos - 1 {
            lemma_seq_le_trans(before[a].name_fa@, before[pos - 1].name_fa@, name);
        }
    } else if a < pos {
        assert(out[a] == before[a] && out[b] == before[b - 1]);
    } else if a == pos {
        assert(out[b] == before[b - 1]);
        lemma_seq_le_total2(before[b - 1].name_fa@, name);
    } else {
        assert(out[a] == before[a - 1] && out[b] == before[b - 1]);
    }
}

pub open spec fn deref_records(s: Seq<&CountryRecord>) -> Seq<CountryRecord> {
    s.map_values(|x: &CountryRecord| *x)
}

pub fn chars_le(a: &Vec<char>, b: &Vec<char>) -> (r: bool)
    ensures
        r == seq_le(a@, b@),
{
    let mut i: usize = 0;
    assert(a@.subrange(0, a@.len() as int) =~= a@);
    assert(b@.subrange(0, b@.len() as int) =~= b@);
    while i < a.len() && i < b.len() && (a[i] as u32) == (b[i] as u32)
        invariant
            i <= a.len(),
            i <= b.len(),
            seq_le(a@, b@) == seq_le(a@.subrange(i as int, a@.len() as int), b@.subrange(
                i as int,
                b@.len() as int,
            )),
        decreases a.len() - i,
    {
        proof {
            let sa = a@.subrange(i as int, a@.len() as int);
            let sb = b@.subrange(i as int, b@.len() as int);
            assert(sa.drop_first() =~= a@.subrange(i + 1, a@.len() as int));
            assert(sb.drop_first() =~= b@.subrange(i + 1, b@.len() as int));
        }
        i = i + 1;
    }
    if i == a.len() {
        true
    } else if i == b.len() {
        false
    } else {
        (a[i] as u32) < (b[i] as u32)
    }
}

fn chars_equal(a: &Vec<char>, b: &Vec<char>) -> (r: bool)
    ensures
        r == (a@ == b@),
{
    if a.len() != b.len() {
        return false;
    }
    let mut i: usize = 0;
    while i < a.len()
        invariant
            a.len() == b.len(),
            i <= a.len(),
            forall|j: int| 0 <= j < i ==> a@[j] == b@[j],
        decreases a.len() - i,
    {
        if a[i] != b[i] {
            return false;
        }
        i = i + 1;
    }
    assert(a@ =~= b@);
    true
}

/// Identifier of the first record whose upper-cased ISO code is `code`.
pub open spec fn iso_first(records: Seq<CountryRecord>, code: Seq<char>) -> Option<Seq<char>>
    decreases records.len(),
{
    if records.len() == 0 {
        None
    } else {
        match iso_first(records.drop_last(), code) {
            Some(x) => Some(x),
            None => if upper_seq(records.last().iso_alpha2@) == code {
                Some(records.last().id@)
            } else {
                None
            },
        }
    }
}

proof fn lemma_iso_first_prefix(records: Seq<CountryRecord>, n: int, code: Seq<char>)
    requires
        0 < n <= records.len(),
        iso_first(records.take(n), code) == Some(records[n - 1].id@),
    ensures
        iso_first(records, code) == Some(records[n - 1].id@),
    decreases records.len() - n,
{
    if n < records.len() {
        assert(records.drop_last().take(n) =~= records.take(n));
        lemma_iso_first_prefix(records.drop_last(), n, code);
    } else {
        assert(records.take(n) =~= records);
    }
}


/// Directory holding the countries table: the data directory itself.
pub fn countries_dir(data_dir: &str) -> (r: String)
    ensures
        r@ == data_dir@,
{
    owned(data_dir)
}

} // verus!
