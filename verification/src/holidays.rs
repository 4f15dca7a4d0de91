//! Official holidays: fixed Jalali dates and lunar (Hijri) dates resolved per year.
use vstd::prelude::*;

use crate::backend::{gregorian_of_hijri, hijri_from_gregorian, hijri_lookup_panics, hijri_of_gregorian, hijri_to_gregorian_parts, persian_epoch_day, persian_month_days, persian_offset, persian_valid};
use crate::calendar::{hijri_len, hijri_ok, CalendarDate, CalendarEngine};
use crate::countries::{chars_le, lemma_seq_le_total2, lemma_seq_le_trans, seq_le, CountryProfile};
use crate::gregorian::{lemma_day_number_injective, next_day, GregorianDate, MAX_YEAR};
use crate::persian_lemmas::lemma_offset_injective;
use crate::paths::{join_path, joined};
use crate::text::{chars_of, str_eq};

verus! {

/// What kind of day off a holiday is.
#[derive(Debug, Clone, Copy, PartialEq, Eq, Structural)]
pub enum HolidayKind {
    National,
    Religious,
    Cultural,
}

/// A holiday placed on a Jalali date of a given year.
#[derive(Debug)]
pub struct Holiday {
    pub name: String,
    pub jalali_month: u8,
    pub jalali_day: u8,
    pub jalali_year: i32,
    pub is_lunar: bool,
    pub hijri_month: Option<u8>,
    pub hijri_day: Option<u8>,
    pub kind: HolidayKind,
}

impl Holiday {
    pub fn duplicate(&self) -> (h: Holiday)
        ensures
            h == *self,
    {
        Holiday {
            name: self.name.clone(),
            jalali_month: self.jalali_month,
            jalali_day: self.jalali_day,
            jalali_year: self.jalali_year,
            is_lunar: self.is_lunar,
            hijri_month: self.hijri_month,
            hijri_day: self.hijri_day,
            kind: self.kind,
        }
    }
}

/// A holiday as listed in a country's data: a Jalali month/day, or, when
/// `lunar`, a Hijri month/day; optionally tied to one Jalali year.
#[derive(Debug)]
pub struct HolidayTemplate {
    pub name: String,
    pub month: u8,
    pub day: u8,
    pub lunar: bool,
    pub fixed_jalali_year: Option<i32>,
    pub kind: HolidayKind,
}

/// The Jalali date whose day number is `n`.
pub open spec fn jalali_of_day(n: int) -> (int, int, int) {
    choose|t: (int, int, int)|
        #[trigger] persian_valid(t.0, t.1, t.2) && persian_epoch_day() + persian_offset(
            t.0,
            t.1,
            t.2,
        ) == n
}

/// The Gregorian date whose day number is `n`.
pub open spec fn gregorian_of_day(n: int) -> GregorianDate {
    choose|g: GregorianDate| #[trigger] g.wf() && g.day_number() == n
}

pub proof fn lemma_jalali_of_day(y: int, m: int, d: int)
    requires
        persian_valid(y, m, d),
    ensures
        jalali_of_day(persian_epoch_day() + persian_offset(y, m, d)) == (y, m, d),
{
    let n = persian_epoch_day() + persian_offset(y, m, d);
    let w = (y, m, d);
    assert(persian_valid(w.0, w.1, w.2) && persian_epoch_day() + persian_offset(w.0, w.1, w.2)
        == n);
    let t = jalali_of_day(n);
    lemma_offset_injective(t.0, t.1, t.2, y, m, d);
}

pub proof fn lemma_gregorian_of_day(g: GregorianDate)
    requires
        g.wf(),
    ensures
        gregorian_of_day(g.day_number()) == g,
{
    let h = gregorian_of_day(g.day_number());
    lemma_day_number_injective(h, g);
}

/// Hijri year of a Gregorian date, when `hijri_date` can convert it.
pub open spec fn hijri_year_of(g: GregorianDate) -> Option<int> {
    match hijri_of_gregorian(g.year as usize, g.month as usize, g.day as usize) {
        Ok(h) => Some(h.0 as int),
        Err(_) => None,
    }
}

/// Hijri years in which Jalali year `y` starts and ends.
pub open spec fn hijri_years_of_jalali(y: int) -> Option<(int, int)> {
    if 1 <= y <= 9998 {
        let s = gregorian_of_day(persian_epoch_day() + persian_offset(y, 1, 1));
        let e = gregorian_of_day(
            persian_epoch_day() + persian_offset(y, 12, persian_month_days(y, 12)),
        );
        match (hijri_year_of(s), hijri_year_of(e)) {
            (Some(a), Some(b)) => Some((a, b)),
            _ => None,
        }
    } else {
        None
    }
}

/// Jalali month and day of Hijri date `hy/m/d` if it falls in Jalali year
/// `y`, trying Hijri years `hy..=end` in turn; a failed conversion ends the search.
pub open spec fn lunar_scan(m: int, d: int, y: int, hy: int, end: int) -> Option<(int, int)>
    decreases end + 1 - hy,
{
    if hy > end {
        None
    } else {
        match gregorian_of_hijri(hy as usize, m as usize, d as usize) {
            Err(_) => None,
            Ok(t) => {
                let g = GregorianDate { year: t.0 as i32, month: t.1 as u32, day: t.2 as u32 };
                if !g.wf() || !hijri_ok(g) {
                    None
                } else {
                    let j = jalali_of_day(g.day_number());
                    if j.0 == y {
                        Some((j.1, j.2))
                    } else {
                        lunar_scan(m, d, y, hy + 1, end)
                    }
                }
            },
        }
    }
}

/// Jalali month and day of the lunar holiday `m/d` in Jalali year `y`.
pub open spec fn lunar_jalali(m: int, d: int, y: int) -> Option<(int, int)> {
    match hijri_years_of_jalali(y) {
        Some(r) => lunar_scan(m, d, y, r.0, r.1),
        None => None,
    }
}

/// Jalali month and day on which template `t` falls in year `y`.
pub open spec fn resolved(t: HolidayTemplate, y: int) -> Option<(int, int)> {
    if t.lunar {
        lunar_jalali(t.month as int, t.day as int, y)
    } else if t.fixed_jalali_year matches Some(fy) && fy != y {
        None
    } else {
        Some((t.month as int, t.day as int))
    }
}

/// The holiday of template `t` placed on `y/m/d`.
pub open spec fn holiday_of(t: HolidayTemplate, y: int, m: int, d: int) -> Holiday {
    Holiday {
        name: t.name,
        jalali_month: m as u8,
        jalali_day: d as u8,
        jalali_year: y as i32,
        is_lunar: t.lunar,
        hijri_month: if t.lunar {
            Some(t.month)
        } else {
            None
        },
        hijri_day: if t.lunar {
            Some(t.day)
        } else {
            None
        },
        kind: t.kind,
    }
}

/// The holidays of templates `ts` that fall in Jalali month `y/month`, in template order.
pub open spec fn month_holidays(ts: Seq<HolidayTemplate>, y: int, month: int) -> Seq<Holiday>
    decreases ts.len(),
{
    if ts.len() == 0 {
        Seq::empty()
    } else {
        let rest = month_holidays(ts.drop_last(), y, month);
        match resolved(ts.last(), y) {
            Some(md) => if md.0 == month {
                rest.push(holiday_of(ts.last(), y, md.0, md.1))
            } else {
                rest
            },
            None => rest,
        }
    }
}

/// The holidays of `hs` on day `d`, in order.
pub open spec fn on_day(hs: Seq<Holiday>, d: int) -> Seq<Holiday>
    decreases hs.len(),
{
    if hs.len() == 0 {
        Seq::empty()
    } else {
        let rest = on_day(hs.drop_last(), d);
        if hs.last().jalali_day == d {
            rest.push(hs.last())
        } else {
            rest
        }
    }
}

/// The holidays of templates `ts` on the Jalali date `y/m/d`.
pub open spec fn day_holidays(ts: Seq<HolidayTemplate>, y: int, m: int, d: int) -> Seq<Holiday> {
    on_day(month_holidays(ts, y, m), d)
}

/// The holidays of months `1..=k` of Jalali year `y`, month by month.
pub open spec fn year_holidays(ts: Seq<HolidayTemplate>, y: int, k: int) -> Seq<Holiday>
    decreases k,
{
    if k <= 0 {
        Seq::empty()
    } else {
        year_holidays(ts, y, k - 1) + month_holidays(ts, y, k)
    }
}

/// A template can be resolved without a failing table lookup.
pub open spec fn template_ok(t: HolidayTemplate) -> bool {
    t.lunar ==> t.month >= 1
}

/// Holiday templates per country.
pub struct HolidayStore {
    countries: Vec<String>,
    templates: Vec<Vec<HolidayTemplate>>,
}

impl Default for HolidayStore {
    /// A store with no holidays.
    fn default() -> (s: Self)
        ensures
            s.wf(),
            forall|id: Seq<char>| #[trigger] s.templates_of(id) == Seq::<HolidayTemplate>::empty(),
    {
        HolidayStore::new()
    }
}

impl HolidayStore {
    pub closed spec fn has(&self, id: Seq<char>) -> bool {
        exists|i: int| 0 <= i < self.countries@.len() && #[trigger] self.countries@[i]@ == id
    }

    pub closed spec fn index_of(&self, id: Seq<char>) -> int {
        choose|i: int| 0 <= i < self.countries@.len() && #[trigger] self.countries@[i]@ == id
    }

    /// The templates of country `id` (none for an unknown country).
    pub closed spec fn templates_of(&self, id: Seq<char>) -> Seq<HolidayTemplate> {
        if self.has(id) {
            self.templates@[self.index_of(id)]@
        } else {
            Seq::empty()
        }
    }

    pub closed spec fn wf(&self) -> bool {
        &&& self.countries@.len() == self.templates@.len()
        &&& forall|a: int, b: int|
            0 <= a < b < self.countries@.len() ==> #[trigger] self.countries@[a]@
                != #[trigger] self.countries@[b]@
        &&& forall|i: int, j: int|
            0 <= i < self.templates@.len() && 0 <= j < self.templates@[i]@.len()
                ==> template_ok(#[trigger] self.templates@[i]@[j])
    }

    /// A store with no holidays.
    pub fn new() -> (s: Self)
        ensures
            s.wf(),
            forall|id: Seq<char>| #[trigger] s.templates_of(id) == Seq::<HolidayTemplate>::empty(),
    {
        HolidayStore { countries: Vec::new(), templates: Vec::new() }
    }

    /// Sets the templates of a country, replacing any it had.
    pub fn insert(&mut self, country_id: String, templates: Vec<HolidayTemplate>)
        requires
            old(self).wf(),
            forall|j: int| 0 <= j < templates@.len() ==> template_ok(#[trigger] templates@[j]),
        ensures
            final(self).wf(),
            final(self).templates_of(country_id@) == templates@,
            forall|id: Seq<char>|
                id != country_id@ ==> #[trigger] final(self).templates_of(id) == old(
                    self,
                ).templates_of(id),
    {
        let ghost id = country_id@;
        let ghost ts = templates@;
        let ghost old_c = self.countries@;
        let ghost old_t = self.templates@;
        let ghost old_self = *self;
        match self.find(country_id.as_str()) {
            Some(i) => {
                self.templates.set(i, templates);
                proof {
                    assert(self.countries@ == old_c);
                    assert forall|other: Seq<char>| other != id implies #[trigger] self.templates_of(
                        other,
                    ) == old_self.templates_of(other) by {
                        if old_self.has(other) {
                            let k = old_self.index_of(other);
                            assert(self.countries@[k]@ == other);
                            assert(self.has(other));
                            let k2 = self.index_of(other);
                            if k2 != k {
                                if k < k2 {
                                    assert(old_c[k]@ != old_c[k2]@);
                                } else {
                                    assert(old_c[k2]@ != old_c[k]@);
                                }
                            }
                            assert(k != i as int);
                        } else {
                            assert(!self.has(other));
                        }
                    }
                    assert(self.has(id)) by {
                        assert(self.countries@[i as int]@ == id);
                    }
                    let k = self.index_of(id);
                    if k != i as int {
                        if k < i as int {
                            assert(old_c[k]@ != old_c[i as int]@);
                        } else {
                            assert(old_c[i as int]@ != old_c[k]@);
                        }
                    }
                }
            },
            None => {
                self.countries.push(country_id);
                self.templates.push(templates);
                proof {
                    let n = old_c.len() as int;
                    assert forall|a: int, b: int|
                        0 <= a < b < self.countries@.len() implies #[trigger] self.countries@[a]@
                        != #[trigger] self.countries@[b]@ by {
                        if b == n {
                            assert(old_c[a]@ != id);
                        } else {
                            assert(old_c[a]@ != old_c[b]@);
                        }
                    }
                    assert forall|other: Seq<char>| other != id implies #[trigger] self.templates_of(
                        other,
                    ) == old_self.templates_of(other) by {
                        if old_self.has(other) {
                            let k = old_self.index_of(other);
                            assert(self.countries@[k]@ == other);
                            let k2 = self.index_of(other);
                            if k2 != k {
                                if k2 == n {
                                    assert(false);
                                } else if k < k2 {
                                    assert(old_c[k]@ != old_c[k2]@);
                                } else {
                                    assert(old_c[k2]@ != old_c[k]@);
                                }
                            }
                        } else {
                            if self.has(other) {
                                let k2 = self.index_of(other);
                                if k2 < n {
                                    assert(old_c[k2]@ == other);
                                    assert(old_self.has(other));
                                }
                            }
                        }
                    }
                    assert(self.countries@[n]@ == id);
                    assert(self.has(id));
                    let k = self.index_of(id);
                    if k < n {
                        assert(old_c[k]@ == id);
                    }
                }
            },
        }
    }

    /// Position of the country `id`.
    fn find(&self, id: &str) -> (r: Option<usize>)
        requires
            self.wf(),
        ensures
            r is None <==> !self.has(id@),
            r matches Some(i) ==> i < self.countries@.len() && self.countries@[i as int]@ == id@
                && i == self.index_of(id@),
    {
        let mut i: usize = 0;
        while i < self.countries.len()
            invariant
                self.wf(),
                i <= self.countries@.len(),
                forall|j: int| 0 <= j < i ==> #[trigger] self.countries@[j]@ != id@,
            decreases self.countries.len() - i,
        {
            if str_eq(self.countries[i].as_str(), id) {
                proof {
                    assert(self.has(id@)) by {
                        assert(self.countries@[i as int]@ == id@);
                    }
                    let k = self.index_of(id@);
                    if k != i as int {
                        if k < i as int {
                            assert(self.countries@[k]@ != id@);
                        } else {
                            assert(self.countries@[i as int]@ != self.countries@[k]@);
                        }
                    }
                }
                return Some(i);
            }
            i = i + 1;
        }
        None
    }
}


impl HolidayStore {
    /// Holidays of a country in Jalali month `jalali_year/jalali_month`, in data order.
    pub fn for_month(
        &self,
        country: &CountryProfile,
        jalali_year: i32,
        jalali_month: u8,
        calendar: &CalendarEngine,
    ) -> (r: Vec<Holiday>)
        requires
            self.wf(),
        ensures
            r@ == month_holidays(self.templates_of(country@), jalali_year as int, jalali_month as int),
    {
        let mut out: Vec<Holiday> = Vec::new();
        let idx = match self.find(country.as_str()) {
            Some(i) => i,
            None => {
                assert(month_holidays(self.templates_of(country@), jalali_year as int, jalali_month as int) =~= Seq::<Holiday>::empty());
                return out;
            },
        };
        let ts = &self.templates[idx];
        let ghost tsv = ts@;
        proof {
            assert(self.has(country@));
            assert(self.templates_of(country@) == tsv);
        }
        let mut k: usize = 0;
        assert(tsv.take(0) =~= Seq::<HolidayTemplate>::empty());
        while k < ts.len()
            invariant
                self.wf(),
                idx < self.templates@.len(),
                ts == &self.templates@[idx as int],
                tsv == ts@,
                k <= ts@.len(),
                out@ == month_holidays(tsv.take(k as int), jalali_year as int, jalali_month as int),
            decreases ts.len() - k,
        {
            let t = &ts[k];
            proof {
                assert(template_ok(self.templates@[idx as int]@[k as int]));
                assert(tsv.take(k + 1).drop_last() =~= tsv.take(k as int));
                assert(tsv.take(k + 1).last() == *t);
            }
            match resolve_template(t, jalali_year, calendar) {
                Some(md) => {
                    if md.0 == jalali_month {
                        let h = Holiday {
                            name: t.name.clone(),
                            jalali_month: md.0,
                            jalali_day: md.1,
                            jalali_year,
                            is_lunar: t.lunar,
                            hijri_month: if t.lunar {
                                Some(t.month)
                            } else {
                                None
                            },
                            hijri_day: if t.lunar {
                                Some(t.day)
                            } else {
                                None
                            },
                            kind: t.kind,
                        };
                        out.push(h);
                    }
                },
                None => {},
            }
            k = k + 1;
        }
        assert(tsv.take(ts@.len() as int) =~= tsv);
        out
    }

    /// Holidays of a country on a converted date.
    pub fn for_date(&self, country: &CountryProfile, date: &CalendarDate, calendar: &CalendarEngine) -> (r: Vec<Holiday>)
        requires
            self.wf(),
        ensures
            r@ == day_holidays(
                self.templates_of(country@),
                date.jalali_year as int,
                date.jalali_month as int,
                date.jalali_day as int,
            ),
    {
        let all = self.for_month(country, date.jalali_year, date.jalali_month, calendar);
        let ghost hs = all@;
        let mut out: Vec<Holiday> = Vec::new();
        let mut k: usize = 0;
        assert(hs.take(0) =~= Seq::<Holiday>::empty());
        while k < all.len()
            invariant
                hs == all@,
                k <= all@.len(),
                out@ == on_day(hs.take(k as int), date.jalali_day as int),
            decreases all.len() - k,
        {
            proof {
                assert(hs.take(k + 1).drop_last() =~= hs.take(k as int));
                assert(hs.take(k + 1).last() == all@[k as int]);
            }
            if all[k].jalali_day == date.jalali_day {
                out.push(all[k].duplicate());
            }
            k = k + 1;
        }
        assert(hs.take(all@.len() as int) =~= hs);
        out
    }

    /// Holidays of a country over a whole Jalali year, month by month.
    pub fn for_year(&self, country: &CountryProfile, jalali_year: i32, calendar: &CalendarEngine) -> (r: Vec<Holiday>)
        requires
            self.wf(),
        ensures
            r@ == year_holidays(self.templates_of(country@), jalali_year as int, 12),
    {
        let mut all: Vec<Holiday> = Vec::new();
        let mut month: u8 = 1;
        while month <= 12
            invariant
                self.wf(),
                1 <= month <= 13,
                all@ == year_holidays(self.templates_of(country@), jalali_year as int, month - 1),
            decreases 13 - month,
        {
            let mut part = self.for_month(country, jalali_year, month, calendar);
            let ghost before = all@;
            let ghost p = part@;
            all.append(&mut part);
            assert(all@ == before + p);
            month = month + 1;
        }
        all
    }
}

/// Jalali month and day of a template in a year.
fn resolve_template(template: &HolidayTemplate, jalali_year: i32, calendar: &CalendarEngine) -> (r: Option<(u8, u8)>)
    requires
        template_ok(*template),
    ensures
        match resolved(*template, jalali_year as int) {
            Some(p) => r matches Some(q) && q.0 as int == p.0 && q.1 as int == p.1,
            None => r is None,
        },
{
    if template.lunar {
        resolve_lunar_holiday(template.month, template.day, jalali_year, calendar)
    } else {
        let applies = match template.fixed_jalali_year {
            Some(y) => y == jalali_year,
            None => true,
        };
        if applies {
            Some((template.month, template.day))
        } else {
            None
        }
    }
}

/// Jalali month and day of the Hijri date `hijri_month/hijri_day` in Jalali year `jalali_year`.
fn resolve_lunar_holiday(hijri_month: u8, hijri_day: u8, jalali_year: i32, calendar: &CalendarEngine) -> (r: Option<(u8, u8)>)
    requires
        hijri_month >= 1,
    ensures
        match lunar_jalali(hijri_month as int, hijri_day as int, jalali_year as int) {
            Some(p) => r matches Some(q) && q.0 as int == p.0 && q.1 as int == p.1,
            None => r is None,
        },
{
    let (start, end) = match hijri_year_range_for_jalali(jalali_year, calendar) {
        Some(p) => p,
        None => {
            return None;
        },
    };
    let ghost m = hijri_month as int;
    let ghost d = hijri_day as int;
    let ghost y = jalali_year as int;
    if start > end {
        return None;
    }
    let mut hy: usize = start;
    while hy <= end
        invariant
            hijri_month >= 1,
            start <= hy <= end + 1,
            end <= 1500,
            m == hijri_month as int,
            d == hijri_day as int,
            y == jalali_year as int,
            lunar_jalali(m, d, y) == lunar_scan(m, d, y, hy as int, end as int),
        decreases end + 1 - hy,
    {
        proof {
            assert(((hijri_month as int) as usize) == hijri_month as usize);
            assert(((hijri_day as int) as usize) == hijri_day as usize);
            assert(((hy as int) as usize) == hy);
        }
        let t = match hijri_to_gregorian_parts(hy, hijri_month as usize, hijri_day as usize) {
            Ok(t) => t,
            Err(_) => {
                return None;
            },
        };
        let g = match GregorianDate::from_ymd_opt(t.0 as i32, t.1 as u32, t.2 as u32) {
            Some(g) => g,
            None => {
                return None;
            },
        };
        let c = match calendar.on_date(g) {
            Ok(c) => c,
            Err(_) => {
                return None;
            },
        };
        proof {
            lemma_jalali_of_day(c.jalali_year as int, c.jalali_month as int, c.jalali_day as int);
        }
        if c.jalali_year == jalali_year {
            return Some((c.jalali_month, c.jalali_day));
        }
        hy = hy + 1;
    }
    None
}

/// Hijri years in which a Jalali year starts and ends.
fn hijri_year_range_for_jalali(jalali_year: i32, calendar: &CalendarEngine) -> (r: Option<(usize, usize)>)
    ensures
        match hijri_years_of_jalali(jalali_year as int) {
            Some(p) => r matches Some(q) && q.0 as int == p.0 && q.1 as int == p.1,
            None => r is None,
        },
        r matches Some(q) ==> q.0 <= 1500 && q.1 <= 1500,
{
    let start = match calendar.jalali_to_gregorian(jalali_year, 1, 1) {
        Ok(g) => g,
        Err(_) => {
            return None;
        },
    };
    let last = match calendar.days_in_jalali_month(jalali_year, 12) {
        Ok(n) => n,
        Err(_) => {
            return None;
        },
    };
    let end = match calendar.jalali_to_gregorian(jalali_year, 12, last) {
        Ok(g) => g,
        Err(_) => {
            return None;
        },
    };
    proof {
        lemma_gregorian_of_day(start);
        lemma_gregorian_of_day(end);
    }
    let sh = match hijri_from_gregorian(start.year as usize, start.month as usize, start.day as usize) {
        Ok(h) => h.0,
        Err(_) => {
            return None;
        },
    };
    let eh = match hijri_from_gregorian(end.year as usize, end.month as usize, end.day as usize) {
        Ok(h) => h.0,
        Err(_) => {
            return None;
        },
    };
    Some((sh, eh))
}


/// Order of the merged list of a Hijri month: Jalali month, day, then name.
pub open spec fn holiday_le(a: Holiday, b: Holiday) -> bool {
    ||| a.jalali_month < b.jalali_month
    ||| a.jalali_month == b.jalali_month && a.jalali_day < b.jalali_day
    ||| a.jalali_month == b.jalali_month && a.jalali_day == b.jalali_day && seq_le(a.name@, b.name@)
}

/// Same name on the same Jalali date.
pub open spec fn same_entry(a: Holiday, b: Holiday) -> bool {
    &&& a.name@ == b.name@
    &&& a.jalali_year == b.jalali_year
    &&& a.jalali_month == b.jalali_month
    &&& a.jalali_day == b.jalali_day
}

/// Holidays on day `d` of Hijri month `hy/hm` (none when a conversion fails).
pub open spec fn hijri_day_holidays(ts: Seq<HolidayTemplate>, hy: int, hm: int, d: int) -> Seq<Holiday> {
    match gregorian_of_hijri(hy as usize, hm as usize, d as usize) {
        Ok(t) => {
            let g = GregorianDate { year: t.0 as i32, month: t.1 as u32, day: t.2 as u32 };
            if g.wf() && hijri_ok(g) {
                let j = jalali_of_day(g.day_number());
                day_holidays(ts, j.0, j.1, j.2)
            } else {
                Seq::empty()
            }
        },
        Err(_) => Seq::empty(),
    }
}

/// Holidays of days `1..=k` of Hijri month `hy/hm`, day by day.
pub open spec fn hijri_month_collected(ts: Seq<HolidayTemplate>, hy: int, hm: int, k: int) -> Seq<Holiday>
    decreases k,
{
    if k <= 0 {
        Seq::empty()
    } else {
        hijri_month_collected(ts, hy, hm, k - 1) + hijri_day_holidays(ts, hy, hm, k)
    }
}

/// `x` placed after the last entry of `s`, counted from the end, that is not
/// greater than it.
pub open spec fn insert_after_le(s: Seq<Holiday>, x: Holiday) -> Seq<Holiday>
    decreases s.len(),
{
    if s.len() == 0 {
        seq![x]
    } else if holiday_le(s.last(), x) {
        s.push(x)
    } else {
        insert_after_le(s.drop_last(), x).push(s.last())
    }
}

/// `s` sorted by [`holiday_le`], entries that compare equal keeping their order.
pub open spec fn stable_sorted(s: Seq<Holiday>) -> Seq<Holiday>
    decreases s.len(),
{
    if s.len() == 0 {
        s
    } else {
        insert_after_le(stable_sorted(s.drop_last()), s.last())
    }
}

/// `s` without each entry that has the name and date of the entry before it.
pub open spec fn dedup_entries(s: Seq<Holiday>) -> Seq<Holiday>
    decreases s.len(),
{
    if s.len() <= 1 {
        s
    } else if same_entry(s[s.len() - 2], s.last()) {
        dedup_entries(s.drop_last())
    } else {
        dedup_entries(s.drop_last()).push(s.last())
    }
}

proof fn lemma_insert_after_le(s: Seq<Holiday>, pos: int, x: Holiday)
    requires
        0 <= pos <= s.len(),
        forall|k: int| pos <= k < s.len() ==> !holiday_le(#[trigger] s[k], x),
        pos > 0 ==> holiday_le(s[pos - 1], x),
    ensures
        insert_after_le(s, x) == s.insert(pos, x),
    decreases s.len(),
{
    if s.len() == 0 {
        assert(s.insert(pos, x) =~= seq![x]);
    } else if holiday_le(s.last(), x) {
        assert(pos == s.len());
        assert(s.insert(pos, x) =~= s.push(x));
    } else {
        assert(pos < s.len());
        let t = s.drop_last();
        assert forall|k: int| pos <= k < t.len() implies !holiday_le(#[trigger] t[k], x) by {
            assert(t[k] == s[k]);
        }
        lemma_insert_after_le(t, pos, x);
        assert(s.insert(pos, x) =~= t.insert(pos, x).push(s.last()));
    }
}

proof fn lemma_dedup_last(s: Seq<Holiday>)
    requires
        s.len() > 0,
    ensures
        dedup_entries(s).len() > 0,
        same_entry(dedup_entries(s).last(), s.last()),
    decreases s.len(),
{
    if s.len() > 1 {
        lemma_dedup_last(s.drop_last());
    }
}

pub proof fn lemma_holiday_le_total(a: Holiday, b: Holiday)
    ensures
        holiday_le(a, b) || holiday_le(b, a),
{
    lemma_seq_le_total2(a.name@, b.name@);
}

pub proof fn lemma_holiday_le_trans(a: Holiday, b: Holiday, c: Holiday)
    requires
        holiday_le(a, b),
        holiday_le(b, c),
    ensures
        holiday_le(a, c),
{
    if a.jalali_month == b.jalali_month && b.jalali_month == c.jalali_month && a.jalali_day
        == b.jalali_day && b.jalali_day == c.jalali_day {
        lemma_seq_le_trans(a.name@, b.name@, c.name@);
    }
}

fn holiday_le_exec(a: &Holiday, b: &Holiday) -> (r: bool)
    ensures
        r == holiday_le(*a, *b),
{
    if a.jalali_month != b.jalali_month {
        a.jalali_month < b.jalali_month
    } else if a.jalali_day != b.jalali_day {
        a.jalali_day < b.jalali_day
    } else {
        chars_le(&chars_of(a.name.as_str()), &chars_of(b.name.as_str()))
    }
}

fn same_entry_exec(a: &Holiday, b: &Holiday) -> (r: bool)
    ensures
        r == same_entry(*a, *b),
{
    a.name == b.name && a.jalali_year == b.jalali_year && a.jalali_month == b.jalali_month
        && a.jalali_day == b.jalali_day
}

proof fn lemma_insert_keeps_order(before: Seq<Holiday>, pos: int, item: Holiday, a: int, b: int)
    requires
        0 <= pos <= before.len(),
        forall|x: int, y: int| 0 <= x < y < before.len() ==> holiday_le(before[x], before[y]),
        forall|k: int| pos <= k < before.len() ==> !holiday_le(#[trigger] before[k], item),
        pos > 0 ==> holiday_le(before[pos - 1], item),
        0 <= a < b < before.len() + 1,
    ensures
        holiday_le(before.insert(pos, item)[a], before.insert(pos, item)[b]),
{
    let out = before.insert(pos, item);
    if b < pos {
        assert(out[a] == before[a] && out[b] == before[b]);
    } else if b == pos {
        assert(out[a] == before[a]);
        if a < pos - 1 {
            lemma_holiday_le_trans(before[a], before[pos - 1], item);
        }
    } else if a < pos {
        assert(out[a] == before[a] && out[b] == before[b - 1]);
    } else if a == pos {
        assert(out[b] == before[b - 1]);
        lemma_holiday_le_total(before[b - 1], item);
    } else {
        assert(out[a] == before[a - 1] && out[b] == before[b - 1]);
    }
}

/// Sorts by [`holiday_le`], stably (insertion after every entry not greater).
fn sort_holidays(v: &Vec<Holiday>) -> (r: Vec<Holiday>)
    ensures
        r@ == stable_sorted(v@),
        forall|i: int, j: int| 0 <= i < j < r@.len() ==> holiday_le(r@[i], r@[j]),
        r@.to_multiset() == v@.to_multiset(),
{
    let mut sorted: Vec<Holiday> = Vec::new();
    let mut i: usize = 0;
    assert(v@.subrange(0, 0) =~= Seq::<Holiday>::empty());
    while i < v.len()
        invariant
            i <= v@.len(),
            sorted@.len() == i,
            forall|a: int, b: int| 0 <= a < b < sorted@.len() ==> holiday_le(sorted@[a], sorted@[b]),
            sorted@.to_multiset() == v@.subrange(0, i as int).to_multiset(),
            sorted@ == stable_sorted(v@.subrange(0, i as int)),
        decreases v.len() - i,
    {
        let item = v[i].duplicate();
        let mut pos: usize = sorted.len();
        while pos > 0 && !holiday_le_exec(&sorted[pos - 1], &item)
            invariant
                pos <= sorted@.len(),
                forall|k: int| pos <= k < sorted@.len() ==> !holiday_le(#[trigger] sorted@[k], item),
            decreases pos,
        {
            pos = pos - 1;
        }
        let ghost before = sorted@;
        let ghost it = item;
        sorted.insert(pos, item);
        proof {
            assert forall|a: int, b: int|
                0 <= a < b < sorted@.len() implies holiday_le(sorted@[a], sorted@[b]) by {
                lemma_insert_keeps_order(before, pos as int, it, a, b);
            }
            vstd::seq_lib::to_multiset_insert(before, pos as int, it);
            assert(v@.subrange(0, i + 1) =~= v@.subrange(0, i as int).push(it));
            assert(v@.subrange(0, i + 1).drop_last() =~= v@.subrange(0, i as int));
            lemma_insert_after_le(before, pos as int, it);
            vstd::seq_lib::to_multiset_build(v@.subrange(0, i as int), it);
        }
        i = i + 1;
    }
    proof {
        assert(v@.subrange(0, v@.len() as int) =~= v@);
    }
    sorted
}

/// What the deduplication of a sorted list `s` keeps of its first `k`
/// entries: `out[a]` is `s[src[a]]`, and `s[p]` is represented by `out[rep[p]]`.
spec fn dedup_state(s: Seq<Holiday>, out: Seq<Holiday>, src: Seq<int>, rep: Seq<int>, k: int) -> bool {
    &&& src.len() == out.len()
    &&& forall|a: int| 0 <= a < out.len() ==> 0 <= #[trigger] src[a] < k && out[a] == s[src[a]]
    &&& rep.len() == k
    &&& forall|p: int| 0 <= p < k ==> 0 <= #[trigger] rep[p] < out.len() && same_entry(out[rep[p]], s[p])
    &&& forall|a: int, b: int| 0 <= a < b < out.len() ==> holiday_le(out[a], out[b])
    &&& forall|a: int, b: int| 0 <= a && b == a + 1 && b < out.len() ==> !same_entry(out[a], out[b])
    &&& k > 0 ==> out.len() > 0
}

/// Drops each entry of a sorted list equal, by name and date, to the entry kept before it.
fn dedup_holidays(sorted: &Vec<Holiday>) -> (r: Vec<Holiday>)
    requires
        forall|a: int, b: int| 0 <= a < b < sorted@.len() ==> holiday_le(sorted@[a], sorted@[b]),
    ensures
        r@ == dedup_entries(sorted@),
        forall|i: int, j: int| 0 <= i < j < r@.len() ==> holiday_le(r@[i], r@[j]),
        forall|i: int, j: int| 0 <= i && j == i + 1 && j < r@.len() ==> !same_entry(r@[i], r@[j]),
        drawn_from(r@, sorted@),
        represents(r@, sorted@),
{
    let ghost s = sorted@;
    let mut out: Vec<Holiday> = Vec::new();
    let ghost mut src: Seq<int> = Seq::empty();
    let ghost mut rep: Seq<int> = Seq::empty();
    let mut k: usize = 0;
    while k < sorted.len()
        invariant
            s == sorted@,
            k <= s.len(),
            forall|a: int, b: int| 0 <= a < b < s.len() ==> holiday_le(s[a], s[b]),
            dedup_state(s, out@, src, rep, k as int),
            out@ == dedup_entries(s.subrange(0, k as int)),
        decreases s.len() - k,
    {
        proof {
            let t = s.subrange(0, k as int + 1);
            assert(t.drop_last() =~= s.subrange(0, k as int));
            assert(t.last() == s[k as int]);
            if k > 0 {
                lemma_dedup_last(s.subrange(0, k as int));
                assert(s.subrange(0, k as int).last() == s[k - 1]);
                assert(t[t.len() - 2] == s[k - 1]);
            } else {
                assert(t =~= seq![s[0]]);
            }
        }
        let keep = if out.len() == 0 {
            true
        } else {
            !same_entry_exec(&sorted[k], &out[out.len() - 1])
        };
        let ghost before = out@;
        let ghost n = out@.len() as int;
        if keep {
            out.push(sorted[k].duplicate());
            proof {
                let src2 = src.push(k as int);
                let rep2 = rep.push(n);
                assert(out@[n] == s[k as int]);
                assert forall|a: int| 0 <= a < out@.len() implies 0 <= #[trigger] src2[a] < k + 1 && out@[a] == s[src2[a]] by {
                    if a < n {
                        assert(out@[a] == before[a]);
                    }
                }
                assert forall|p: int| 0 <= p < k + 1 implies 0 <= #[trigger] rep2[p] < out@.len() && same_entry(out@[rep2[p]], s[p]) by {
                    if p < k {
                        assert(out@[rep[p]] == before[rep[p]]);
                    }
                }
                assert forall|a: int, b: int| 0 <= a < b < out@.len() implies holiday_le(out@[a], out@[b]) by {
                    if b == n {
                        assert(out@[a] == s[src[a]]);
                    } else {
                        assert(out@[a] == before[a] && out@[b] == before[b]);
                    }
                }
                assert forall|a: int, b: int| 0 <= a && b == a + 1 && b < out@.len() implies !same_entry(out@[a], out@[b]) by {
                    if b == n {
                        assert(out@[a] == before[a]);
                    } else {
                        assert(out@[a] == before[a] && out@[b] == before[b]);
                    }
                }
                src = src2;
                rep = rep2;
            }
        } else {
            proof {
                let rep2 = rep.push(n - 1);
                assert forall|p: int| 0 <= p < k + 1 implies 0 <= #[trigger] rep2[p] < out@.len() && same_entry(out@[rep2[p]], s[p]) by {
                    if p == k {
                        assert(out@[n - 1] == before.last());
                    }
                }
                assert forall|a: int| 0 <= a < out@.len() implies 0 <= #[trigger] src[a] < k + 1 && out@[a] == s[src[a]] by {}
                rep = rep2;
            }
        }
        k = k + 1;
    }
    proof {
        assert(s.subrange(0, s.len() as int) =~= s);
        assert forall|i: int| 0 <= i < out@.len() implies #[trigger] sorted@.contains(out@[i]) by {
            let p = src[i];
            assert(0 <= p < sorted@.len() && out@[i] == sorted@[p]);
        }
        assert forall|p: int| 0 <= p < sorted@.len() implies #[trigger] has_entry(out@, sorted@[p]) by {
            let i = rep[p];
            assert(0 <= i < out@.len() && same_entry(out@[i], sorted@[p]));
        }
    }
    out
}

/// Every entry of `r` is an entry of `v`.
pub open spec fn drawn_from(r: Seq<Holiday>, v: Seq<Holiday>) -> bool {
    forall|i: int| 0 <= i < r.len() ==> #[trigger] v.contains(r[i])
}

/// `r` has an entry with the name and date of `h`.
pub open spec fn has_entry(r: Seq<Holiday>, h: Holiday) -> bool {
    exists|i: int| 0 <= i < r.len() && same_entry(r[i], h)
}

/// Every entry of `v` has one with its name and date in `r`.
pub open spec fn represents(r: Seq<Holiday>, v: Seq<Holiday>) -> bool {
    forall|k: int| 0 <= k < v.len() ==> #[trigger] has_entry(r, v[k])
}

/// Sorts by [`holiday_le`] and drops each entry equal, by name and date, to
/// the one kept before it.
fn sort_and_dedup(v: &Vec<Holiday>) -> (r: Vec<Holiday>)
    ensures
        r@ == dedup_entries(stable_sorted(v@)),
        forall|i: int, j: int| 0 <= i < j < r@.len() ==> holiday_le(r@[i], r@[j]),
        forall|i: int, j: int| 0 <= i && j == i + 1 && j < r@.len() ==> !same_entry(r@[i], r@[j]),
        drawn_from(r@, v@),
        represents(r@, v@),
{
    let sorted = sort_holidays(v);
    let out = dedup_holidays(&sorted);
    let ghost sv = sorted@;
    proof {
        assert forall|i: int| 0 <= i < out@.len() implies #[trigger] v@.contains(out@[i]) by {
            assert(sv.contains(out@[i]));
            vstd::seq_lib::to_multiset_contains(sv, out@[i]);
            vstd::seq_lib::to_multiset_contains(v@, out@[i]);
        }
        assert forall|q: int| 0 <= q < v@.len() implies #[trigger] has_entry(out@, v@[q]) by {
            vstd::seq_lib::to_multiset_contains(v@, v@[q]);
            vstd::seq_lib::to_multiset_contains(sv, v@[q]);
            let p = choose|p: int| 0 <= p < sv.len() && sv[p] == v@[q];
            assert(has_entry(out@, sv[p]));
        }
    }
    out
}

impl HolidayStore {
    /// Holidays of a country that fall in Hijri month `hijri_year/hijri_month`,
    /// ordered by Jalali date and name, each name and date once.
    pub fn for_hijri_month(
        &self,
        country: &CountryProfile,
        hijri_year: i32,
        hijri_month: u8,
        calendar: &CalendarEngine,
    ) -> (r: Vec<Holiday>)
        requires
            self.wf(),
            !hijri_lookup_panics(hijri_year as usize as int, hijri_month as int, 1),
        ensures
            ({
                let c = hijri_month_collected(
                    self.templates_of(country@),
                    hijri_year as int,
                    hijri_month as int,
                    hijri_len(hijri_year as int, hijri_month as int),
                );
                &&& r@ == dedup_entries(stable_sorted(c))
                &&& gregorian_of_hijri(hijri_year as usize, hijri_month as usize, 1) is Err ==> r@.len() == 0
                &&& forall|i: int, j: int| 0 <= i < j < r@.len() ==> holiday_le(r@[i], r@[j])
                &&& forall|i: int, j: int| 0 <= i && j == i + 1 && j < r@.len() ==> !same_entry(r@[i], r@[j])
                &&& drawn_from(r@, c)
                &&& represents(r@, c)
            }),
    {
        let ghost ts = self.templates_of(country@);
        let ghost hy = hijri_year as int;
        let ghost hm = hijri_month as int;
        let days = match calendar.days_in_hijri_month(hijri_year, hijri_month) {
            Ok(n) => n,
            Err(_) => {
                let r: Vec<Holiday> = Vec::new();
                proof {
                    assert(hijri_len(hy, hm) == 0);
                    assert(hijri_month_collected(ts, hy, hm, 0) =~= Seq::<Holiday>::empty());
                }
                return r;
            },
        };
        let mut collected: Vec<Holiday> = Vec::new();
        let mut day: u8 = 1;
        while day <= days
            invariant
                self.wf(),
                ts == self.templates_of(country@),
                hy == hijri_year as int,
                hm == hijri_month as int,
                1357 <= hijri_year <= 1499,
                1 <= hijri_month <= 12,
                28 <= days <= 30,
                1 <= day <= days + 1,
                collected@ == hijri_month_collected(ts, hy, hm, day - 1),
            decreases days + 1 - day,
        {
            let ghost before = collected@;
            proof {
                assert((hy as usize) == hijri_year as usize);
                assert((hm as usize) == hijri_month as usize);
                assert(((day as int) as usize) == day as usize);
            }
            match calendar.hijri_to_gregorian(hijri_year, hijri_month, day) {
                Ok(g) => {
                    match calendar.on_date(g) {
                        Ok(date) => {
                            proof {
                                lemma_jalali_of_day(
                                    date.jalali_year as int,
                                    date.jalali_month as int,
                                    date.jalali_day as int,
                                );
                            }
                            let mut part = self.for_date(country, &date, calendar);
                            collected.append(&mut part);
                        },
                        Err(_) => {},
                    }
                },
                Err(_) => {},
            }
            assert(collected@ =~= before + hijri_day_holidays(ts, hy, hm, day as int));
            day = day + 1;
        }
        sort_and_dedup(&collected)
    }

    /// Holidays of a country on the day after `today`.
    pub fn tomorrow_holidays(
        &self,
        country: &CountryProfile,
        today: &CalendarDate,
        calendar: &CalendarEngine,
    ) -> (r: Vec<Holiday>)
        requires
            self.wf(),
            today.gregorian.wf(),
            !(today.gregorian.year == MAX_YEAR && today.gregorian.month == 12 && today.gregorian.day
                == 31),
        ensures
            ({
                let n = next_day(today.gregorian);
                if hijri_ok(n) {
                    let j = jalali_of_day(n.day_number());
                    r@ == day_holidays(self.templates_of(country@), j.0, j.1, j.2)
                } else {
                    r@.len() == 0
                }
            }),
    {
        let next = match today.gregorian.succ_opt() {
            Some(n) => n,
            None => {
                return Vec::new();
            },
        };
        match calendar.on_date(next) {
            Ok(tomorrow) => {
                proof {
                    lemma_jalali_of_day(
                        tomorrow.jalali_year as int,
                        tomorrow.jalali_month as int,
                        tomorrow.jalali_day as int,
                    );
                }
                self.for_date(country, &tomorrow, calendar)
            },
            Err(_) => Vec::new(),
        }
    }
}


/// The countries table below the data directory.
pub fn countries_json_path(data_dir: &str) -> (r: String)
    ensures
        r@ == joined(data_dir@, "countries.json"@),
{
    join_path(data_dir, "countries.json")
}

/// Directory of the per-country holiday files below the data directory.
pub fn holidays_dir(data_dir: &str) -> (r: String)
    ensures
        r@ == joined(data_dir@, "holidays"@),
{
    join_path(data_dir, "holidays")
}

/// Directory of the prayer-city files below the data directory.
pub fn locations_dir(data_dir: &str) -> (r: String)
    ensures
        r@ == joined(data_dir@, "locations"@),
{
    join_path(data_dir, "locations")
}

} // verus!
