# boloot_cal_core

Calendar logic of the BOLOOT Persian Calendar (Jalali, Hijri and Gregorian
dates, country profiles, holidays, month views, prayer-time decisions,
settings and reminders), written in Verus with its behaviour stated in
`requires` / `ensures` contracts and proved.

- `src/` — the verified library. `laws.rs` holds the properties that span
  several functions (Jalali–Gregorian round trips, month and year lengths, the month
  grid's shape, holiday placement, the next prayer lying in the future, …).
  `backend.rs` holds the trusted bridges to `parsidate` and `hijri_date`.
- `tests/` — tests of the library on concrete values.
- `app/` — the `boloot-calendar` program: file loading, the system clock and
  timezone, the `salah` prayer-time calculation, JSON output, the command line
  and the D-Bus service with its reminder loop.
