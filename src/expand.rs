//! Expansion: a rotation walked forward from a date, week by week, into the
//! dated occurrences of its shifts.

use vstd::prelude::*;
use vstd::arithmetic::div_mod::{lemma_add_mod_noop, lemma_fundamental_div_mod, lemma_mod_add_multiples_vanish, lemma_mod_bound, lemma_mod_multiples_basic};
use crate::shift::{DayView, MAX_SHIFT_LENGTH, ShiftDay, ShiftPattern, ShiftView, day_wf, pattern_wf};

verus! {

/// The day that chrono's `NaiveDate::from_ymd_opt` and
/// `Datelike::num_days_from_ce` give for a year, month and day.
pub uninterp spec fn ce_day_number(year: i32, month: u32, day: u32) -> Option<i32>;

/// Relies on chrono's `NaiveDate::from_ymd_opt`, which gives `None` for a
/// month or day that does not exist, and `Datelike::num_days_from_ce`, which
/// counts 0001-01-01 as day 1.
#[verifier::external_body]
fn ce_day_from_ymd(year: i32, month: u32, day: u32) -> (r: Option<i32>)
    ensures
        r == ce_day_number(year, month, day),
        !(1 <= month <= 12) ==> r is None,
        !(1 <= day <= 31) ==> r is None,
{
    match chrono::NaiveDate::from_ymd_opt(year, month, day) {
        Some(d) => Some(chrono::Datelike::num_days_from_ce(&d)),
        None => None,
    }
}

/// A calendar day, counted as chrono counts them: 0001-01-01, a Monday, is
/// day 1 of the proleptic Gregorian calendar.
#[derive(Clone, Copy, Debug, PartialEq, Eq, Structural)]
pub struct Date {
    pub days_from_ce: i32,
}

/// The weekday of a day number, Monday being 0 and Sunday 6.
pub open spec fn weekday_index(day: int) -> int {
    (day - 1) % 7
}

/// The Monday that begins the week of a day number.
pub open spec fn monday_of(day: int) -> int {
    day - weekday_index(day)
}

impl Date {
    /// The date `year-month-day`, or `None` where there is no such date.
    pub fn from_ymd(year: i32, month: u32, day: u32) -> (r: Option<Date>)
        ensures
            r is Some <==> ce_day_number(year, month, day) is Some,
            r matches Some(d) ==> ce_day_number(year, month, day) == Some(d.days_from_ce),
            !(1 <= month <= 12) ==> r is None,
            !(1 <= day <= 31) ==> r is None,
    {
        match ce_day_from_ymd(year, month, day) {
            Some(n) => Some(Date { days_from_ce: n }),
            None => None,
        }
    }

    /// The weekday, Monday being 0 and Sunday 6.
    pub fn weekday_from_monday(&self) -> (r: u32)
        ensures
            r == weekday_index(self.days_from_ce as int),
            r < 7,
    {
        let shifted: i64 = self.days_from_ce as i64 - 1 + 7 * 400000000;
        proof {
            lemma_mod_multiples_vanish_local(self.days_from_ce as int - 1, 400000000);
        }
        (shifted % 7) as u32
    }

    /// The day number of the Monday that begins this date's week.
    pub fn monday(&self) -> (r: i64)
        ensures
            r == monday_of(self.days_from_ce as int),
    {
        self.days_from_ce as i64 - self.weekday_from_monday() as i64
    }
}

proof fn lemma_mod_multiples_vanish_local(x: int, k: int)
    ensures
        (x + 7 * k) % 7 == x % 7,
{
    vstd::arithmetic::div_mod::lemma_mod_multiples_vanish(k, x, 7);
}

/// One dated shift: its name, and its start and end in seconds counted from
/// midnight at the start of day 0 (0000-12-31).
#[derive(Clone, Debug)]
pub struct Occurrence {
    pub name: String,
    pub start: i64,
    pub end: i64,
}

/// What an [`Occurrence`] holds.
pub struct OccurrenceView {
    pub name: Seq<char>,
    pub start: int,
    pub end: int,
}

impl View for Occurrence {
    type V = OccurrenceView;

    open spec fn view(&self) -> OccurrenceView {
        OccurrenceView { name: self.name@, start: self.start as int, end: self.end as int }
    }
}

impl DeepView for Occurrence {
    type V = OccurrenceView;

    open spec fn deep_view(&self) -> OccurrenceView {
        self@
    }
}

/// The occurrence of `shift` on day `day`.
pub open spec fn occurrence_of(shift: ShiftView, day: int) -> OccurrenceView {
    let start = day * 86400 + shift.start_time.seconds_of_day();
    OccurrenceView { name: shift.name, start, end: start + shift.length }
}

/// The occurrences of the first `d` days of `week`, which begins on `monday`.
pub open spec fn days_occurrences(week: Seq<DayView>, monday: int, d: int) -> Seq<OccurrenceView>
    decreases d,
{
    if d <= 0 {
        seq![]
    } else {
        let prev = days_occurrences(week, monday, d - 1);
        match week[d - 1] {
            DayView::NotWorking => prev,
            DayView::OnShift(s) => prev.push(occurrence_of(s, monday + d - 1)),
        }
    }
}

/// The occurrences of the week `week`, which begins on `monday`.
pub open spec fn week_occurrences(week: Seq<DayView>, monday: int) -> Seq<OccurrenceView> {
    days_occurrences(week, monday, 7)
}

/// The occurrences of `weeks` weeks of `pattern`, from the Monday of the week
/// of `start_day` on; week `i` follows row `(phase + i) mod len` of the rotation.
pub open spec fn expansion(pattern: Seq<Seq<DayView>>, start_day: int, phase: int, weeks: int) -> Seq<
    OccurrenceView,
>
    decreases weeks,
{
    if weeks <= 0 {
        seq![]
    } else {
        expansion(pattern, start_day, phase, weeks - 1) + week_occurrences(
            pattern[(phase + weeks - 1) % pattern.len() as int],
            monday_of(start_day) + 7 * (weeks - 1),
        )
    }
}

/// The occurrences of `weeks` weeks of the rotation `pattern`, from the week of
/// `start_date` on, that week following row `start_index` (taken modulo the
/// number of rows), in order of time.
pub fn expand(pattern: &ShiftPattern, start_date: Date, start_index: u32, weeks: u32) -> (r: Vec<
    Occurrence,
>)
    requires
        pattern_wf(pattern.deep_view()),
    ensures
        r.deep_view() == expansion(
            pattern.deep_view(),
            start_date.days_from_ce as int,
            start_index as int,
            weeks as int,
        ),
{
    let ghost pv = pattern.deep_view();
    let ghost sd = start_date.days_from_ce as int;
    let monday = start_date.monday();
    let n = pattern.len();
    let mut out: Vec<Occurrence> = Vec::new();
    let mut i: u32 = 0;
    proof {
        lemma_mod_bound(sd - 1, 7);
    }
    while i < weeks
        invariant
            pv == pattern.deep_view(),
            pattern_wf(pv),
            n == pv.len(),
            monday == monday_of(sd),
            sd == start_date.days_from_ce as int,
            i <= weeks,
            out.deep_view() == expansion(pv, sd, start_index as int, i as int),
        decreases weeks - i,
    {
        let idx = ((i as u64 + start_index as u64) % n as u64) as usize;
        let row = &pattern[idx];
        let ghost rv = pv[idx as int];
        assert(rv == row.deep_view());
        assert(idx as int == (start_index as int + (i + 1) - 1) % pv.len() as int);
        let base: i64 = monday + 7 * i as i64;
        let mut d: usize = 0;
        while d < 7
            invariant
                pv == pattern.deep_view(),
                pattern_wf(pv),
                0 <= idx < pv.len(),
                rv == pv[idx as int],
                rv == row.deep_view(),
                rv.len() == 7,
                base == monday + 7 * i,
                monday == monday_of(sd),
                sd == start_date.days_from_ce as int,
                i < weeks,
                d <= 7,
                out.deep_view() == expansion(pv, sd, start_index as int, i as int)
                    + days_occurrences(rv, base as int, d as int),
            decreases 7 - d,
        {
            let ghost before = out.deep_view();
            assert(day_wf(pv[idx as int][d as int]));
            match &row[d] {
                ShiftDay::NotWorking => {},
                ShiftDay::OnShift(s) => {
                    let day: i64 = base + d as i64;
                    assert(-3000000000 < day < 40000000000);
                    let secs = s.start_time.seconds_from_midnight();
                    assert(-3000000000 * 86400 < day * 86400 < 40000000000 * 86400) by (nonlinear_arith)
                        requires -3000000000 < day < 40000000000;
                    let start: i64 = day * 86400 + secs as i64;
                    let end: i64 = start + s.length as i64;
                    out.push(Occurrence { name: s.name.clone(), start, end });
                    assert(out.deep_view() =~= before.push(occurrence_of(s@, base + d)));
                },
            }
            assert(expansion(pv, sd, start_index as int, i as int) + days_occurrences(rv, base as int, d + 1)
                =~= out.deep_view());
            d = d + 1;
        }
        i = i + 1;
    }
    out
}

/// The rotation wraps: starting `len` rows further on, or at the start row
/// taken modulo `len`, gives the same occurrences as starting at `phase`.
pub proof fn lemma_phase_wraps(pattern: Seq<Seq<DayView>>, start_day: int, phase: int, weeks: int)
    requires
        pattern.len() >= 1,
        phase >= 0,
    ensures
        expansion(pattern, start_day, phase + pattern.len(), weeks) == expansion(
            pattern,
            start_day,
            phase,
            weeks,
        ),
        expansion(pattern, start_day, phase % (pattern.len() as int), weeks) == expansion(
            pattern,
            start_day,
            phase,
            weeks,
        ),
    decreases weeks,
{
    let len = pattern.len() as int;
    if weeks > 0 {
        lemma_phase_wraps(pattern, start_day, phase, weeks - 1);
        lemma_mod_add_multiples_vanish(phase + weeks - 1, len);
        assert((len + (phase + weeks - 1)) % len == (phase + len + weeks - 1) % len);
        lemma_add_mod_noop(phase, weeks - 1, len);
        lemma_mod_bound(phase, len);
        lemma_mod_bound(weeks - 1, len);
        lemma_add_mod_noop(phase % len, weeks - 1, len);
        lemma_mod_mod_local(phase, len);
    }
}

proof fn lemma_mod_mod_local(x: int, m: int)
    requires
        m > 0,
    ensures
        (x % m) % m == x % m,
{
    lemma_mod_bound(x, m);
    vstd::arithmetic::div_mod::lemma_small_mod((x % m) as nat, m as nat);
}

/// Any weekday of a week gives the same occurrences as the Monday that
/// begins it.
pub proof fn lemma_anchor_normalized(pattern: Seq<Seq<DayView>>, start_day: int, phase: int, weeks: int)
    ensures
        expansion(pattern, start_day, phase, weeks) == expansion(
            pattern,
            monday_of(start_day),
            phase,
            weeks,
        ),
    decreases weeks,
{
    lemma_monday_is_monday(start_day);
    if weeks > 0 {
        lemma_anchor_normalized(pattern, start_day, phase, weeks - 1);
    }
}

/// The Monday of a day's week is its own Monday.
pub proof fn lemma_monday_is_monday(day: int)
    ensures
        weekday_index(monday_of(day)) == 0,
        monday_of(monday_of(day)) == monday_of(day),
{
    let x = day - 1;
    lemma_fundamental_div_mod(x, 7);
    assert(monday_of(day) - 1 == 7 * (x / 7));
    lemma_mod_multiples_basic(x / 7, 7);
    assert((x / 7) * 7 == 7 * (x / 7));
}

/// The occurrence comes from a shift of the rotation: it has that shift's
/// name and lasts exactly its length.
pub open spec fn from_rotation(pattern: Seq<Seq<DayView>>, o: OccurrenceView) -> bool {
    exists|a: int, b: int|
        {
            &&& 0 <= a < pattern.len()
            &&& 0 <= b < pattern[a].len()
            &&& #[trigger] pattern[a][b] matches DayView::OnShift(s)
            &&& o.name == s.name
            &&& o.end - o.start == s.length
        }
}

proof fn lemma_days_from_rotation(pattern: Seq<Seq<DayView>>, a: int, monday: int, d: int)
    requires
        0 <= a < pattern.len(),
        0 <= d <= pattern[a].len(),
    ensures
        forall|j: int|
            0 <= j < days_occurrences(pattern[a], monday, d).len() ==> from_rotation(
                pattern,
                #[trigger] days_occurrences(pattern[a], monday, d)[j],
            ),
    decreases d,
{
    if d > 0 {
        lemma_days_from_rotation(pattern, a, monday, d - 1);
        let prev = days_occurrences(pattern[a], monday, d - 1);
        if let DayView::OnShift(s) = pattern[a][d - 1] {
            let o = occurrence_of(s, monday + d - 1);
            assert(from_rotation(pattern, o)) by {
                assert(pattern[a][d - 1] == DayView::OnShift(s));
            }
            assert forall|j: int| 0 <= j < prev.push(o).len() implies from_rotation(pattern, #[trigger] prev.push(o)[j]) by {
                if j < prev.len() {
                    assert(prev.push(o)[j] == prev[j]);
                }
            }
        }
    }
}

/// Every occurrence of an expansion has the name of a shift of the rotation
/// and lasts exactly that shift's length.
pub proof fn lemma_occurrence_lengths(pattern: Seq<Seq<DayView>>, start_day: int, phase: int, weeks: int)
    requires
        pattern_wf(pattern),
        phase >= 0,
    ensures
        forall|j: int|
            0 <= j < expansion(pattern, start_day, phase, weeks).len() ==> from_rotation(
                pattern,
                #[trigger] expansion(pattern, start_day, phase, weeks)[j],
            ),
    decreases weeks,
{
    if weeks > 0 {
        lemma_occurrence_lengths(pattern, start_day, phase, weeks - 1);
        let len = pattern.len() as int;
        let a = (phase + weeks - 1) % len;
        lemma_mod_bound(phase + weeks - 1, len);
        let monday = monday_of(start_day) + 7 * (weeks - 1);
        lemma_days_from_rotation(pattern, a, monday, 7);
        let prev = expansion(pattern, start_day, phase, weeks - 1);
        let week = week_occurrences(pattern[a], monday);
        assert forall|j: int| 0 <= j < (prev + week).len() implies from_rotation(pattern, #[trigger] (prev + week)[j]) by {
            if j < prev.len() {
                assert((prev + week)[j] == prev[j]);
            } else {
                assert((prev + week)[j] == week[j - prev.len()]);
            }
        }
    }
}

/// Week `i` of an expansion follows row `(phase + i) mod len` of the rotation,
/// from the Monday `7 * i` days after that of the start: the expansion of `n`
/// weeks begins with those of its first `i` weeks and then that week.
pub proof fn lemma_week_rows(pattern: Seq<Seq<DayView>>, start_day: int, phase: int, i: int, n: int)
    requires
        0 <= i < n,
    ensures
        ({
            let head = expansion(pattern, start_day, phase, i) + week_occurrences(
                pattern[(phase + i) % pattern.len() as int],
                monday_of(start_day) + 7 * i,
            );
            head.len() <= expansion(pattern, start_day, phase, n).len()
                && expansion(pattern, start_day, phase, n).subrange(0, head.len() as int) == head
        }),
    decreases n,
{
    let full = expansion(pattern, start_day, phase, n);
    if n == i + 1 {
        assert(full.subrange(0, full.len() as int) =~= full);
    } else {
        lemma_week_rows(pattern, start_day, phase, i, n - 1);
        let prev = expansion(pattern, start_day, phase, n - 1);
        let head = expansion(pattern, start_day, phase, i + 1);
        assert(full.subrange(0, head.len() as int) =~= prev.subrange(0, head.len() as int));
    }
}

} // verus!
