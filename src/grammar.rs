//! The rotation format: shift definitions, the `pattern` keyword, then a
//! table of weeks with seven day tokens to a line.

use vstd::prelude::*;
use crate::lexical::{
    CharClass, in_class, char_at_is, clock_at, duration_at, has_char, is_in_class, name_at, parse_clock,
    parse_duration, parse_name, scan, scan_class, text_between,
};
use crate::shift::{ClockTime, ParsedShiftDay, Shift, ShiftView, SpdError, SpdErrorView, TokenView};

verus! {

/// What reading a definition at a position finds.
pub enum DefinitionStep {
    /// The text there is no definition.
    NoMatch,
    /// A definition whose clock time lies outside a 24-hour clock.
    BadClock(u32, u32, u32),
    /// A definition: its identifier, its shift and the position after it.
    Found(Seq<char>, ShiftView, int),
}

/// A definition at `p`: identifier, clock time, duration, quoted name, with
/// spaces or tabs allowed between them and after the name.
pub open spec fn definition_at(s: Seq<char>, p: int) -> DefinitionStep {
    let a = scan(s, p, CharClass::Alpha);
    if a == p {
        DefinitionStep::NoMatch
    } else {
        match clock_at(s, scan(s, a, CharClass::Blank)) {
            None => DefinitionStep::NoMatch,
            Some((h, m, sec, c)) => {
                let t = ClockTime { hour: h, minute: m, second: sec };
                if !t.wf() {
                    DefinitionStep::BadClock(h, m, sec)
                } else {
                    match duration_at(s, scan(s, c, CharClass::Blank)) {
                        None => DefinitionStep::NoMatch,
                        Some((len, e)) => match name_at(s, scan(s, e, CharClass::Blank)) {
                            None => DefinitionStep::NoMatch,
                            Some((name, g)) => DefinitionStep::Found(
                                s.subrange(p, a),
                                ShiftView { name, start_time: t, length: len },
                                scan(s, g, CharClass::Blank),
                            ),
                        },
                    }
                }
            },
        }
    }
}

/// The definitions from `i` on, each after any whitespace, and the position
/// where they end (after the whitespace that follows the last).
pub open spec fn definitions_from(s: Seq<char>, i: int) -> Result<
    (Seq<(Seq<char>, ShiftView)>, int),
    SpdErrorView,
>
    decreases s.len() - i,
{
    let p = scan(s, i, CharClass::Space);
    match definition_at(s, p) {
        DefinitionStep::NoMatch => Ok((seq![], p)),
        DefinitionStep::BadClock(h, m, sec) => Err(
            SpdErrorView::InvalidClock { hour: h, minute: m, second: sec },
        ),
        DefinitionStep::Found(id, shift, e) => if i < e <= s.len() {
            match definitions_from(s, e) {
                Err(err) => Err(err),
                Ok((rest, end)) => Ok((seq![(id, shift)] + rest, end)),
            }
        } else {
            Ok((seq![(id, shift)], e))
        },
    }
}

/// The `k`-th letter of the keyword `pattern`, in lower and in upper case.
pub open spec fn keyword_letter(k: int) -> (char, char) {
    if k == 0 {
        ('p', 'P')
    } else if k == 1 {
        ('a', 'A')
    } else if k == 2 || k == 3 {
        ('t', 'T')
    } else if k == 4 {
        ('e', 'E')
    } else if k == 5 {
        ('r', 'R')
    } else {
        ('n', 'N')
    }
}

/// The keyword `pattern`, in any case, stands at `p`.
pub open spec fn keyword_at(s: Seq<char>, p: int) -> bool {
    0 <= p && p + 7 <= s.len() && forall|k: int|
        0 <= k < 7 ==> (s[p + k] == keyword_letter(k).0 || s[p + k] == keyword_letter(k).1)
}

/// A day token at `i`: `_`, or an identifier.
pub open spec fn day_at(s: Seq<char>, i: int) -> Option<(TokenView, int)> {
    if has_char(s, i, '_') {
        Some((TokenView::NotWorking, i + 1))
    } else {
        let a = scan(s, i, CharClass::Alpha);
        if a == i {
            None
        } else {
            Some((TokenView::Reference(s.subrange(i, a)), a))
        }
    }
}

/// `n` day tokens from `i` on, each with the spaces and tabs around it.
pub open spec fn days_from(s: Seq<char>, i: int, n: nat) -> Option<(Seq<TokenView>, int)>
    decreases n,
{
    if n == 0 {
        Some((seq![], i))
    } else {
        match days_from(s, i, (n - 1) as nat) {
            None => None,
            Some((days, j)) => match day_at(s, scan(s, j, CharClass::Blank)) {
                None => None,
                Some((t, c)) => Some((days.push(t), scan(s, c, CharClass::Blank))),
            },
        }
    }
}

/// A line break at `i`, and the position after it.
pub open spec fn line_end_at(s: Seq<char>, i: int) -> Option<int> {
    if has_char(s, i, '\n') {
        Some(i + 1)
    } else if has_char(s, i, '\r') && has_char(s, i + 1, '\n') {
        Some(i + 2)
    } else {
        None
    }
}

/// A week of the table at `i`: seven day tokens, and the position after the
/// seventh and the spaces and tabs that follow it.
pub open spec fn week_at(s: Seq<char>, i: int) -> Option<(Seq<TokenView>, int)> {
    days_from(s, i, 7)
}

/// The weeks from `i` on, each ended by a line break, as many as follow one
/// another, and where they end.
pub open spec fn weeks_from(s: Seq<char>, i: int) -> (Seq<Seq<TokenView>>, int)
    decreases s.len() - i,
{
    match week_at(s, i) {
        None => (seq![], i),
        Some((week, j)) => match line_end_at(s, j) {
            None => (seq![], i),
            Some(e) => if i < e <= s.len() {
                let (rest, end) = weeks_from(s, e);
                (seq![week] + rest, end)
            } else {
                (seq![week], e)
            },
        },
    }
}

/// The definitions and week rows that the text `s` holds, or why it holds none.
/// The keyword is followed by whitespace; whitespace may follow the last
/// week, and nothing else.
pub open spec fn spd_syntax(s: Seq<char>) -> Result<
    (Seq<(Seq<char>, ShiftView)>, Seq<Seq<TokenView>>),
    SpdErrorView,
> {
    match definitions_from(s, 0) {
        Err(e) => Err(e),
        Ok((defs, p)) => if !keyword_at(s, p) || scan(s, p + 7, CharClass::Space) == p + 7 {
            Err(SpdErrorView::Syntax { offset: p as nat })
        } else {
            let q = scan(s, p + 7, CharClass::Space);
            let (weeks, e) = weeks_from(s, q);
            let tail = scan(s, e, CharClass::Space);
            if weeks.len() == 0 {
                Err(SpdErrorView::Syntax { offset: q as nat })
            } else if tail != s.len() {
                Err(SpdErrorView::Syntax { offset: tail as nat })
            } else {
                Ok((defs, weeks))
            }
        },
    }
}

/// The definition at `p`: `Ok(None)` where there is none, the clock error
/// where its time lies outside a 24-hour clock.
pub fn parse_definition(text: &str, s: &Vec<char>, p: usize) -> (r: Result<
    Option<((String, Shift), usize)>,
    SpdError,
>)
    requires
        s@ == text@,
        p <= s@.len() <= usize::MAX,
    ensures
        match r {
            Ok(None) => definition_at(s@, p as int) is NoMatch,
            Err(e) => definition_at(s@, p as int) matches DefinitionStep::BadClock(h, m, sec)
                && e@ == (SpdErrorView::InvalidClock { hour: h, minute: m, second: sec }),
            Ok(Some((d, e))) => definition_at(s@, p as int) == DefinitionStep::Found(
                d.0@,
                d.1@,
                e as int,
            ) && p < e <= s@.len() && d.1@.wf(),
        },
{
    let a = scan_class(s, p, CharClass::Alpha);
    if a == p {
        return Ok(None);
    }
    let b = scan_class(s, a, CharClass::Blank);
    let (h, m, sec, c) = match parse_clock(s, b) {
        None => return Ok(None),
        Some(t) => t,
    };
    let start_time = match ClockTime::from_hms(h, m, sec) {
        None => return Err(SpdError::InvalidClock { hour: h, minute: m, second: sec }),
        Some(t) => t,
    };
    let d = scan_class(s, c, CharClass::Blank);
    let (length, e) = match parse_duration(s, d) {
        None => return Ok(None),
        Some(x) => x,
    };
    let f = scan_class(s, e, CharClass::Blank);
    let (name, g) = match parse_name(text, s, f) {
        None => return Ok(None),
        Some(x) => x,
    };
    let end = scan_class(s, g, CharClass::Blank);
    let ident = text_between(text, s, p, a);
    Ok(Some(((ident, Shift { name, start_time, length }), end)))
}

/// All the definitions at the start of the text, and the position after
/// them and the whitespace that follows.
pub fn parse_definitions(text: &str, s: &Vec<char>) -> (r: Result<
    (Vec<(String, Shift)>, usize),
    SpdError,
>)
    requires
        s@ == text@,
        s@.len() <= usize::MAX,
    ensures
        match r {
            Err(e) => definitions_from(s@, 0) == Err::<(Seq<(Seq<char>, ShiftView)>, int), _>(e@),
            Ok((defs, end)) => definitions_from(s@, 0) == Ok::<_, SpdErrorView>(
                (defs.deep_view(), end as int),
            ) && end <= s@.len() && forall|k: int| 0 <= k < defs@.len() ==> (#[trigger] defs@[k]).1@.wf(),
        },
{
    let mut defs: Vec<(String, Shift)> = Vec::new();
    let mut j: usize = 0;
    loop
        invariant
            s@ == text@,
            j <= s@.len() <= usize::MAX,
            forall|k: int| 0 <= k < defs@.len() ==> (#[trigger] defs@[k]).1@.wf(),
            definitions_from(s@, 0) == match definitions_from(s@, j as int) {
                Err(e) => Err(e),
                Ok((rest, end)) => Ok((defs.deep_view() + rest, end)),
            },
        decreases s@.len() - j,
    {
        let p = scan_class(s, j, CharClass::Space);
        match parse_definition(text, s, p) {
            Err(e) => {
                return Err(e);
            },
            Ok(None) => {
                assert(defs.deep_view() + seq![] =~= defs.deep_view());
                return Ok((defs, p));
            },
            Ok(Some((d, e))) => {
                let ghost before = defs.deep_view();
                let ghost item = (d.0@, d.1@);
                defs.push(d);
                assert(defs.deep_view() =~= before.push(item));
                assert forall|rest: Seq<(Seq<char>, ShiftView)>|
                    before + (seq![item] + rest) =~= defs.deep_view() + rest by {}
                j = e;
            },
        }
    }
}

/// The `k`-th letter of the keyword `pattern`, in lower and in upper case.
fn keyword_letters(k: usize) -> (r: (char, char))
    ensures
        r == keyword_letter(k as int),
{
    if k == 0 {
        ('p', 'P')
    } else if k == 1 {
        ('a', 'A')
    } else if k == 2 || k == 3 {
        ('t', 'T')
    } else if k == 4 {
        ('e', 'E')
    } else if k == 5 {
        ('r', 'R')
    } else {
        ('n', 'N')
    }
}

/// Whether the keyword `pattern`, in any case, stands at `p`.
pub fn keyword_matches(s: &Vec<char>, p: usize) -> (r: bool)
    requires
        s@.len() <= usize::MAX,
    ensures
        r == keyword_at(s@, p as int),
{
    if p > s.len() || s.len() - p < 7 {
        return false;
    }
    let mut k: usize = 0;
    while k < 7
        invariant
            k <= 7,
            p + 7 <= s@.len() <= usize::MAX,
            forall|m: int|
                0 <= m < k ==> (s@[p + m] == keyword_letter(m).0 || s@[p + m] == keyword_letter(
                    m,
                ).1),
        decreases 7 - k,
    {
        let (lower, upper) = keyword_letters(k);
        let c = s[p + k];
        if c != lower && c != upper {
            return false;
        }
        k = k + 1;
    }
    true
}

/// A day token at `i`.
pub fn parse_day(text: &str, s: &Vec<char>, i: usize) -> (r: Option<(ParsedShiftDay, usize)>)
    requires
        s@ == text@,
        i <= s@.len() <= usize::MAX,
    ensures
        match r {
            None => day_at(s@, i as int) is None,
            Some((t, e)) => day_at(s@, i as int) == Some((t@, e as int)) && i < e <= s@.len(),
        },
{
    if char_at_is(s, i, '_') {
        return Some((ParsedShiftDay::NotWorking, i + 1));
    }
    let a = scan_class(s, i, CharClass::Alpha);
    if a == i {
        None
    } else {
        Some((ParsedShiftDay::OnShift(text_between(text, s, i, a)), a))
    }
}

proof fn lemma_days_fail(s: Seq<char>, i: int, k: nat, n: nat)
    requires
        k <= n,
        days_from(s, i, k) is None,
    ensures
        days_from(s, i, n) is None,
    decreases n,
{
    if k < n {
        lemma_days_fail(s, i, k, (n - 1) as nat);
    }
}

/// A week of the table at `i`: seven day tokens, and the position after the
/// seventh and the spaces and tabs that follow it.
pub fn parse_week(text: &str, s: &Vec<char>, i: usize) -> (r: Option<(Vec<ParsedShiftDay>, usize)>)
    requires
        s@ == text@,
        i <= s@.len() <= usize::MAX,
    ensures
        match r {
            None => week_at(s@, i as int) is None,
            Some((w, e)) => week_at(s@, i as int) == Some((w.deep_view(), e as int)) && i < e
                <= s@.len() && w@.len() == 7 && e == scan(s@, e as int, CharClass::Blank),
        },
{
    let mut days: Vec<ParsedShiftDay> = Vec::new();
    let mut j = i;
    let mut k: usize = 0;
    while k < 7
        invariant
            s@ == text@,
            k <= 7,
            i <= j <= s@.len() <= usize::MAX,
            days@.len() == k,
            k > 0 ==> i < j && j == scan(s@, j as int, CharClass::Blank),
            days_from(s@, i as int, k as nat) == Some((days.deep_view(), j as int)),
        decreases 7 - k,
    {
        let b = scan_class(s, j, CharClass::Blank);
        match parse_day(text, s, b) {
            None => {
                proof {
                    lemma_days_fail(s@, i as int, (k + 1) as nat, 7);
                }
                return None;
            },
            Some((t, c)) => {
                let ghost before = days.deep_view();
                let ghost tv = t@;
                days.push(t);
                assert(days.deep_view() =~= before.push(tv));
                j = scan_class(s, c, CharClass::Blank);
                proof {
                    lemma_scan_settles(s@, c as int, CharClass::Blank);
                }
                k = k + 1;
            },
        }
    }
    Some((days, j))
}

/// The position after a line break at `i`.
pub fn parse_line_end(s: &Vec<char>, i: usize) -> (r: Option<usize>)
    requires
        i <= s@.len() <= usize::MAX,
    ensures
        match r {
            None => line_end_at(s@, i as int) is None,
            Some(e) => line_end_at(s@, i as int) == Some(e as int) && i < e <= s@.len(),
        },
{
    if char_at_is(s, i, '\n') {
        Some(i + 1)
    } else if char_at_is(s, i, '\r') && char_at_is(s, i + 1, '\n') {
        Some(i + 2)
    } else {
        None
    }
}

/// The weeks of the table from `i` on, and where they end.
pub fn parse_weeks(text: &str, s: &Vec<char>, i: usize) -> (r: (Vec<Vec<ParsedShiftDay>>, usize))
    requires
        s@ == text@,
        i <= s@.len() <= usize::MAX,
    ensures
        weeks_from(s@, i as int) == (r.0.deep_view(), r.1 as int),
        r.1 <= s@.len(),
        forall|k: int| 0 <= k < r.0@.len() ==> (#[trigger] r.0@[k])@.len() == 7,
{
    let mut weeks: Vec<Vec<ParsedShiftDay>> = Vec::new();
    let mut j = i;
    loop
        invariant
            s@ == text@,
            i <= j <= s@.len() <= usize::MAX,
            weeks_from(s@, i as int) == (weeks.deep_view() + weeks_from(s@, j as int).0, weeks_from(
                s@,
                j as int,
            ).1),
            forall|k: int| 0 <= k < weeks@.len() ==> (#[trigger] weeks@[k])@.len() == 7,
        decreases s@.len() - j,
    {
        match parse_week(text, s, j) {
            None => {
                assert(weeks.deep_view() + seq![] =~= weeks.deep_view());
                return (weeks, j);
            },
            Some((w, k)) => {
                let e = match parse_line_end(s, k) {
                    None => {
                        assert(weeks.deep_view() + seq![] =~= weeks.deep_view());
                        return (weeks, j);
                    },
                    Some(e) => e,
                };
                let ghost before = weeks.deep_view();
                let ghost wv = w.deep_view();
                weeks.push(w);
                assert(weeks.deep_view() =~= before.push(wv));
                assert(before + (seq![wv] + weeks_from(s@, e as int).0) =~= weeks.deep_view()
                    + weeks_from(s@, e as int).0);
                j = e;
            },
        }
    }
}

/// The definitions and week rows that `text` holds, before any identifier is
/// looked up.
pub fn parse_syntax(text: &str) -> (r: Result<
    (Vec<(String, Shift)>, Vec<Vec<ParsedShiftDay>>),
    SpdError,
>)
    ensures
        match r {
            Err(e) => spd_syntax(text@) == Err::<
                (Seq<(Seq<char>, ShiftView)>, Seq<Seq<TokenView>>),
                _,
            >(e@),
            Ok((defs, weeks)) => spd_syntax(text@) == Ok::<_, SpdErrorView>(
                (defs.deep_view(), weeks.deep_view()),
            ) && (forall|k: int| 0 <= k < weeks@.len() ==> (#[trigger] weeks@[k])@.len() == 7) && (
            forall|k: int| 0 <= k < defs@.len() ==> (#[trigger] defs@[k]).1@.wf()),
        },
{
    let s = crate::lexical::chars_of(text);
    let (defs, p) = match parse_definitions(text, &s) {
        Err(e) => return Err(e),
        Ok(x) => x,
    };
    if !keyword_matches(&s, p) {
        return Err(SpdError::Syntax { offset: p });
    }
    let q = scan_class(&s, p + 7, CharClass::Space);
    if q == p + 7 {
        return Err(SpdError::Syntax { offset: p });
    }
    let (weeks, e) = parse_weeks(text, &s, q);
    let tail = scan_class(&s, e, CharClass::Space);
    if weeks.len() == 0 {
        Err(SpdError::Syntax { offset: q })
    } else if tail != s.len() {
        Err(SpdError::Syntax { offset: tail })
    } else {
        Ok((defs, weeks))
    }
}

proof fn lemma_scan_settles(s: Seq<char>, i: int, class: CharClass)
    ensures
        scan(s, scan(s, i, class), class) == scan(s, i, class),
    decreases s.len() - i,
{
    if 0 <= i < s.len() && in_class(s[i], class) {
        lemma_scan_settles(s, i + 1, class);
    }
}

/// A line of the table is a week only with exactly seven day tokens: after
/// six tokens and the line break no week stands there, and after seven
/// tokens with an eighth on the line no line break ends the week.
pub proof fn lemma_week_needs_seven_tokens(s: Seq<char>, i: int)
    ensures
        (days_from(s, i, 6) matches Some((days, j)) && line_end_at(s, j) is Some) ==> week_at(
            s,
            i,
        ) is None,
        days_from(s, i, 8) is Some ==> (week_at(s, i) matches Some((days, j)) && line_end_at(
            s,
            j,
        ) is None),
{
    assert(days_from(s, i, 7) == match days_from(s, i, 6) {
        None => None,
        Some((days, j)) => match day_at(s, scan(s, j, CharClass::Blank)) {
            None => None,
            Some((t, c)) => Some((days.push(t), scan(s, c, CharClass::Blank))),
        },
    });
    if let Some((days, j)) = days_from(s, i, 6) {
        if line_end_at(s, j) is Some {
            assert(scan(s, j, CharClass::Blank) == j);
            assert(day_at(s, j) is None);
        }
    }
    if let Some((days, j)) = days_from(s, i, 7) {
        if let Some((d6, j6)) = days_from(s, i, 6) {
            if let Some((t, c)) = day_at(s, scan(s, j6, CharClass::Blank)) {
                lemma_scan_settles(s, c, CharClass::Blank);
            }
        }
    }
}

} // verus!
