//! Resolution: every day token of the table becomes the shift that its
//! identifier names, the last definition of an identifier counting.

use vstd::prelude::*;
use crate::grammar::{parse_syntax, spd_syntax};
use crate::shift::{day_wf, pattern_wf, DayView, ParsedShiftDay, Shift, ShiftDay, ShiftPattern, ShiftView, SpdError, SpdErrorView, TokenView};

verus! {

/// The shift that `id` names among `defs`: its last definition there.
pub open spec fn lookup(defs: Seq<(Seq<char>, ShiftView)>, id: Seq<char>) -> Option<ShiftView>
    decreases defs.len(),
{
    if defs.len() == 0 {
        None
    } else if defs.last().0 == id {
        Some(defs.last().1)
    } else {
        lookup(defs.drop_last(), id)
    }
}

/// The token is `_`, or names a shift that `defs` defines.
pub open spec fn token_defined(defs: Seq<(Seq<char>, ShiftView)>, t: TokenView) -> bool {
    match t {
        TokenView::NotWorking => true,
        TokenView::Reference(id) => lookup(defs, id) is Some,
    }
}

/// The day that a defined token stands for.
pub open spec fn resolve_token(defs: Seq<(Seq<char>, ShiftView)>, t: TokenView) -> DayView {
    match t {
        TokenView::NotWorking => DayView::NotWorking,
        TokenView::Reference(id) => match lookup(defs, id) {
            Some(shift) => DayView::OnShift(shift),
            None => DayView::NotWorking,
        },
    }
}

/// Some token of the table names a shift that `defs` does not define.
pub open spec fn has_undefined(defs: Seq<(Seq<char>, ShiftView)>, rows: Seq<Seq<TokenView>>) -> bool {
    exists|a: int, b: int|
        0 <= a < rows.len() && 0 <= b < rows[a].len() && !token_defined(defs, #[trigger] rows[a][b])
}

/// Every token before row `i`, day `j` (rows first, then days) is defined.
pub open spec fn defined_before(
    defs: Seq<(Seq<char>, ShiftView)>,
    rows: Seq<Seq<TokenView>>,
    i: int,
    j: int,
) -> bool {
    forall|a: int, b: int|
        0 <= a < rows.len() && 0 <= b < rows[a].len() && (a < i || (a == i && b < j))
            ==> token_defined(defs, #[trigger] rows[a][b])
}

/// What a resolution result holds.
pub open spec fn result_view(r: Result<ShiftPattern, SpdError>) -> Result<Seq<Seq<DayView>>, SpdErrorView> {
    match r {
        Ok(p) => Ok(p.deep_view()),
        Err(e) => Err(e@),
    }
}

/// `r` is the resolution of `rows` against `defs`: the table with every token
/// replaced by its day where all are defined, else the error that names the
/// first undefined identifier, rows first, then days.
pub open spec fn resolution(
    defs: Seq<(Seq<char>, ShiftView)>,
    rows: Seq<Seq<TokenView>>,
    r: Result<Seq<Seq<DayView>>, SpdErrorView>,
) -> bool {
    match r {
        Ok(p) => {
            &&& !has_undefined(defs, rows)
            &&& p.len() == rows.len()
            &&& forall|a: int| 0 <= a < rows.len() ==> (#[trigger] p[a]).len() == rows[a].len()
            &&& forall|a: int, b: int|
                0 <= a < rows.len() && 0 <= b < rows[a].len() ==> #[trigger] p[a][b]
                    == resolve_token(defs, rows[a][b])
        },
        Err(e) => exists|a: int, b: int|
            {
                &&& 0 <= a < rows.len()
                &&& 0 <= b < rows[a].len()
                &&& defined_before(defs, rows, a, b)
                &&& #[trigger] rows[a][b] matches TokenView::Reference(id)
                &&& lookup(defs, id) is None
                &&& e == SpdErrorView::UndefinedShift { name: id }
            },
    }
}

/// The shift that `id` names among `defs`: a copy of its last definition.
pub fn find_definition(defs: &Vec<(String, Shift)>, id: &String) -> (r: Option<Shift>)
    requires
        forall|k: int| 0 <= k < defs@.len() ==> (#[trigger] defs@[k]).1@.wf(),
    ensures
        r matches Some(shift) ==> shift@.wf(),
        match r {
            None => lookup(defs.deep_view(), id@) is None,
            Some(shift) => lookup(defs.deep_view(), id@) == Some(shift@),
        },
{
    let ghost all = defs.deep_view();
    let mut k = defs.len();
    assert(all.take(k as int) =~= all);
    while k > 0
        invariant
            k <= defs@.len(),
            all == defs.deep_view(),
            forall|j: int| 0 <= j < defs@.len() ==> (#[trigger] defs@[j]).1@.wf(),
            lookup(all, id@) == lookup(all.take(k as int), id@),
        decreases k,
    {
        let ghost part = all.take(k as int);
        assert(part.drop_last() =~= all.take(k - 1));
        assert(part.last() == (defs@[k - 1].0@, defs@[k - 1].1@));
        if defs[k - 1].0 == *id {
            return Some(defs[k - 1].1.duplicate());
        }
        k = k - 1;
    }
    None
}

/// The table `rows` with each token replaced by the shift it names among
/// `definitions`, the last definition of an identifier counting; fails on
/// the first identifier that no definition gives.
pub fn resolve(definitions: &Vec<(String, Shift)>, rows: &Vec<Vec<ParsedShiftDay>>) -> (r: Result<
    ShiftPattern,
    SpdError,
>)
    requires
        forall|k: int| 0 <= k < definitions@.len() ==> (#[trigger] definitions@[k]).1@.wf(),
    ensures
        r matches Ok(p) ==> forall|a: int, b: int|
            0 <= a < p@.len() && 0 <= b < p@[a]@.len() ==> day_wf(#[trigger] p.deep_view()[a][b]),
        resolution(definitions.deep_view(), rows.deep_view(), result_view(r)),
        r is Err <==> has_undefined(definitions.deep_view(), rows.deep_view()),
{
    let ghost defs = definitions.deep_view();
    let ghost table = rows.deep_view();
    let mut out: ShiftPattern = Vec::new();
    let mut i: usize = 0;
    while i < rows.len()
        invariant
            defs == definitions.deep_view(),
            table == rows.deep_view(),
            i <= rows@.len(),
            out@.len() == i,
            defined_before(defs, table, i as int, 0),
            forall|k: int| 0 <= k < definitions@.len() ==> (#[trigger] definitions@[k]).1@.wf(),
            forall|a: int, b: int|
                0 <= a < i && 0 <= b < out@[a]@.len() ==> day_wf(#[trigger] out.deep_view()[a][b]),
            forall|a: int| 0 <= a < i ==> (#[trigger] out@[a])@.len() == table[a].len(),
            forall|a: int, b: int|
                0 <= a < i && 0 <= b < table[a].len() ==> #[trigger] out.deep_view()[a][b]
                    == resolve_token(defs, table[a][b]),
        decreases rows@.len() - i,
    {
        let row = &rows[i];
        let mut week: Vec<ShiftDay> = Vec::new();
        let mut j: usize = 0;
        while j < row.len()
            invariant
                defs == definitions.deep_view(),
                table == rows.deep_view(),
                i < rows@.len(),
                row == rows@[i as int],
                j <= row@.len(),
                week@.len() == j,
                defined_before(defs, table, i as int, j as int),
                forall|k: int| 0 <= k < definitions@.len() ==> (#[trigger] definitions@[k]).1@.wf(),
                forall|b: int| 0 <= b < j ==> day_wf(#[trigger] week.deep_view()[b]),
                forall|b: int| 0 <= b < j ==> #[trigger] week.deep_view()[b] == resolve_token(defs, table[i as int][b]),
            decreases row@.len() - j,
        {
            let ghost before = week.deep_view();
            match &row[j] {
                ParsedShiftDay::NotWorking => {
                    week.push(ShiftDay::NotWorking);
                },
                ParsedShiftDay::OnShift(id) => match find_definition(definitions, id) {
                    Some(shift) => {
                        week.push(ShiftDay::OnShift(shift));
                    },
                    None => {
                        assert(table[i as int][j as int] == TokenView::Reference(id@));
                        assert(!token_defined(defs, table[i as int][j as int]));
                        return Err(SpdError::UndefinedShift { name: id.clone() });
                    },
                },
            }
            assert(week.deep_view() =~= before.push(resolve_token(defs, table[i as int][j as int])));
            j = j + 1;
        }
        let ghost prior = out.deep_view();
        let ghost wv = week.deep_view();
        out.push(week);
        assert(out.deep_view() =~= prior.push(wv));
        i = i + 1;
    }
    assert(out.deep_view().len() == table.len());
    Ok(out)
}

/// The rotation that `input` describes: its definitions and week table read,
/// then every day token resolved.
pub fn parse_spd(input: &str) -> (r: Result<ShiftPattern, SpdError>)
    ensures
        match spd_syntax(input@) {
            Err(e) => r is Err && result_view(r) == Err::<Seq<Seq<DayView>>, _>(e),
            Ok((defs, rows)) => resolution(defs, rows, result_view(r)),
        },
        r matches Ok(p) ==> pattern_wf(p.deep_view()),
{
    match parse_syntax(input) {
        Err(e) => Err(e),
        Ok((defs, rows)) => {
            let r = resolve(&defs, &rows);
            proof {
                if r is Ok {
                    let p = r->Ok_0;
                    assert(rows.deep_view().len() >= 1);
                    assert forall|k: int| 0 <= k < p@.len() implies (#[trigger] p.deep_view()[k]).len() == 7 by {
                        assert(p.deep_view()[k].len() == rows.deep_view()[k].len());
                        assert(rows@[k]@.len() == 7);
                    }
                    assert forall|a: int, b: int| 0 <= a < p@.len() && 0 <= b < p.deep_view()[a].len()
                        implies day_wf(#[trigger] p.deep_view()[a][b]) by {
                        assert(p.deep_view()[a].len() == p@[a]@.len());
                    }
                }
            }
            r
        },
    }
}

/// Of two definitions of one identifier, the later one is the one that a
/// day token of that identifier resolves to.
pub proof fn lemma_last_definition_wins(defs: Seq<(Seq<char>, ShiftView)>, i: int, j: int, id: Seq<char>)
    requires
        0 <= i < j < defs.len(),
        defs[i].0 == id,
        defs[j].0 == id,
        forall|k: int| j < k < defs.len() ==> (#[trigger] defs[k]).0 != id,
    ensures
        lookup(defs, id) == Some(defs[j].1),
        resolve_token(defs, TokenView::Reference(id)) == DayView::OnShift(defs[j].1),
    decreases defs.len(),
{
    if j < defs.len() - 1 {
        assert(defs.last() == defs[defs.len() - 1]);
        lemma_last_definition_wins(defs.drop_last(), i, j, id);
    }
}

} // verus!
