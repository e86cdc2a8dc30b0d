//! The streak engine: the current consecutive-day completion streak of a
//! habit, computed as a fold over its completion history ordered by date
//! descending, together with the ordered, ranged, limited history query that
//! feeds clients.
//!
//! The streak rule: walk from the most recent completion backward; count while
//! each record is marked completed and dated exactly one calendar day before
//! the last counted one. The most recent record itself need not be today; a
//! gap or an uncompleted record ends the count.

use vstd::prelude::*;

verus! {

use crate::dates::{is_next_day, parse_date, spec_next_day, spec_parse_date};
use crate::records::{opt_str_view, HabitCompletionData};
use crate::store::Store;
use crate::text::{lemma_lex_le_total, lemma_lex_le_trans, lex_le, str_eq, str_le};

/// The completion rows of one habit, in stored order.
pub open spec fn completions_of(cs: Seq<HabitCompletionData>, hid: Seq<char>) -> Seq<
    HabitCompletionData,
>
    decreases cs.len(),
{
    if cs.len() == 0 {
        Seq::empty()
    } else {
        let rest = completions_of(cs.drop_last(), hid);
        if cs.last().habit_id@ == hid {
            rest.push(cs.last())
        } else {
            rest
        }
    }
}

/// The date lies inside the (optional) inclusive bounds.
pub open spec fn in_date_range(
    c: HabitCompletionData,
    start: Option<Seq<char>>,
    end: Option<Seq<char>>,
) -> bool {
    &&& match start {
        Some(s) => lex_le(s, c.date@),
        None => true,
    }
    &&& match end {
        Some(e) => lex_le(c.date@, e),
        None => true,
    }
}

/// The completion rows of one habit that fall inside the bounds, in stored
/// order.
pub open spec fn completions_in_range(
    cs: Seq<HabitCompletionData>,
    hid: Seq<char>,
    start: Option<Seq<char>>,
    end: Option<Seq<char>>,
) -> Seq<HabitCompletionData>
    decreases cs.len(),
{
    if cs.len() == 0 {
        Seq::empty()
    } else {
        let rest = completions_in_range(cs.drop_last(), hid, start, end);
        if cs.last().habit_id@ == hid && in_date_range(cs.last(), start, end) {
            rest.push(cs.last())
        } else {
            rest
        }
    }
}

/// Descending insertion point order: `x` goes behind every row whose date is
/// not below `x`'s.
pub open spec fn insert_desc(s: Seq<HabitCompletionData>, x: HabitCompletionData) -> Seq<
    HabitCompletionData,
>
    decreases s.len(),
{
    if s.len() == 0 {
        seq![x]
    } else if lex_le(x.date@, s[0].date@) {
        seq![s[0]] + insert_desc(s.drop_first(), x)
    } else {
        seq![x] + s
    }
}

/// The rows sorted by date descending, by insertion.
pub open spec fn sort_desc(s: Seq<HabitCompletionData>) -> Seq<HabitCompletionData>
    decreases s.len(),
{
    if s.len() == 0 {
        Seq::empty()
    } else {
        insert_desc(sort_desc(s.drop_last()), s.last())
    }
}

/// `cur` is dated exactly one calendar day before `prev`.
pub open spec fn streak_step_ok(prev: HabitCompletionData, cur: HabitCompletionData) -> bool {
    match (spec_parse_date(cur.date@), spec_parse_date(prev.date@)) {
        (Some(a), Some(b)) => spec_next_day(a) == b,
        _ => false,
    }
}

/// Rows counted from position `i` on, where position `i - 1` was counted.
pub open spec fn streak_count(s: Seq<HabitCompletionData>, i: int) -> nat
    decreases s.len() - i,
        when 0 < i <= s.len()
{
    if i <= 0 || i >= s.len() {
        0
    } else if s[i].completed && streak_step_ok(s[i - 1], s[i]) {
        1 + streak_count(s, i + 1)
    } else {
        0
    }
}

/// The streak of a history sorted by date descending: zero when it is empty
/// or its most recent row is not completed, else one plus the consecutive
/// completed rows each a day earlier than the last.
pub open spec fn streak_spec(s: Seq<HabitCompletionData>) -> nat {
    if s.len() == 0 || !s[0].completed {
        0
    } else {
        1 + streak_count(s, 1)
    }
}

/// The streak of a habit: its completions, ordered by date descending, folded
/// by the streak rule.
pub open spec fn habit_streak(cs: Seq<HabitCompletionData>, hid: Seq<char>) -> nat {
    streak_spec(sort_desc(completions_of(cs, hid)))
}

/// Where a limited query cuts the ordered result off: a negative limit means
/// no limit, and limits are capped at 1000 rows.
pub open spec fn take_limited(s: Seq<HabitCompletionData>, limit: Option<i32>) -> Seq<
    HabitCompletionData,
> {
    match limit {
        None => s,
        Some(l) => if l < 0 {
            s
        } else {
            let k: int = if l > 1000 {
                1000
            } else {
                l as int
            };
            if k < s.len() {
                s.take(k)
            } else {
                s
            }
        },
    }
}

/// Dates never increase along the sequence.
pub open spec fn sorted_by_date_desc(s: Seq<HabitCompletionData>) -> bool {
    forall|i: int, j: int| 0 <= i < j < s.len() ==> lex_le((#[trigger] s[j]).date@, (#[trigger] s[i]).date@)
}

/// Insertion adds exactly the new row.
proof fn lemma_insert_desc_element(s: Seq<HabitCompletionData>, x: HabitCompletionData, k: int)
    requires
        0 <= k < insert_desc(s, x).len(),
    ensures
        insert_desc(s, x).len() == s.len() + 1,
        insert_desc(s, x)[k] == x || s.contains(insert_desc(s, x)[k]),
    decreases s.len(),
{
    let out = insert_desc(s, x);
    if s.len() == 0 {
    } else if lex_le(x.date@, s[0].date@) {
        let rest = s.drop_first();
        if k == 0 {
            assert(out[0] == s[0]);
            assert(s.contains(s[0]));
            lemma_insert_desc_element(rest, x, 0);
        } else {
            lemma_insert_desc_element(rest, x, k - 1);
            assert(out[k] == insert_desc(rest, x)[k - 1]);
            if insert_desc(rest, x)[k - 1] != x {
                let m = choose|m: int| 0 <= m < rest.len() && rest[m] == insert_desc(
                    rest,
                    x,
                )[k - 1];
                assert(s[m + 1] == out[k]);
            }
        }
    } else {
        if k > 0 {
            assert(out[k] == s[k - 1]);
        }
    }
}

/// Insertion keeps the table sorted by date descending.
proof fn lemma_insert_desc_sorted(s: Seq<HabitCompletionData>, x: HabitCompletionData)
    requires
        sorted_by_date_desc(s),
    ensures
        sorted_by_date_desc(insert_desc(s, x)),
        insert_desc(s, x).len() == s.len() + 1,
    decreases s.len(),
{
    let out = insert_desc(s, x);
    if s.len() == 0 {
        assert(sorted_by_date_desc(out));
    } else if lex_le(x.date@, s[0].date@) {
        let rest = s.drop_first();
        assert(sorted_by_date_desc(rest)) by {
            assert forall|i: int, j: int|
                0 <= i < j < rest.len() implies lex_le(
                (#[trigger] rest[j]).date@,
                (#[trigger] rest[i]).date@,
            ) by {
                assert(lex_le(s[j + 1].date@, s[i + 1].date@));
            }
        }
        lemma_insert_desc_sorted(rest, x);
        let rest2 = insert_desc(rest, x);
        assert forall|i: int, j: int|
            0 <= i < j < out.len() implies lex_le(
            (#[trigger] out[j]).date@,
            (#[trigger] out[i]).date@,
        ) by {
            if i == 0 {
                assert(out[0] == s[0]);
                assert(out[j] == rest2[j - 1]);
                lemma_insert_desc_element(rest, x, j - 1);
                if rest2[j - 1] == x {
                } else {
                    let m = choose|m: int| 0 <= m < rest.len() && rest[m] == rest2[j - 1];
                    assert(lex_le(s[m + 1].date@, s[0].date@));
                }
            } else {
                assert(out[i] == rest2[i - 1] && out[j] == rest2[j - 1]);
                assert(lex_le(rest2[j - 1].date@, rest2[i - 1].date@));
            }
        }
    } else {
        lemma_lex_le_total(x.date@, s[0].date@);
        assert forall|i: int, j: int|
            0 <= i < j < out.len() implies lex_le(
            (#[trigger] out[j]).date@,
            (#[trigger] out[i]).date@,
        ) by {
            if i == 0 {
                assert(out[0] == x);
                assert(out[j] == s[j - 1]);
                if j > 1 {
                    assert(lex_le(s[j - 1].date@, s[0].date@));
                    lemma_lex_le_trans(s[j - 1].date@, s[0].date@, x.date@);
                }
            } else {
                assert(out[i] == s[i - 1] && out[j] == s[j - 1]);
            }
        }
    }
}

/// The order the streak is computed over really is descending by date.
pub proof fn lemma_sort_desc_sorted(s: Seq<HabitCompletionData>)
    ensures
        sorted_by_date_desc(sort_desc(s)),
        sort_desc(s).len() == s.len(),
    decreases s.len(),
{
    if s.len() > 0 {
        lemma_sort_desc_sorted(s.drop_last());
        lemma_insert_desc_sorted(sort_desc(s.drop_last()), s.last());
    }
}

/// `insert_desc` is insertion at the first position whose date is below.
proof fn lemma_insert_desc_at(s: Seq<HabitCompletionData>, x: HabitCompletionData, pos: int)
    requires
        0 <= pos <= s.len(),
        forall|j: int| 0 <= j < pos ==> lex_le(x.date@, (#[trigger] s[j]).date@),
        pos < s.len() ==> !lex_le(x.date@, s[pos].date@),
    ensures
        insert_desc(s, x) == s.insert(pos, x),
    decreases s.len(),
{
    if s.len() == 0 {
        assert(insert_desc(s, x) =~= s.insert(0, x));
    } else if pos == 0 {
        assert(insert_desc(s, x) =~= s.insert(0, x));
    } else {
        assert(lex_le(x.date@, s[0].date@));
        let rest = s.drop_first();
        assert forall|j: int| 0 <= j < pos - 1 implies lex_le(
            x.date@,
            (#[trigger] rest[j]).date@,
        ) by {
            assert(rest[j] == s[j + 1]);
        }
        lemma_insert_desc_at(rest, x, pos - 1);
        assert(insert_desc(s, x) =~= s.insert(pos, x));
    }
}

/// Inserts one row into a table already sorted by date descending.
fn insert_sorted_desc(rows: Vec<HabitCompletionData>, x: HabitCompletionData) -> (r: Vec<
    HabitCompletionData,
>)
    ensures
        r@ == insert_desc(rows@, x),
{
    let mut pos: usize = 0;
    while pos < rows.len() && str_le(&x.date, &rows[pos].date)
        invariant
            pos <= rows.len(),
            forall|j: int| 0 <= j < pos ==> lex_le(x.date@, (#[trigger] rows@[j]).date@),
        decreases rows.len() - pos,
    {
        pos += 1;
    }
    proof {
        lemma_insert_desc_at(rows@, x, pos as int);
    }
    let mut out = rows;
    out.insert(pos, x);
    out
}

/// Sorts completion rows by date descending.
fn sort_rows_desc(rows: Vec<HabitCompletionData>) -> (r: Vec<HabitCompletionData>)
    ensures
        r@ == sort_desc(rows@),
{
    let mut out: Vec<HabitCompletionData> = Vec::new();
    let mut i: usize = 0;
    proof {
        assert(rows@.take(0) =~= Seq::<HabitCompletionData>::empty());
    }
    while i < rows.len()
        invariant
            i <= rows.len(),
            out@ == sort_desc(rows@.take(i as int)),
        decreases rows.len() - i,
    {
        proof {
            assert(rows@.take(i + 1) =~= rows@.take(i as int).push(rows@[i as int]));
            assert(rows@.take(i + 1).drop_last() =~= rows@.take(i as int));
        }
        out = insert_sorted_desc(out, rows[i].clone());
        i += 1;
    }
    proof {
        assert(rows@.take(rows@.len() as int) =~= rows@);
    }
    out
}

/// Collects the completion rows of one habit, in stored order.
fn rows_of_habit(cs: &Vec<HabitCompletionData>, hid: &String) -> (r: Vec<HabitCompletionData>)
    ensures
        r@ == completions_of(cs@, hid@),
{
    let mut out: Vec<HabitCompletionData> = Vec::new();
    let mut i: usize = 0;
    proof {
        assert(cs@.take(0) =~= Seq::<HabitCompletionData>::empty());
    }
    while i < cs.len()
        invariant
            i <= cs.len(),
            out@ == completions_of(cs@.take(i as int), hid@),
        decreases cs.len() - i,
    {
        proof {
            assert(cs@.take(i + 1) =~= cs@.take(i as int).push(cs@[i as int]));
            assert(cs@.take(i + 1).drop_last() =~= cs@.take(i as int));
        }
        if str_eq(&cs[i].habit_id, hid) {
            out.push(cs[i].clone());
        }
        i += 1;
    }
    proof {
        assert(cs@.take(cs@.len() as int) =~= cs@);
    }
    out
}

/// Decides `in_date_range`.
fn row_in_range(c: &HabitCompletionData, start: &Option<String>, end: &Option<String>) -> (r: bool)
    ensures
        r == in_date_range(*c, opt_str_view(start), opt_str_view(end)),
{
    let start_ok = match start {
        Some(s) => str_le(s, &c.date),
        None => true,
    };
    let end_ok = match end {
        Some(e) => str_le(&c.date, e),
        None => true,
    };
    start_ok && end_ok
}

/// Decides whether `cur` is dated exactly one calendar day before `prev`.
fn streak_step(prev: &HabitCompletionData, cur: &HabitCompletionData) -> (r: bool)
    ensures
        r == streak_step_ok(*prev, *cur),
{
    match parse_date(cur.date.as_str()) {
        Some(a) => match parse_date(prev.date.as_str()) {
            Some(b) => is_next_day(&a, &b),
            None => false,
        },
        None => false,
    }
}

impl Store {
    /// The current consecutive-day streak of a habit: the number of completed
    /// rows, most recent first, each dated exactly one day before the last
    /// counted one. Zero when the habit has no completions or its most recent
    /// row is not completed; a single completed row gives one.
    pub fn compute_streak(&self, habit_id: &String) -> (n: usize)
        ensures
            n == habit_streak(self.completions@, habit_id@),
    {
        let rows = rows_of_habit(&self.completions, habit_id);
        let sorted = sort_rows_desc(rows);
        let ghost s = sorted@;
        if sorted.len() == 0 || !sorted[0].completed {
            return 0;
        }
        let mut n: usize = 1;
        let mut i: usize = 1;
        while i < sorted.len() && sorted[i].completed && streak_step(&sorted[i - 1], &sorted[i])
            invariant
                1 <= i <= s.len(),
                n == i,
                sorted@ == s,
                s.len() > 0 && s[0].completed,
                streak_spec(s) == i + streak_count(s, i as int),
            decreases sorted.len() - i,
        {
            i += 1;
            n += 1;
        }
        proof {
            assert(streak_count(s, i as int) == 0);
        }
        n
    }

    /// The completion history of a habit, bounded by optional inclusive
    /// dates, ordered by date descending, and cut off at the limit (negative
    /// means none; limits cap at 1000 rows).
    pub fn get_habit_completions(
        &self,
        habit_id: &String,
        start_date: &Option<String>,
        end_date: &Option<String>,
        limit: Option<i32>,
    ) -> (r: Vec<HabitCompletionData>)
        ensures
            r@ == take_limited(
                sort_desc(
                    completions_in_range(
                        self.completions@,
                        habit_id@,
                        opt_str_view(start_date),
                        opt_str_view(end_date),
                    ),
                ),
                limit,
            ),
    {
        let ghost start_v: Option<Seq<char>> = opt_str_view(start_date);
        let ghost end_v: Option<Seq<char>> = opt_str_view(end_date);
        let cs = &self.completions;
        let mut picked: Vec<HabitCompletionData> = Vec::new();
        let mut i: usize = 0;
        proof {
            assert(cs@.take(0) =~= Seq::<HabitCompletionData>::empty());
        }
        while i < cs.len()
            invariant
                i <= cs.len(),
                cs@ == self.completions@,
                start_v == opt_str_view(start_date),
                end_v == opt_str_view(end_date),
                picked@ == completions_in_range(cs@.take(i as int), habit_id@, start_v, end_v),
            decreases cs.len() - i,
        {
            proof {
                assert(cs@.take(i + 1) =~= cs@.take(i as int).push(cs@[i as int]));
                assert(cs@.take(i + 1).drop_last() =~= cs@.take(i as int));
            }
            let ghost pre = cs@.take(i as int);
            let ghost cur = cs@[i as int];
            let same_habit = str_eq(&cs[i].habit_id, habit_id);
            let inside = row_in_range(&cs[i], start_date, end_date);

            if same_habit && inside {
                picked.push(cs[i].clone());
                proof {
                    assert(cur.habit_id@ == habit_id@ && in_date_range(cur, start_v, end_v));
                    assert(completions_in_range(cs@.take(i + 1), habit_id@, start_v, end_v)
                        == completions_in_range(pre, habit_id@, start_v, end_v).push(cur));
                }
            } else {
                proof {
                    assert(!(cur.habit_id@ == habit_id@ && in_date_range(cur, start_v, end_v)));
                    assert(completions_in_range(cs@.take(i + 1), habit_id@, start_v, end_v)
                        == completions_in_range(pre, habit_id@, start_v, end_v));
                }
            }
            i += 1;
        }
        proof {
            assert(cs@.take(cs@.len() as int) =~= cs@);
        }
        let mut sorted = sort_rows_desc(picked);
        let ghost full = sorted@;
        match limit {
            None => sorted,
            Some(l) => {
                if l >= 0 {
                    let cap: usize = if l > 1000 {
                        1000
                    } else {
                        l as usize
                    };
                    if cap < sorted.len() {
                        sorted.truncate(cap);
                        proof {
                            assert(sorted@ =~= full.take(cap as int));
                        }
                    }
                }
                sorted
            },
        }
    }
}

} // verus!
