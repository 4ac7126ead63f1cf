use vstd::prelude::*;

use crate::catalog::{
    goal_areas_of, in_goal_areas, meets_text, result_rows, row_of, search_result, selects,
    tag_matches, tags_of, Catalog, ResultRow,
};
use crate::ids::ids_of;
use crate::matching::matches_any;
use crate::plan::{plan_of, PlanModel};
use crate::sql::plan_sql;
use crate::tokenizer::{escape, escape_char, read_quoted, read_terms, term, ts_query, words};

verus! {

/// `r` is the row of a record among the first `n` that `plan` selects.
pub open spec fn row_of_selected(plan: PlanModel, c: &Catalog, n: int, r: ResultRow) -> bool {
    exists|j: int|
        0 <= j < n && selects(plan, c, #[trigger] &c.objectives@[j]) && r == row_of(
            c,
            &c.objectives@[j],
        )
}

/// Each of the rows of the first `n` records is the row of a selected record.
pub proof fn lemma_rows_are_selected(plan: PlanModel, c: &Catalog, n: int)
    requires
        0 <= n <= c.objectives@.len(),
    ensures
        forall|i: int|
            0 <= i < result_rows(plan, c, n).len() ==> row_of_selected(
                plan,
                c,
                n,
                #[trigger] result_rows(plan, c, n)[i],
            ),
    decreases n,
{
    if n > 0 {
        lemma_rows_are_selected(plan, c, n - 1);
        let prev = result_rows(plan, c, n - 1);
        let rows = result_rows(plan, c, n);
        assert forall|i: int| 0 <= i < rows.len() implies row_of_selected(
            plan,
            c,
            n,
            #[trigger] rows[i],
        ) by {
            if i < prev.len() {
                assert(rows[i] == prev[i]);
                assert(row_of_selected(plan, c, n - 1, prev[i]));
                let j = choose|j: int|
                    0 <= j < n - 1 && selects(plan, c, #[trigger] &c.objectives@[j]) && prev[i]
                        == row_of(c, &c.objectives@[j]);
                assert(0 <= j < n);
            } else {
                assert(rows[i] == row_of(c, &c.objectives@[n - 1]));
                assert(selects(plan, c, &c.objectives@[n - 1]));
            }
        };
    }
}

/// A plan that selects nothing gives no rows.
pub proof fn lemma_nothing_gives_no_rows(c: &Catalog, n: int)
    ensures
        result_rows(PlanModel::Nothing, c, n) == Seq::<ResultRow>::empty(),
    decreases n,
{
    if n > 0 {
        lemma_nothing_gives_no_rows(c, n - 1);
        assert(result_rows(PlanModel::Nothing, c, n) =~= Seq::<ResultRow>::empty());
    }
}

/// A plan that selects every record gives the rows of all of them, in order.
pub proof fn lemma_all_selected_gives_all_rows(plan: PlanModel, c: &Catalog, n: int)
    requires
        0 <= n <= c.objectives@.len(),
        forall|j: int| 0 <= j < n ==> selects(plan, c, &c.objectives@[j]),
    ensures
        result_rows(plan, c, n).len() == n,
        forall|i: int| 0 <= i < n ==> #[trigger] result_rows(plan, c, n)[i] == row_of(c, &c.objectives@[i]),
    decreases n,
{
    if n > 0 {
        lemma_all_selected_gives_all_rows(plan, c, n - 1);
        assert(selects(plan, c, &c.objectives@[n - 1]));
        let prev = result_rows(plan, c, n - 1);
        assert forall|i: int| 0 <= i < n implies #[trigger] result_rows(plan, c, n)[i] == row_of(
            c,
            &c.objectives@[i],
        ) by {
            if i < n - 1 {
                assert(result_rows(plan, c, n)[i] == prev[i]);
            }
        };
    }
}

/// Without a phrase and without a goal-area list, a search returns every
/// record, in store order.
pub proof fn lemma_unfiltered_search_returns_all(c: &Catalog)
    ensures
        search_result(plan_of(None, None), c).len() == c.objectives@.len(),
        forall|i: int|
            0 <= i < c.objectives@.len() ==> #[trigger] search_result(plan_of(None, None), c)[i]
                == row_of(c, &c.objectives@[i]),
{
    lemma_all_selected_gives_all_rows(plan_of(None, None), c, c.objectives@.len() as int);
}

/// A phrase that is present but has no words gives no results, whatever the
/// goal-area list.
pub proof fn lemma_empty_phrase_returns_nothing(c: &Catalog, q: Seq<char>, ids: Option<Seq<char>>)
    requires
        words(q).len() == 0,
    ensures
        search_result(plan_of(Some(q), ids), c) == Seq::<ResultRow>::empty(),
{
    lemma_nothing_gives_no_rows(c, c.objectives@.len() as int);
}

/// A goal-area list that is present but holds no valid id gives no results,
/// whatever the phrase.
pub proof fn lemma_empty_id_list_returns_nothing(c: &Catalog, q: Option<Seq<char>>, ids: Seq<char>)
    requires
        ids_of(ids).len() == 0,
    ensures
        search_result(plan_of(q, Some(ids)), c) == Seq::<ResultRow>::empty(),
{
    lemma_nothing_gives_no_rows(c, c.objectives@.len() as int);
}

/// `r` belongs to one of the goal areas `s`.
pub open spec fn in_a_listed_goal_area(r: ResultRow, s: Seq<i32>) -> bool {
    exists|k: int| 0 <= k < s.len() && r.goal_area_ids.contains(#[trigger] s[k])
}

/// With a goal-area list, each returned record belongs to one of the listed
/// goal areas.
pub proof fn lemma_results_share_a_listed_goal_area(c: &Catalog, q: Option<Seq<char>>, ids: Seq<char>)
    ensures
        forall|i: int|
            0 <= i < search_result(plan_of(q, Some(ids)), c).len() ==> in_a_listed_goal_area(
                #[trigger] search_result(plan_of(q, Some(ids)), c)[i],
                ids_of(ids),
            ),
{
    let plan = plan_of(q, Some(ids));
    let rows = search_result(plan, c);
    lemma_rows_are_selected(plan, c, c.objectives@.len() as int);
    assert forall|i: int| 0 <= i < rows.len() implies in_a_listed_goal_area(
        #[trigger] rows[i],
        ids_of(ids),
    ) by {
        assert(row_of_selected(plan, c, c.objectives@.len() as int, rows[i]));
        let j = choose|j: int|
            0 <= j < c.objectives@.len() && selects(plan, c, #[trigger] &c.objectives@[j])
                && rows[i] == row_of(c, &c.objectives@[j]);
        let o = &c.objectives@[j];
        assert(in_goal_areas(c, o.id, ids_of(ids)));
        let k = choose|k: int|
            0 <= k < ids_of(ids).len() && goal_areas_of(c, o.id).contains(#[trigger] ids_of(ids)[k]);
        assert(rows[i].goal_area_ids.contains(ids_of(ids)[k]));
    };
}

/// With a phrase that has words, each returned record has a word beginning
/// with one of them in its description or in the name of one of its tags.
pub proof fn lemma_results_match_the_phrase(c: &Catalog, q: Seq<char>, ids: Option<Seq<char>>)
    requires
        words(q).len() > 0,
    ensures
        forall|i: int|
            0 <= i < search_result(plan_of(Some(q), ids), c).len() ==> {
                let r = #[trigger] search_result(plan_of(Some(q), ids), c)[i];
                matches_any(r.description, words(q)) || tag_matches(c, r.id, words(q))
            },
{
    let plan = plan_of(Some(q), ids);
    let rows = search_result(plan, c);
    lemma_rows_are_selected(plan, c, c.objectives@.len() as int);
    assert forall|i: int| 0 <= i < rows.len() implies matches_any(
        (#[trigger] rows[i]).description,
        words(q),
    ) || tag_matches(c, rows[i].id, words(q)) by {
        assert(row_of_selected(plan, c, c.objectives@.len() as int, rows[i]));
        let j = choose|j: int|
            0 <= j < c.objectives@.len() && selects(plan, c, #[trigger] &c.objectives@[j])
                && rows[i] == row_of(c, &c.objectives@[j]);
        assert(meets_text(c, &c.objectives@[j], Some(words(q))));
    };
}

/// Each returned record carries all of its goal-area ids and all of its tag
/// ids, whichever constraint selected it.
pub proof fn lemma_results_carry_all_ids(c: &Catalog, q: Option<Seq<char>>, ids: Option<Seq<char>>)
    ensures
        forall|i: int|
            0 <= i < search_result(plan_of(q, ids), c).len() ==> {
                let r = #[trigger] search_result(plan_of(q, ids), c)[i];
                r.goal_area_ids == goal_areas_of(c, r.id) && r.tag_ids == tags_of(c, r.id)
            },
{
    let plan = plan_of(q, ids);
    let rows = search_result(plan, c);
    lemma_rows_are_selected(plan, c, c.objectives@.len() as int);
    assert forall|i: int| 0 <= i < rows.len() implies {
        let r = #[trigger] rows[i];
        r.goal_area_ids == goal_areas_of(c, r.id) && r.tag_ids == tags_of(c, r.id)
    } by {
        assert(row_of_selected(plan, c, c.objectives@.len() as int, rows[i]));
    };
}

/// A quoted escaped token reads back as the token itself and closes exactly
/// at the quote that follows it, whatever characters it holds.
pub proof fn lemma_escaped_token_reads_back(t: Seq<char>, rest: Seq<char>)
    requires
        rest.len() == 0 || rest[0] != '\'',
    ensures
        read_quoted(escape(t) + seq!['\''] + rest) == Some((t, escape(t).len() + 1int)),
    decreases t.len(),
{
    let s = escape(t) + seq!['\''] + rest;
    if t.len() == 0 {
        assert(escape(t) =~= Seq::<char>::empty());
        assert(s =~= seq!['\''] + rest);
    } else {
        let c = t[0];
        let tail = escape(t.drop_first()) + seq!['\''] + rest;
        lemma_escaped_token_reads_back(t.drop_first(), rest);
        assert(s =~= escape_char(c) + tail);
        assert(seq![c] + t.drop_first() =~= t);
        if c == '\\' || c == '\'' {
            assert(s.subrange(2, s.len() as int) =~= tail);
        } else {
            assert(s.drop_first() =~= tail);
        }
    }
}

/// The query text depends on which constraints a request has, never on the
/// words of its phrase: two phrases with words give the same text.
pub proof fn lemma_query_text_ignores_phrase_content(q1: Seq<char>, q2: Seq<char>, ids: Option<Seq<char>>)
    requires
        words(q1).len() > 0,
        words(q2).len() > 0,
    ensures
        plan_sql(plan_of(Some(q1), ids)) == plan_sql(plan_of(Some(q2), ids)),
{
}

/// The query of two or more tokens is the first term, the separator, and the
/// query of the others.
pub proof fn lemma_ts_query_front(ts: Seq<Seq<char>>)
    requires
        ts.len() >= 2,
    ensures
        ts_query(ts) == term(ts[0]) + seq![' ', '|', ' '] + ts_query(ts.drop_first()),
    decreases ts.len(),
{
    let sep = seq![' ', '|', ' '];
    if ts.len() == 2 {
        assert(ts.drop_last().len() == 1);
        assert(ts.drop_first().len() == 1);
        assert(ts_query(ts.drop_last()) == term(ts[0]));
        assert(ts_query(ts.drop_first()) == term(ts[1]));
    } else {
        lemma_ts_query_front(ts.drop_last());
        assert(ts.drop_last().drop_first() =~= ts.drop_first().drop_last());
        assert(ts.drop_first().last() == ts.last());
        assert(ts_query(ts.drop_first()) == ts_query(ts.drop_first().drop_last()) + sep + term(
            ts.last(),
        ));
        assert(ts_query(ts) =~= term(ts[0]) + sep + ts_query(ts.drop_first()));
    }
}

/// A term followed by `rest` reads as the term's token, then what `rest` holds.
pub proof fn lemma_read_terms_first(t: Seq<char>, rest: Seq<char>)
    requires
        rest.len() == 0 || (rest.len() >= 3 && rest[0] == ' ' && rest[1] == '|' && rest[2] == ' '),
    ensures
        rest.len() == 0 ==> read_terms(term(t) + rest) == Some(seq![t]),
        rest.len() > 0 ==> read_terms(term(t) + rest) == match read_terms(
            rest.subrange(3, rest.len() as int),
        ) {
            Some(ts) => Some(seq![t] + ts),
            None => None,
        },
{
    let e = escape(t);
    let s = term(t) + rest;
    assert(s =~= seq!['\''] + e + seq!['\''] + (seq![':', '*'] + rest));
    lemma_escaped_token_reads_back(t, seq![':', '*'] + rest);
    assert(s.drop_first() =~= e + seq!['\''] + (seq![':', '*'] + rest));
    let after = s.subrange(e.len() + 2int, s.len() as int);
    assert(after =~= seq![':', '*'] + rest);
    if rest.len() > 0 {
        assert(after.subrange(5, after.len() as int) =~= rest.subrange(3, rest.len() as int));
    }
}

/// The text query of any tokens reads back as exactly those tokens: no
/// character of a token can end its term early or add an operator.
pub proof fn lemma_ts_query_reads_back(ts: Seq<Seq<char>>)
    requires
        ts.len() >= 1,
    ensures
        read_terms(ts_query(ts)) == Some(ts),
    decreases ts.len(),
{
    let t = ts[0];
    if ts.len() == 1 {
        assert(ts_query(ts) == term(t));
        lemma_read_terms_first(t, Seq::empty());
        assert(term(t) + Seq::<char>::empty() =~= term(t));
        assert(ts =~= seq![t]);
    } else {
        let sep = seq![' ', '|', ' '];
        let rest = sep + ts_query(ts.drop_first());
        lemma_ts_query_front(ts);
        assert(ts_query(ts) =~= term(t) + rest);
        lemma_read_terms_first(t, rest);
        assert(rest.subrange(3, rest.len() as int) =~= ts_query(ts.drop_first()));
        lemma_ts_query_reads_back(ts.drop_first());
        assert(seq![t] + ts.drop_first() =~= ts);
    }
}

} // verus!
