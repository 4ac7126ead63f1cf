use vstd::prelude::*;

use crate::matching::{matches_any, text_matches};
use crate::plan::{compile_search, plan_of, PlanModel, SearchPlan};
use crate::tokenizer::views;

verus! {

/// A category that records may belong to.
pub struct GoalArea {
    pub id: i32,
    pub description: String,
}

/// A descriptive label that records may carry.
pub struct Tag {
    pub id: i32,
    pub name: String,
}

/// A searchable record.
pub struct Objective {
    pub id: i32,
    pub description: String,
}

/// A snapshot of the record store: the records, the tags, and the
/// record-to-goal-area and record-to-tag edges as `(record id, other id)`.
pub struct Catalog {
    pub objectives: Vec<Objective>,
    pub goal_areas: Vec<GoalArea>,
    pub tags: Vec<Tag>,
    pub objective_goal_areas: Vec<(i32, i32)>,
    pub objective_tags: Vec<(i32, i32)>,
}

/// One result row: a record with all of its goal-area ids and tag ids.
pub struct CategorizedObjective {
    pub id: i32,
    pub description: String,
    pub goal_area_ids: Vec<i32>,
    pub tag_ids: Vec<i32>,
}

/// A result row as values: the id sets are unordered.
pub struct ResultRow {
    pub id: i32,
    pub description: Seq<char>,
    pub goal_area_ids: Set<i32>,
    pub tag_ids: Set<i32>,
}

impl View for CategorizedObjective {
    type V = ResultRow;

    open spec fn view(&self) -> ResultRow {
        ResultRow {
            id: self.id,
            description: self.description@,
            goal_area_ids: self.goal_area_ids@.to_set(),
            tag_ids: self.tag_ids@.to_set(),
        }
    }
}

pub open spec fn row_views(v: Seq<CategorizedObjective>) -> Seq<ResultRow> {
    v.map_values(|r: CategorizedObjective| r@)
}

/// The other ends of the edges that start at record `id`.
pub open spec fn linked(edges: Seq<(i32, i32)>, id: i32) -> Set<i32> {
    Set::new(|g: i32| edges.contains((id, g)))
}

pub open spec fn goal_areas_of(c: &Catalog, id: i32) -> Set<i32> {
    linked(c.objective_goal_areas@, id)
}

pub open spec fn tags_of(c: &Catalog, id: i32) -> Set<i32> {
    linked(c.objective_tags@, id)
}

/// Record `id` has a tag whose name has a word beginning with one of `ts`.
pub open spec fn tag_matches(c: &Catalog, id: i32, ts: Seq<Seq<char>>) -> bool {
    exists|j: int, k: int|
        0 <= j < c.objective_tags@.len() && 0 <= k < c.tags@.len()
            && #[trigger] c.objective_tags@[j] == (id, #[trigger] c.tags@[k].id)
            && matches_any(c.tags@[k].name@, ts)
}

/// The set of goal-area ids of record `id` shares an element with `s`.
pub open spec fn in_goal_areas(c: &Catalog, id: i32, s: Seq<i32>) -> bool {
    exists|i: int| 0 <= i < s.len() && goal_areas_of(c, id).contains(#[trigger] s[i])
}

/// Record `o` meets the text constraint `terms`, if any.
pub open spec fn meets_text(c: &Catalog, o: &Objective, terms: Option<Seq<Seq<char>>>) -> bool {
    match terms {
        None => true,
        Some(t) => matches_any(o.description@, t) || tag_matches(c, o.id, t),
    }
}

/// Record `o` meets the goal-area constraint `ids`, if any.
pub open spec fn meets_goal_areas(c: &Catalog, o: &Objective, ids: Option<Seq<i32>>) -> bool {
    match ids {
        None => true,
        Some(s) => in_goal_areas(c, o.id, s),
    }
}

/// Record `o` is selected by `plan`.
pub open spec fn selects(plan: PlanModel, c: &Catalog, o: &Objective) -> bool {
    match plan {
        PlanModel::Nothing => false,
        PlanModel::Filter { terms, goal_area_ids } => meets_text(c, o, terms) && meets_goal_areas(
            c,
            o,
            goal_area_ids,
        ),
    }
}

/// The result row of record `o`.
pub open spec fn row_of(c: &Catalog, o: &Objective) -> ResultRow {
    ResultRow {
        id: o.id,
        description: o.description@,
        goal_area_ids: goal_areas_of(c, o.id),
        tag_ids: tags_of(c, o.id),
    }
}

/// The rows of the first `n` records that `plan` selects, in store order.
pub open spec fn result_rows(plan: PlanModel, c: &Catalog, n: int) -> Seq<ResultRow>
    decreases n,
{
    if n <= 0 {
        Seq::empty()
    } else {
        result_rows(plan, c, n - 1) + if selects(plan, c, &c.objectives@[n - 1]) {
            seq![row_of(c, &c.objectives@[n - 1])]
        } else {
            Seq::empty()
        }
    }
}

/// The rows that `plan` selects from the whole catalog.
pub open spec fn search_result(plan: PlanModel, c: &Catalog) -> Seq<ResultRow> {
    result_rows(plan, c, c.objectives@.len() as int)
}

/// The other ends of the edges that start at record `id`, grouped into one list.
pub fn linked_ids(edges: &Vec<(i32, i32)>, id: i32) -> (r: Vec<i32>)
    ensures
        r@.to_set() == linked(edges@, id),
{
    let mut out: Vec<i32> = Vec::new();
    let mut i: usize = 0;
    while i < edges.len()
        invariant
            i <= edges.len(),
            forall|g: i32| #[trigger] out@.contains(g) <==> edges@.subrange(0, i as int).contains((id, g)),
        decreases edges.len() - i,
    {
        let e = edges[i];
        let ghost before = out@;
        let ghost prev = edges@.subrange(0, i as int);
        let ghost next = edges@.subrange(0, i + 1);
        assert(next =~= prev.push(e));
        if e.0 == id {
            out.push(e.1);
        }
        assert forall|g: i32| #[trigger] out@.contains(g) <==> next.contains((id, g)) by {
            if next.contains((id, g)) {
                let w = choose|w: int| 0 <= w < next.len() && next[w] == (id, g);
                if w < i {
                    assert(prev[w] == (id, g));
                    assert(before.contains(g));
                    let x = choose|x: int| 0 <= x < before.len() && before[x] == g;
                    assert(out@[x] == g);
                } else {
                    assert(out@[out@.len() - 1] == g);
                }
            }
            if out@.contains(g) {
                let x = choose|x: int| 0 <= x < out@.len() && out@[x] == g;
                if x < before.len() {
                    assert(before[x] == g);
                    assert(before.contains(g));
                    assert(prev.contains((id, g)));
                    let w = choose|w: int| 0 <= w < prev.len() && prev[w] == (id, g);
                    assert(next[w] == (id, g));
                } else {
                    assert(next[i as int] == (id, g));
                }
            }
        };
        i = i + 1;
    }
    assert(edges@.subrange(0, edges.len() as int) =~= edges@);
    assert(out@.to_set() =~= linked(edges@, id));
    out
}

/// Whether `v` holds `x`.
pub fn contains_id(v: &Vec<i32>, x: i32) -> (r: bool)
    ensures
        r == v@.contains(x),
{
    let mut i: usize = 0;
    while i < v.len()
        invariant
            i <= v.len(),
            forall|k: int| 0 <= k < i ==> v@[k] != x,
        decreases v.len() - i,
    {
        if v[i] == x {
            return true;
        }
        i = i + 1;
    }
    false
}

/// Whether one of `s` is in `v`.
pub fn shares_id(v: &Vec<i32>, s: &Vec<i32>) -> (r: bool)
    ensures
        r == exists|i: int| 0 <= i < s@.len() && v@.contains(#[trigger] s@[i]),
{
    let mut i: usize = 0;
    while i < s.len()
        invariant
            i <= s.len(),
            forall|k: int| 0 <= k < i ==> !v@.contains(#[trigger] s@[k]),
        decreases s.len() - i,
    {
        if contains_id(v, s[i]) {
            return true;
        }
        i = i + 1;
    }
    false
}

/// Whether record `id` has a tag whose name has a word beginning with one of
/// `terms`.
pub fn has_matching_tag(c: &Catalog, id: i32, terms: &Vec<String>) -> (r: bool)
    ensures
        r == tag_matches(c, id, views(terms@)),
{
    let ghost ts = views(terms@);
    let mut j: usize = 0;
    while j < c.objective_tags.len()
        invariant
            j <= c.objective_tags.len(),
            ts == views(terms@),
            forall|jj: int, k: int|
                0 <= jj < j && 0 <= k < c.tags@.len() && #[trigger] c.objective_tags@[jj] == (
                    id,
                    #[trigger] c.tags@[k].id,
                ) ==> !matches_any(c.tags@[k].name@, ts),
        decreases c.objective_tags.len() - j,
    {
        let e = c.objective_tags[j];
        let mut k: usize = 0;
        while k < c.tags.len()
            invariant
                j < c.objective_tags.len(),
                k <= c.tags.len(),
                e == c.objective_tags@[j as int],
                ts == views(terms@),
                forall|kk: int|
                    0 <= kk < k && e == (id, #[trigger] c.tags@[kk].id) ==> !matches_any(
                        c.tags@[kk].name@,
                        ts,
                    ),
            decreases c.tags.len() - k,
        {
            if e.0 == id && c.tags[k].id == e.1 && text_matches(c.tags[k].name.as_str(), terms) {
                assert(c.objective_tags@[j as int] == (id, c.tags@[k as int].id));
                return true;
            }
            k = k + 1;
        }
        j = j + 1;
    }
    false
}

/// Carries out `plan` on the snapshot `c`: the rows of the selected records,
/// each with all of its goal-area ids and tag ids, in store order.
pub fn evaluate(c: &Catalog, plan: &SearchPlan) -> (r: Vec<CategorizedObjective>)
    ensures
        row_views(r@) == search_result(plan@, c),
{
    let mut out: Vec<CategorizedObjective> = Vec::new();
    let mut i: usize = 0;
    assert(row_views(out@) =~= Seq::<ResultRow>::empty());
    while i < c.objectives.len()
        invariant
            i <= c.objectives.len(),
            row_views(out@) == result_rows(plan@, c, i as int),
        decreases c.objectives.len() - i,
    {
        let o = &c.objectives[i];
        let gas = linked_ids(&c.objective_goal_areas, o.id);
        let tids = linked_ids(&c.objective_tags, o.id);
        let keep = match plan {
            SearchPlan::Nothing => false,
            SearchPlan::Filter { terms, goal_area_ids } => {
                let text_ok = match terms {
                    None => true,
                    Some(t) => text_matches(o.description.as_str(), t) || has_matching_tag(
                        c,
                        o.id,
                        t,
                    ),
                };
                let ids_ok = match goal_area_ids {
                    None => true,
                    Some(s) => shares_id(&gas, s),
                };
                proof {
                    if let Some(s) = goal_area_ids {
                        assert(ids_ok == in_goal_areas(c, o.id, s@)) by {
                            assert forall|x: i32| gas@.contains(x) <==> goal_areas_of(
                                c,
                                o.id,
                            ).contains(x) by {
                                assert(gas@.to_set().contains(x) == gas@.contains(x));
                            };
                        };
                    }
                }
                text_ok && ids_ok
            },
        };
        assert(keep == selects(plan@, c, o));
        let ghost before = out@;
        if keep {
            let row = CategorizedObjective {
                id: o.id,
                description: o.description.clone(),
                goal_area_ids: gas,
                tag_ids: tids,
            };
            assert(row@ == row_of(c, o));
            out.push(row);
            assert(row_views(out@) =~= row_views(before) + seq![row_of(c, o)]);
        } else {
            assert(row_views(out@) =~= row_views(before) + Seq::<ResultRow>::empty());
        }
        i = i + 1;
    }
    out
}

/// Searches the snapshot `c` for an optional phrase and an optional
/// comma-separated list of goal-area ids.
pub fn search_for_objectives(c: &Catalog, q: &Option<String>, goal_area_ids: &Option<String>) -> (r:
    Vec<CategorizedObjective>)
    ensures
        row_views(r@) == search_result(plan_of(q.deep_view(), goal_area_ids.deep_view()), c),
{
    let plan = compile_search(q, goal_area_ids);
    evaluate(c, &plan)
}

} // verus!
