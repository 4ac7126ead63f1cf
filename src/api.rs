use vstd::prelude::*;

use crate::catalog::{
    evaluate, row_views, search_result, Catalog, CategorizedObjective, GoalArea, ResultRow, Tag,
};
use crate::plan::{compile_search_with_ids, opt_ids, plan_for};
use crate::tokenizer::phrase_of;

verus! {

/// A goal area as the query interface hands it out.
pub struct GoalAreaType {
    pub id: i32,
    pub description: String,
}

/// A tag as the query interface hands it out.
pub struct TagType {
    pub id: i32,
    pub name: String,
}

/// The filter of an objective search: an optional phrase and an optional list
/// of goal-area ids.
pub struct ObjectiveFilterInput {
    pub q: Option<String>,
    pub goal_area_ids: Option<Vec<i32>>,
}

/// A search result as the query interface hands it out.
pub struct CategorizedObjectiveType {
    pub id: i32,
    pub description: String,
    pub goal_area_ids: Vec<i32>,
    pub tag_ids: Vec<i32>,
}

impl View for CategorizedObjectiveType {
    type V = ResultRow;

    open spec fn view(&self) -> ResultRow {
        ResultRow {
            id: self.id,
            description: self.description@,
            goal_area_ids: self.goal_area_ids@.to_set(),
            tag_ids: self.tag_ids@.to_set(),
        }
    }
}

impl CategorizedObjectiveType {
    /// The same row, field for field.
    pub fn from_row(row: CategorizedObjective) -> (r: CategorizedObjectiveType)
        ensures
            r.id == row.id,
            r.description@ == row.description@,
            r.goal_area_ids@ == row.goal_area_ids@,
            r.tag_ids@ == row.tag_ids@,
    {
        CategorizedObjectiveType {
            id: row.id,
            description: row.description,
            goal_area_ids: row.goal_area_ids,
            tag_ids: row.tag_ids,
        }
    }
}

/// The values of a new goal area.
pub struct NewGoalArea<'a> {
    pub description: &'a str,
}

/// The root of the read-only query interface.
pub struct Query {}

impl Query {
    /// The version of the query interface.
    #[allow(non_snake_case)]
    pub fn apiVersion() -> (r: &'static str)
        ensures
            r@ == "1.0"@,
    {
        "1.0"
    }

    /// Every goal area of the snapshot, in store order.
    pub fn goal_areas(c: &Catalog) -> (r: Vec<GoalAreaType>)
        ensures
            r@.len() == c.goal_areas@.len(),
            forall|i: int|
                0 <= i < r@.len() ==> (#[trigger] r@[i]).id == c.goal_areas@[i].id
                    && r@[i].description@ == c.goal_areas@[i].description@,
    {
        let mut out: Vec<GoalAreaType> = Vec::new();
        let mut i: usize = 0;
        while i < c.goal_areas.len()
            invariant
                i <= c.goal_areas.len(),
                out@.len() == i,
                forall|k: int|
                    0 <= k < i ==> (#[trigger] out@[k]).id == c.goal_areas@[k].id
                        && out@[k].description@ == c.goal_areas@[k].description@,
            decreases c.goal_areas.len() - i,
        {
            let g = &c.goal_areas[i];
            out.push(GoalAreaType { id: g.id, description: g.description.clone() });
            i = i + 1;
        }
        out
    }

    /// Every tag of the snapshot, in store order.
    pub fn tags(c: &Catalog) -> (r: Vec<TagType>)
        ensures
            r@.len() == c.tags@.len(),
            forall|i: int|
                0 <= i < r@.len() ==> (#[trigger] r@[i]).id == c.tags@[i].id && r@[i].name@
                    == c.tags@[i].name@,
    {
        let mut out: Vec<TagType> = Vec::new();
        let mut i: usize = 0;
        while i < c.tags.len()
            invariant
                i <= c.tags.len(),
                out@.len() == i,
                forall|k: int|
                    0 <= k < i ==> (#[trigger] out@[k]).id == c.tags@[k].id && out@[k].name@
                        == c.tags@[k].name@,
            decreases c.tags.len() - i,
        {
            let t = &c.tags[i];
            out.push(TagType { id: t.id, name: t.name.clone() });
            i = i + 1;
        }
        out
    }

    /// The records of the snapshot that `filter` selects, with all of their
    /// goal-area ids and tag ids, in store order.
    pub fn objectives(c: &Catalog, filter: &ObjectiveFilterInput) -> (r: Vec<
        CategorizedObjectiveType,
    >)
        ensures
            r@.map_values(|x: CategorizedObjectiveType| x@) == search_result(
                plan_for(phrase_of(filter.q.deep_view()), opt_ids(filter.goal_area_ids)),
                c,
            ),
    {
        let plan = compile_search_with_ids(&filter.q, &filter.goal_area_ids);
        let mut rows = evaluate(c, &plan);
        let ghost expected = row_views(rows@);
        let mut out: Vec<CategorizedObjectiveType> = Vec::new();
        let mut taken: Vec<CategorizedObjective> = Vec::new();
        let n = rows.len();
        let ghost all = rows@;
        // Take the rows from the back and keep them in reverse, then turn that around.
        while rows.len() > 0
            invariant
                rows@.len() + taken@.len() == n,
                all.len() == n,
                rows@ == all.subrange(0, rows@.len() as int),
                forall|k: int|
                    0 <= k < taken@.len() ==> #[trigger] taken@[k] == all[n - 1 - k],
            decreases rows.len(),
        {
            let row = rows.pop().unwrap();
            taken.push(row);
        }
        while taken.len() > 0
            invariant
                out@.len() + taken@.len() == n,
                all.len() == n,
                expected == row_views(all),
                forall|k: int| 0 <= k < taken@.len() ==> #[trigger] taken@[k] == all[n - 1 - k],
                forall|k: int| 0 <= k < out@.len() ==> (#[trigger] out@[k])@ == expected[k],
            decreases taken.len(),
        {
            let row = taken.pop().unwrap();
            let t = CategorizedObjectiveType::from_row(row);
            out.push(t);
        }
        assert(out@.map_values(|x: CategorizedObjectiveType| x@) =~= expected);
        out
    }
}

/// The descriptions of goal areas, in order, for the search page.
pub fn goal_area_descriptions(gas: &Vec<GoalArea>) -> (r: Vec<String>)
    ensures
        r@.len() == gas@.len(),
        forall|i: int| 0 <= i < r@.len() ==> (#[trigger] r@[i])@ == gas@[i].description@,
{
    let mut out: Vec<String> = Vec::new();
    let mut i: usize = 0;
    while i < gas.len()
        invariant
            i <= gas.len(),
            out@.len() == i,
            forall|k: int| 0 <= k < i ==> (#[trigger] out@[k])@ == gas@[k].description@,
        decreases gas.len() - i,
    {
        out.push(gas[i].description.clone());
        i = i + 1;
    }
    out
}

/// The names of tags, in order, for the search page.
pub fn tag_names(tags: &Vec<Tag>) -> (r: Vec<String>)
    ensures
        r@.len() == tags@.len(),
        forall|i: int| 0 <= i < r@.len() ==> (#[trigger] r@[i])@ == tags@[i].name@,
{
    let mut out: Vec<String> = Vec::new();
    let mut i: usize = 0;
    while i < tags.len()
        invariant
            i <= tags.len(),
            out@.len() == i,
            forall|k: int| 0 <= k < i ==> (#[trigger] out@[k])@ == tags@[k].name@,
        decreases tags.len() - i,
    {
        out.push(tags[i].name.clone());
        i = i + 1;
    }
    out
}

} // verus!
