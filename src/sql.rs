use vstd::prelude::*;

use crate::plan::{opt_ids, PlanModel, SearchPlan};
use crate::tokenizer::{ts_query, ts_query_terms};

verus! {

/// The selection of every record with its goal-area ids and tag ids, grouped
/// per record and joined on so that a record without any still appears, with
/// an empty array.
pub const SELECT_PART: &'static str = "SELECT objectives.id, objectives.description, \
COALESCE(containing_goal_areas.goal_area_ids, '{}') AS goal_area_ids, \
COALESCE(containing_tags.tag_ids, '{}') AS tag_ids \
FROM objectives \
LEFT OUTER JOIN (SELECT oga.objective_id, array_agg(oga.goal_area_id) AS goal_area_ids \
FROM objectives_goal_areas oga GROUP BY oga.objective_id) containing_goal_areas \
ON objectives.id = containing_goal_areas.objective_id \
LEFT OUTER JOIN (SELECT ot.objective_id, array_agg(ot.tag_id) AS tag_ids \
FROM objectives_tags ot GROUP BY ot.objective_id) containing_tags \
ON objectives.id = containing_tags.objective_id";

/// The records that have a tag whose name matches the text query bound to `$1`.
pub const MATCHING_TAGS_PART: &'static str = " LEFT OUTER JOIN (SELECT ot.objective_id \
FROM objectives_tags ot JOIN tags t ON ot.tag_id = t.id \
WHERE t.ts_name @@ to_tsquery($1) GROUP BY ot.objective_id) matching_tags \
ON objectives.id = matching_tags.objective_id";

pub const WHERE_PART: &'static str = " WHERE ";

pub const AND_PART: &'static str = " AND ";

pub const NO_CONSTRAINT: &'static str = "TRUE";

/// A record matches the text query bound to `$1` by its description or by a tag.
pub const TEXT_CONDITION: &'static str =
    "(objectives.ts_description @@ to_tsquery($1) OR matching_tags.objective_id IS NOT NULL)";

/// A record has one of the goal areas bound to `$1`.
pub const GOAL_AREAS_CONDITION_FIRST: &'static str =
    "containing_goal_areas.goal_area_ids && $1::integer[]";

/// A record has one of the goal areas bound to `$2`.
pub const GOAL_AREAS_CONDITION_SECOND: &'static str =
    "containing_goal_areas.goal_area_ids && $2::integer[]";

/// The query text for a plan that has a text constraint or not and a
/// goal-area constraint or not. It holds no value of the request: those are
/// bound as parameters, the text query first.
pub open spec fn search_sql(has_text: bool, has_ids: bool) -> Seq<char> {
    SELECT_PART@ + (if has_text {
        MATCHING_TAGS_PART@
    } else {
        Seq::empty()
    }) + WHERE_PART@ + (if has_text {
        TEXT_CONDITION@
    } else {
        NO_CONSTRAINT@
    }) + AND_PART@ + (if !has_ids {
        NO_CONSTRAINT@
    } else if has_text {
        GOAL_AREAS_CONDITION_SECOND@
    } else {
        GOAL_AREAS_CONDITION_FIRST@
    })
}

/// The query text of a plan, or `None` for a plan that selects nothing.
pub open spec fn plan_sql(plan: PlanModel) -> Option<Seq<char>> {
    match plan {
        PlanModel::Nothing => None,
        PlanModel::Filter { terms, goal_area_ids } => Some(
            search_sql(terms is Some, goal_area_ids is Some),
        ),
    }
}

/// A parameterized query and the values to bind to it, in order.
pub struct SqlQuery {
    pub sql: String,
    pub ts_query: Option<String>,
    pub goal_area_ids: Option<Vec<i32>>,
}

/// The query text for a request with a text constraint or not and a
/// goal-area constraint or not.
pub fn search_sql_text(has_text: bool, has_ids: bool) -> (r: String)
    ensures
        r@ == search_sql(has_text, has_ids),
{
    let mut sql = String::from_str(SELECT_PART);
    if has_text {
        sql.append(MATCHING_TAGS_PART);
    }
    sql.append(WHERE_PART);
    if has_text {
        sql.append(TEXT_CONDITION);
    } else {
        sql.append(NO_CONSTRAINT);
    }
    sql.append(AND_PART);
    if !has_ids {
        sql.append(NO_CONSTRAINT);
    } else if has_text {
        sql.append(GOAL_AREAS_CONDITION_SECOND);
    } else {
        sql.append(GOAL_AREAS_CONDITION_FIRST);
    }
    sql
}

/// The single query that carries out a plan, or `None` for a plan that
/// selects nothing and needs no query.
pub fn objective_search_sql(plan: &SearchPlan) -> (r: Option<SqlQuery>)
    ensures
        plan@ is Nothing <==> r is None,
        match plan@ {
            PlanModel::Nothing => true,
            PlanModel::Filter { terms, goal_area_ids } => {
                let q = r->0;
                &&& Some(q.sql@) == plan_sql(plan@)
                &&& match terms {
                    Some(t) => q.ts_query is Some && q.ts_query->0@ == ts_query(t),
                    None => q.ts_query is None,
                }
                &&& opt_ids(q.goal_area_ids) == goal_area_ids
            },
        },
{
    match plan {
        SearchPlan::Nothing => None,
        SearchPlan::Filter { terms, goal_area_ids } => {
            let sql = search_sql_text(terms.is_some(), goal_area_ids.is_some());
            let ts = match terms {
                Some(t) => Some(ts_query_terms(t)),
                None => None,
            };
            let ids = match goal_area_ids {
                Some(v) => Some(v.clone()),
                None => None,
            };
            Some(SqlQuery { sql, ts_query: ts, goal_area_ids: ids })
        },
    }
}

} // verus!
