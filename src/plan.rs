use vstd::prelude::*;

use crate::ids::{ids_of, parse_id_list};
use crate::tokenizer::{phrase_of, tokenize, views, Phrase, PhraseModel};

verus! {

/// What a search selects: nothing at all, or the records that meet the
/// optional text constraint and the optional goal-area constraint.
pub enum PlanModel {
    Nothing,
    Filter { terms: Option<Seq<Seq<char>>>, goal_area_ids: Option<Seq<i32>> },
}

/// A compiled search request.
pub enum SearchPlan {
    Nothing,
    Filter { terms: Option<Vec<String>>, goal_area_ids: Option<Vec<i32>> },
}

pub open spec fn opt_views(t: Option<Vec<String>>) -> Option<Seq<Seq<char>>> {
    match t {
        Some(v) => Some(views(v@)),
        None => None,
    }
}

pub open spec fn opt_ids(t: Option<Vec<i32>>) -> Option<Seq<i32>> {
    match t {
        Some(v) => Some(v@),
        None => None,
    }
}

impl View for SearchPlan {
    type V = PlanModel;

    open spec fn view(&self) -> PlanModel {
        match self {
            SearchPlan::Nothing => PlanModel::Nothing,
            SearchPlan::Filter { terms, goal_area_ids } => PlanModel::Filter {
                terms: opt_views(*terms),
                goal_area_ids: opt_ids(*goal_area_ids),
            },
        }
    }
}

/// The goal-area constraint of an optional comma-separated id list.
pub open spec fn requested_ids(ids: Option<Seq<char>>) -> Option<Seq<i32>> {
    match ids {
        None => None,
        Some(s) => Some(ids_of(s)),
    }
}

/// The plan for a phrase and a goal-area id list, each optional. A phrase
/// without words, or a list without a single valid id, selects nothing.
pub open spec fn plan_of(q: Option<Seq<char>>, ids: Option<Seq<char>>) -> PlanModel {
    plan_for(phrase_of(q), requested_ids(ids))
}

/// The plan for a phrase state and an optional set of goal-area ids.
pub open spec fn plan_for(phrase: PhraseModel, cats: Option<Seq<i32>>) -> PlanModel {
    match phrase {
        PhraseModel::EmptyPresent => PlanModel::Nothing,
        PhraseModel::Absent => if cats is Some && cats->0.len() == 0 {
            PlanModel::Nothing
        } else {
            PlanModel::Filter { terms: None, goal_area_ids: cats }
        },
        PhraseModel::Tokens(t) => if cats is Some && cats->0.len() == 0 {
            PlanModel::Nothing
        } else {
            PlanModel::Filter { terms: Some(t), goal_area_ids: cats }
        },
    }
}

/// Parses an optional comma-separated list of goal-area ids, dropping the
/// pieces that are not `i32` values.
pub fn requested_goal_area_ids(ids: &Option<String>) -> (r: Option<Vec<i32>>)
    ensures
        opt_ids(r) == requested_ids(ids.deep_view()),
{
    match ids {
        None => None,
        Some(s) => Some(parse_id_list(s.as_str())),
    }
}

/// Compiles a search request into the plan that `plan_of` describes.
pub fn compile_search(q: &Option<String>, goal_area_ids: &Option<String>) -> (r: SearchPlan)
    ensures
        r@ == plan_of(q.deep_view(), goal_area_ids.deep_view()),
{
    let phrase = tokenize(q);
    let cats = requested_goal_area_ids(goal_area_ids);
    combine(phrase, cats)
}

/// Compiles a search request whose goal-area ids are already integers.
pub fn compile_search_with_ids(q: &Option<String>, goal_area_ids: &Option<Vec<i32>>) -> (r:
    SearchPlan)
    ensures
        r@ == plan_for(phrase_of(q.deep_view()), opt_ids(*goal_area_ids)),
{
    let phrase = tokenize(q);
    let cats = match goal_area_ids {
        Some(v) => Some(v.clone()),
        None => None,
    };
    combine(phrase, cats)
}

fn combine(phrase: Phrase, cats: Option<Vec<i32>>) -> (r: SearchPlan)
    ensures
        r@ == plan_for(phrase@, opt_ids(cats)),
{
    let no_ids = match &cats {
        Some(v) => v.len() == 0,
        None => false,
    };
    match phrase {
        Phrase::EmptyPresent => SearchPlan::Nothing,
        Phrase::Absent => if no_ids {
            SearchPlan::Nothing
        } else {
            SearchPlan::Filter { terms: None, goal_area_ids: cats }
        },
        Phrase::Tokens(t) => if no_ids {
            SearchPlan::Nothing
        } else {
            SearchPlan::Filter { terms: Some(t), goal_area_ids: cats }
        },
    }
}

} // verus!
