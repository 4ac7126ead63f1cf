//! Search over a catalog of objectives by an optional phrase and an optional
//! set of goal areas.
//!
//! - `tokenizer`: the phrase as absent, present without words, or its words;
//!   the words as an OR of quoted prefix terms.
//! - `ids`: the goal-area id list, with malformed pieces dropped.
//! - `plan`: the two constraints combined into one plan.
//! - `sql`: the single parameterized query that carries out a plan.
//! - `catalog`: the meaning of a plan over a snapshot of the store, and an
//!   evaluator that meets it.
//! - `laws`: what every search result satisfies.
//! - `api`: the read-only query interface.
use vstd::prelude::*;

pub mod api;
pub mod catalog;
pub mod ids;
pub mod laws;
pub mod matching;
pub mod plan;
pub mod sql;
pub mod tokenizer;
pub mod types;

verus! {

} // verus!
