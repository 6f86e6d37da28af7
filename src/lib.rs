//! Ranking of a developer's pull requests and the bridge to an interactive
//! line picker: records are normalized from search results, ordered by recency
//! and status, given collision-free preview file names, written out as
//! tab-separated lines, and mapped back from the picker's output.
use vstd::prelude::*;

pub mod age;
pub mod artifact;
pub mod query;
pub mod rank;
pub mod record;
pub mod remote;
pub mod search;
pub mod selector;
pub mod text;

verus! {

} // verus!
