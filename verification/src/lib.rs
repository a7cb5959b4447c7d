use vstd::prelude::*;

pub mod config;
pub mod event;
pub mod orchestrator;
pub mod github;
pub mod normalize;
pub mod pattern;
pub mod repo;
pub mod store;
pub mod text;
pub mod timestamp;

verus! {

} // verus!
