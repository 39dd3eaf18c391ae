use vstd::prelude::*;

pub mod agent;
pub mod config;
pub mod git;
pub mod goals;
pub mod laws;
pub mod llm;
pub mod memory;
pub mod orchestration;
pub mod output;
pub mod quality;
pub mod reports;
pub mod skill_markdown;
pub mod skills;
pub mod stamp;
pub mod text;
pub mod tools;

verus! {
} // verus!
