//! Release-resolution engine for a tagging tool: semantic-version parsing
//! and bumping, latest-tag selection, commit-range computation between a
//! base tag and the branch head, pull-request association, and changelog
//! formatting.

pub mod changelog;
pub mod commits;
pub mod enricher;
pub mod errors;
pub mod orchestrator;
pub mod remote;
pub mod render;
pub mod tags;
pub mod text;
pub mod version;
