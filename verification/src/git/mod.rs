//! What the state of a git repository on disk says.

pub mod repo_state;
pub mod repo_state_laws;
