//! Verified core of the git-ai tool.

pub mod agents;
pub mod authorship;
pub mod base_laws;
pub mod commands;
pub mod config;
pub mod config_laws;
pub mod daemon;
pub mod error;
pub mod feature_flags;
pub mod file_tree;
pub mod git;
pub mod json;
pub mod json_members;
pub mod model;
pub mod paths;
pub mod text;
pub mod text_laws;
pub mod text_map;
pub mod text_order;
