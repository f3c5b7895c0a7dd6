//! What the commands decide and compute.

pub mod checkpoint_args;
pub mod checkpoint_dispatch;
pub mod checkpoint_laws;
pub mod git_ai_handlers;
pub mod git_handlers;
pub mod handler_laws;
pub mod hooks;
pub mod message_laws;
pub mod prompt_replay;
pub mod prompts_db;
pub mod prompts_laws;
pub mod record_laws;
pub mod replay_laws;
pub mod replay_text_laws;
pub mod report_token_usage;
pub mod search;
pub mod search_args;
pub mod search_args_laws;
pub mod search_json;
pub mod search_laws;
pub mod search_text_laws;
pub mod tracker;
pub mod uninstall;
pub mod upkeep_laws;
pub mod whoami;
