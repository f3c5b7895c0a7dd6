//! What is done before and after single git commands.

pub mod push_hooks;
