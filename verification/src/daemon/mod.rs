//! The daemon's bookkeeping: commands, repository families and their refs,
//! and the transcripts that are waiting to be read.

pub mod daemon_laws;
pub mod domain;
pub mod reducer;
pub mod ref_args;
pub mod ref_args_laws;
pub mod ref_cursor;
pub mod ref_cursor_laws;
pub mod ref_moves_laws;
pub mod reflog;
pub mod sweep_coordinator;
pub mod transcript_worker;
