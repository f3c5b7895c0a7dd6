//! Commands and the state that they act on.

use crate::text_map::TextMap;
use vstd::prelude::*;

verus! {

/// The name of a family of worktrees: the path of their common git directory.
pub struct FamilyKey(pub String);

impl FamilyKey {
    /// The family of a given name.
    pub fn new(name: &str) -> (r: Self)
        ensures
            r.0@ == name@,
    {
        FamilyKey(name.to_owned())
    }
}

/// What a command acts on.
pub enum CommandScope {
    Family(FamilyKey),
    Global,
}

/// How sure it is what a command did.
#[derive(Clone, Copy, PartialEq, Eq, Structural, Debug)]
pub enum Confidence {
    Low,
    High,
}

/// One move of a ref.
pub struct RefChange {
    pub reference: String,
    pub old: String,
    pub new: String,
}

/// The texts of a move of a ref.
pub struct RefChangeView {
    pub reference: Seq<char>,
    pub old: Seq<char>,
    pub new: Seq<char>,
}

impl View for RefChange {
    type V = RefChangeView;

    open spec fn view(&self) -> RefChangeView {
        RefChangeView { reference: self.reference@, old: self.old@, new: self.new@ }
    }
}

/// A git command that has run.
pub struct NormalizedCommand {
    pub scope: CommandScope,
    pub family_key: Option<FamilyKey>,
    pub worktree: Option<String>,
    pub root_sid: String,
    pub raw_argv: Vec<String>,
    pub primary_command: Option<String>,
    pub invoked_command: Option<String>,
    pub invoked_args: Vec<String>,
    pub observed_child_commands: Vec<String>,
    pub exit_code: i32,
    pub started_at_ns: u128,
    pub finished_at_ns: u128,
    pub stash_target_oid: Option<String>,
    pub ref_changes: Vec<RefChange>,
    pub confidence: Confidence,
}

/// What is known of a worktree.
pub struct WorktreeState {
    pub head: Option<String>,
    pub branch: Option<String>,
    pub detached: bool,
    pub last_updated_ns: u128,
}

/// What is known of a family of worktrees.
pub struct FamilyState {
    pub family_key: FamilyKey,
    pub refs: TextMap<String>,
    pub worktrees: TextMap<WorktreeState>,
    pub last_error: Option<String>,
    pub applied_seq: u64,
}

/// What is known beyond the families.
pub struct GlobalState {
    pub applied_seq: u64,
}

/// A command that has been applied, with its number and what an analysis said.
pub struct AppliedCommand<A> {
    pub seq: u64,
    pub command: NormalizedCommand,
    pub analysis: A,
}

} // verus!
