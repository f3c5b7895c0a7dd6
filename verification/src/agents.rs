//! What the agent is called whose hooks, transcripts and sessions are known as
//! those of the first preset. Who runs the program says it.

use vstd::prelude::*;

verus! {

/// The agent's name in commands and paths, and its name in messages.
pub struct AgentNames {
    pub name: String,
    pub title: String,
}

/// The texts of the agent's names.
pub struct AgentNamesView {
    pub name: Seq<char>,
    pub title: Seq<char>,
}

impl View for AgentNames {
    type V = AgentNamesView;

    open spec fn view(&self) -> AgentNamesView {
        AgentNamesView { name: self.name@, title: self.title@ }
    }
}

} // verus!
