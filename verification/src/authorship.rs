//! What is recorded of AI authorship: prompts, their messages, and line ranges.

use crate::text::{decimal, decimal_of};
use crate::text_map::TextMap;
use vstd::prelude::*;
use vstd::string::*;

verus! {

/// The agent that answered a prompt.
pub struct AgentId {
    pub tool: String,
    pub id: String,
    pub model: String,
}

/// One message of a prompt's transcript, with its text where it has one.
pub struct Message {
    pub text: Option<String>,
}

/// A prompt and what came of it.
pub struct PromptRecord {
    pub agent_id: AgentId,
    pub human_author: Option<String>,
    pub messages: Vec<Message>,
    pub total_additions: u32,
    pub total_deletions: u32,
    pub accepted_lines: u32,
    pub overriden_lines: u32,
    pub messages_url: Option<String>,
    pub custom_attributes: Option<TextMap<String>>,
}

/// One line, or a run of lines from the first to the last.
#[derive(Clone, Copy, PartialEq, Eq, Structural, Debug)]
pub enum LineRange {
    Single(u32),
    Range(u32, u32),
}

/// How a line range is written.
pub open spec fn line_range_text(r: LineRange) -> Seq<char> {
    match r {
        LineRange::Single(n) => decimal_of(n as nat),
        LineRange::Range(a, b) => decimal_of(a as nat) + "-"@ + decimal_of(b as nat),
    }
}

/// Whether a line is in a range.
pub open spec fn in_range(r: LineRange, line: int) -> bool {
    match r {
        LineRange::Single(n) => line == n,
        LineRange::Range(a, b) => a <= line <= b,
    }
}

/// The first line of a range.
pub open spec fn range_first(r: LineRange) -> u32 {
    match r {
        LineRange::Single(n) => n,
        LineRange::Range(a, _) => a,
    }
}

/// The last line of a range.
pub open spec fn range_last(r: LineRange) -> u32 {
    match r {
        LineRange::Single(n) => n,
        LineRange::Range(_, b) => b,
    }
}

/// The range from one line to another.
pub open spec fn range_between(a: u32, b: u32) -> LineRange {
    if a == b {
        LineRange::Single(a)
    } else {
        LineRange::Range(a, b)
    }
}

/// Lines in order, put together to as few ranges as there are.
pub open spec fn ranges_of(lines: Seq<u32>) -> Seq<LineRange>
    decreases lines.len(),
{
    if lines.len() == 0 {
        seq![]
    } else {
        let before = ranges_of(lines.drop_last());
        if before.len() > 0 && range_last(before.last()) + 1 == lines.last() {
            before.drop_last().push(range_between(range_first(before.last()), lines.last()))
        } else {
            before.push(LineRange::Single(lines.last()))
        }
    }
}

/// Whether numbers are in order, each once.
pub open spec fn increasing(lines: Seq<u32>) -> bool {
    forall|i: int, j: int| 0 <= i < j < lines.len() ==> lines[i] < lines[j]
}

impl LineRange {
    /// How the range is written.
    pub fn to_text(&self) -> (r: String)
        ensures
            r@ == line_range_text(*self),
    {
        match self {
            LineRange::Single(n) => decimal(*n as u64),
            LineRange::Range(a, b) => {
                let mut s = decimal(*a as u64);
                s.append("-");
                s.append(decimal(*b as u64).as_str());
                s
            },
        }
    }

    /// Puts lines in order together to ranges.
    pub fn compress_lines(lines: &Vec<u32>) -> (r: Vec<LineRange>)
        ensures
            r@ == ranges_of(lines@),
    {
        let mut out: Vec<LineRange> = Vec::new();
        let mut i: usize = 0;
        proof {
            assert(lines@.take(0) =~= seq![]);
        }
        while i < lines.len()
            invariant
                i <= lines@.len(),
                out@ == ranges_of(lines@.take(i as int)),
            decreases lines.len() - i,
        {
            let line: u32 = lines[i];
            let ghost before = out@;
            proof {
                assert(lines@.take(i + 1).drop_last() =~= lines@.take(i as int));
                assert(lines@.take(i + 1).last() == line);
            }
            let n: usize = out.len();
            let mut joined = false;
            if n > 0 {
                let (first, last): (u32, u32) = match out[n - 1] {
                    LineRange::Single(a) => (a, a),
                    LineRange::Range(a, b) => (a, b),
                };
                if last < line && last == line - 1 {
                    let r = if first == line {
                        LineRange::Single(first)
                    } else {
                        LineRange::Range(first, line)
                    };
                    out.set(n - 1, r);
                    joined = true;
                    proof {
                        assert(out@ =~= before.drop_last().push(r));
                    }
                }
            }
            if !joined {
                out.push(LineRange::Single(line));
            }
            i += 1;
        }
        proof {
            assert(lines@.take(i as int) =~= lines@);
        }
        out
    }
}

/// Putting lines together loses none and adds none.
pub proof fn law_ranges_cover(lines: Seq<u32>)
    requires
        increasing(lines),
    ensures
        forall|n: u32|
            #[trigger] lines.contains(n) <==> exists|i: int|
                0 <= i < ranges_of(lines).len() && in_range(
                    #[trigger] ranges_of(lines)[i],
                    n as int,
                ),
        lines.len() > 0 ==> ranges_of(lines).len() > 0 && range_last(ranges_of(lines).last())
            == lines.last() && range_first(ranges_of(lines).last()) <= lines.last(),
    decreases lines.len(),
{
    if lines.len() > 0 {
        let front = lines.drop_last();
        assert(increasing(front)) by {
            assert forall|i: int, j: int| 0 <= i < j < front.len() implies front[i] < front[j] by {
                assert(lines[i] < lines[j]);
            }
        }
        law_ranges_cover(front);
        let before = ranges_of(front);
        let after = ranges_of(lines);
        let last = lines.last();
        assert forall|n: u32| #[trigger] lines.contains(n) <==> exists|i: int|
            0 <= i < after.len() && in_range(#[trigger] after[i], n as int) by {
            if lines.contains(n) {
                let k = lines.index_of(n);
                if k < front.len() {
                    assert(front[k] == n);
                    assert(front.contains(n));
                    let i = choose|i: int|
                        0 <= i < before.len() && in_range(#[trigger] before[i], n as int);
                    if i < before.len() - 1 {
                        assert(after[i] == before[i]);
                    } else {
                        assert(in_range(after[i], n as int));
                    }
                } else {
                    assert(in_range(after[after.len() - 1], n as int));
                }
            }
            if exists|i: int| 0 <= i < after.len() && in_range(#[trigger] after[i], n as int) {
                let i = choose|i: int|
                    0 <= i < after.len() && in_range(#[trigger] after[i], n as int);
                if i < before.len() && after[i] == before[i] {
                    assert(front.contains(n));
                    assert(lines[front.index_of(n)] == n);
                } else {
                    if n == last {
                        assert(lines[lines.len() - 1] == n);
                    } else {
                        assert(in_range(before[i], n as int));
                        assert(front.contains(n));
                        assert(lines[front.index_of(n)] == n);
                    }
                }
            }
        }
    }
}

} // verus!
