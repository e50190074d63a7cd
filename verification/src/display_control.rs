use vstd::prelude::*;
use vstd::string::StringExecFns;

verus! {

/// How deep in nested work a message is shown.
#[derive(Debug, Clone, Copy, PartialEq, Eq, Structural)]
pub struct DepthGuard {
    pub depth: usize,
}

/// The kinds of message that are shown.
#[derive(Debug, Clone, Copy, PartialEq, Eq, Structural)]
pub enum Level {
    ProgramOutput,
    Logging,
    Error,
    Warn,
    Selection,
    Input,
}

/// `n` times the mark that stands before a message.
pub open spec fn indentation(n: nat) -> Seq<char>
    decreases n,
{
    if n == 0 {
        Seq::empty()
    } else {
        indentation((n - 1) as nat) + ">> "@
    }
}

impl DepthGuard {
    /// The depth at which work starts: one.
    pub fn new() -> (guard: Self)
        ensures
            guard.depth == 1,
    {
        Self { depth: 1 }
    }

    /// One level deeper; the deepest level stays as it is.
    pub fn enter(&self) -> (guard: Self)
        ensures
            guard.depth == if self.depth < usize::MAX {
                self.depth + 1
            } else {
                usize::MAX as int
            },
    {
        if self.depth < usize::MAX {
            Self { depth: self.depth + 1 }
        } else {
            Self { depth: self.depth }
        }
    }

    /// What stands before a message at this depth: a mark for each level.
    pub fn indentation(&self) -> (marks: String)
        ensures
            marks@ == indentation(self.depth as nat),
    {
        let mut marks = String::new();
        let mut i: usize = 0;
        while i < self.depth
            invariant
                i <= self.depth,
                marks@ == indentation(i as nat),
            decreases self.depth - i,
        {
            marks.append(">> ");
            i += 1;
        }
        marks
    }
}

} // verus!
