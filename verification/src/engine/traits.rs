use vstd::prelude::*;
use vstd::string::StringExecFns;

verus! {

/// The kinds of thing that can be executed.
#[derive(Debug, Clone, Copy, PartialEq, Eq, Structural)]
pub enum ExecutionType {
    Chain,
    Program,
    Function,
    CommandLine,
    ConcurrencyGroup,
}

impl ExecutionType {
    /// The kind in words.
    pub open spec fn label(&self) -> Seq<char> {
        match *self {
            ExecutionType::Chain => "Chain"@,
            ExecutionType::Program => "Program"@,
            ExecutionType::Function => "Function"@,
            ExecutionType::CommandLine => "Command Line"@,
            ExecutionType::ConcurrencyGroup => "Concurrency Group"@,
        }
    }

    /// The kind in words.
    pub fn name(&self) -> (name: String)
        ensures
            name@ == self.label(),
    {
        match self {
            ExecutionType::Chain => String::from_str("Chain"),
            ExecutionType::Program => String::from_str("Program"),
            ExecutionType::Function => String::from_str("Function"),
            ExecutionType::CommandLine => String::from_str("Command Line"),
            ExecutionType::ConcurrencyGroup => String::from_str("Concurrency Group"),
        }
    }
}

/// Anything that can be executed.
pub trait Execution {
    /// The kind of thing this is.
    spec fn execution_type(&self) -> ExecutionType;

    /// The kind of thing this is.
    fn get_execution_type(&self) -> (kind: ExecutionType)
        ensures
            kind == self.execution_type(),
    ;
}

} // verus!
