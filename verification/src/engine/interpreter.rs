use vstd::prelude::*;

verus! {

/// The interpreters a command line may be handed to.
#[derive(Debug, Clone, Copy, PartialEq, Eq, Structural)]
pub enum Interpreter {
    /// The POSIX shell: the command line is passed to `sh -c`.
    Sh,
}

} // verus!
