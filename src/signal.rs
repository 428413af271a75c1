use vstd::prelude::*;

verus! {

/// The signal an instruction hands back to the dispatch loop. Every signal
/// but `Continue` ends the run and becomes its result.
#[derive(Clone, Copy, Debug, PartialEq, Eq, Structural)]
pub enum Return {
    Continue,
    Stop,
    StackUnderflow,
    StackOverflow,
    InvalidOpcode,
    /// A symbolic value reached a stack that holds known words only.
    NotConcrete,
}

} // verus!
