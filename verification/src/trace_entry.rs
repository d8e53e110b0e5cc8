use vstd::prelude::*;

verus! {

/// A trace entry for one executed instruction: the register values before
/// the instruction was executed.
#[derive(Debug)]
pub struct TraceEntry<T> {
    pub pc: T,
    pub ap: T,
    pub fp: T,
}

} // verus!
