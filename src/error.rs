use vstd::prelude::*;

verus! {

/// Why a host function stopped the running contract.
#[derive(Clone, Copy, Debug, PartialEq, Eq, Structural)]
pub enum Trap {
    /// A bounds, size, tag or context violation.
    Abort,
    /// The gas budget would be exceeded (or its arithmetic overflowed).
    OutOfGas,
}

/// Host-side failures of the engine.
#[derive(Clone, Copy, Debug, PartialEq, Eq, Structural)]
pub enum Error {
    /// The bytecode does not parse.
    CodeMalformed,
    /// The module parses but cannot be loaded under the selected ABI.
    ModuleLoadingFailed,
    /// Execution was aborted by a host function.
    ExecutionFailed(Trap),
}

} // verus!
