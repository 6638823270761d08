use vstd::prelude::*;

verus! {

/// Why a requested change of state was not made.
#[derive(Debug, Copy, Clone, PartialEq, Eq, Structural)]
pub enum StateChangeError {
    EarlyStop,
    LimitReached,
    StateUnchanged,
    InvalidCaller,
}

} // verus!
