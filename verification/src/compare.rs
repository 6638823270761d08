use vstd::prelude::*;

verus! {

/// A sorting order.
#[derive(Debug, Copy, Clone, PartialEq, Eq, Structural)]
pub enum Order {
    Ascending,
    Descending,
}

/// How a string is matched: in full or as a part.
#[derive(Debug, Copy, Clone, PartialEq, Eq, Structural)]
pub enum MatchMethod<T> {
    Equals(T),
    Contains(T),
}

} // verus!
