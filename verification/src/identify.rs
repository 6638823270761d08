use vstd::prelude::*;

verus! {

/// The identifier an element of a [`crate::cycle::Cycle`] is known by.
pub type Ident = u32;

/// A position within an ordered collection.
pub type Index = usize;

/// Something that carries an identifier.
pub trait Identify: PartialEq {
    /// The identifier of `self`, as a mathematical value.
    spec fn ident(&self) -> Ident;

    fn id(&self) -> (r: Ident)
        ensures
            r == self.ident(),
    ;
}

impl Identify for u32 {
    open spec fn ident(&self) -> Ident {
        *self
    }

    fn id(&self) -> (r: Ident) {
        *self
    }
}

impl Identify for i32 {
    open spec fn ident(&self) -> Ident {
        *self as Ident
    }

    fn id(&self) -> (r: Ident) {
        *self as Ident
    }
}

} // verus!
