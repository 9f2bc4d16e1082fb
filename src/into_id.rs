//! Conversion of records and raw identifiers into identifiers.
use crate::meta::Meta;
use vstd::prelude::*;

verus! {

/// A value that converts into an identifier of type `Id`.
pub trait IntoId<Id> {
    /// The identifier, as a mathematical value.
    closed spec fn spec_into_id(&self) -> Id {
        arbitrary()
    }

    fn into_id(&self) -> (r: Id)
        ensures
            r == self.spec_into_id(),
    ;
}

impl<T: Meta> IntoId<T::Id> for T {
    open spec fn spec_into_id(&self) -> T::Id {
        self.spec_id()
    }

    fn into_id(&self) -> (r: T::Id) {
        self.id()
    }
}

impl IntoId<i32> for i32 {
    open spec fn spec_into_id(&self) -> i32 {
        *self
    }

    fn into_id(&self) -> (r: i32) {
        *self
    }
}

} // verus!
