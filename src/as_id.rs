//! Anything that can stand for an identifier: a record or a raw id.
use crate::meta::Meta;
use vstd::prelude::*;

verus! {

/// A value that yields an identifier: a record yields its own id, a raw
/// identifier yields itself.
pub trait AsId {
    type Id;

    /// The identifier, as a mathematical value.
    closed spec fn spec_as_id(&self) -> Self::Id {
        arbitrary()
    }

    fn as_id(&self) -> (r: Self::Id)
        ensures
            r == self.spec_as_id(),
    ;
}

impl<T: Meta> AsId for T {
    type Id = <T as Meta>::Id;

    open spec fn spec_as_id(&self) -> Self::Id {
        self.spec_id()
    }

    fn as_id(&self) -> (r: Self::Id) {
        self.id()
    }
}

impl AsId for i32 {
    type Id = i32;

    open spec fn spec_as_id(&self) -> i32 {
        *self
    }

    fn as_id(&self) -> (r: i32) {
        *self
    }
}

/// The identifiers of `values`, in order.
pub open spec fn ids_of<T: AsId>(values: Seq<T>) -> Seq<T::Id> {
    values.map_values(|v: T| v.spec_as_id())
}

/// Collects the identifier of each value, in order.
pub fn as_ids<T: AsId>(values: &[T]) -> (r: Vec<T::Id>)
    ensures
        r@ == ids_of(values@),
{
    let mut r: Vec<T::Id> = Vec::new();
    let mut i: usize = 0;
    while i < values.len()
        invariant
            i <= values@.len(),
            r@ == ids_of(values@.take(i as int)),
        decreases values@.len() - i,
    {
        r.push(values[i].as_id());
        proof {
            assert(ids_of(values@.take(i + 1)) =~= ids_of(values@.take(i as int)).push(
                values@[i as int].spec_as_id(),
            ));
        }
        i = i + 1;
    }
    proof {
        assert(values@.take(values@.len() as int) =~= values@);
    }
    r
}

} // verus!
