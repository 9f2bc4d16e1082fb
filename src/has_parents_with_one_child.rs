//! The child side of a one-to-one relationship whose parents hold the id of
//! their child.
use crate::id::{distinct_ids, Id};
use crate::meta::clones_exactly;
use vstd::prelude::*;

verus! {

/// The inverse of [`HasOne`](crate::HasOne), for parents that hold the
/// identifier of their child. Implemented for every record type.
pub trait HasParentsWithOneChild<Parent>: Id where Self::Id: Clone + Eq + std::hash::Hash {
    /// The children to fetch for a batch of parents, given the child
    /// identifier of each parent: every identifier exactly once.
    fn child_ids_for_parents(child_ids: Vec<Self::Id>) -> (r: Vec<Self::Id>)
        requires
            vstd::std_specs::hash::obeys_key_model::<Self::Id>(),
            clones_exactly::<Self::Id>(),
        ensures
            r@.no_duplicates(),
            forall|x: Self::Id| r@.contains(x) <==> child_ids@.contains(x),
    {
        distinct_ids::<Self>(child_ids)
    }
}

impl<Parent, Child: Id> HasParentsWithOneChild<Parent> for Child where Child::Id: Clone + Eq + std::hash::Hash {

}

} // verus!
