//! The child side of a one-to-many relationship whose parents list the ids
//! of their children.
use crate::id::{distinct_ids, Id};
use crate::meta::clones_exactly;
use vstd::prelude::*;

verus! {

/// The mathematical content of a list of identifier lists.
pub open spec fn lists_view<K>(lists: Seq<Vec<K>>) -> Seq<Seq<K>> {
    lists.map_values(|v: Vec<K>| v@)
}

/// Concatenates identifier lists in order.
pub fn concat_ids<K>(lists: Vec<Vec<K>>) -> (r: Vec<K>)
    ensures
        r@ == lists_view(lists@).flatten(),
{
    let mut r: Vec<K> = Vec::new();
    for list in it: lists.into_iter()
        invariant
            it.seq() == lists@,
            r@ == lists_view(lists@.take(it.index() as int)).flatten(),
    {
        let ghost n = it.index();
        let ghost start = r@;
        for x in jt: list.into_iter()
            invariant
                jt.seq() == list@,
                r@ == start + list@.take(jt.index() as int),
        {
            proof {
                assert(start + list@.take(jt.index() + 1) =~= (start + list@.take(
                    jt.index() as int,
                )).push(x));
            }
            r.push(x);
        }
        proof {
            assert(list@.take(list@.len() as int) =~= list@);
            assert(lists_view(lists@.take(n + 1)) =~= lists_view(lists@.take(n as int)).push(
                list@,
            ));
            lists_view(lists@.take(n as int)).lemma_flatten_push(list@);
        }
    }
    proof {
        assert(lists@.take(lists@.len() as int) =~= lists@);
    }
    r
}

/// The inverse of [`HasMany`](crate::HasMany), for parents that list the
/// identifiers of their children. Implemented for every record type.
pub trait HasParentsWithManyChildren<Parent>: Id where Self::Id: Clone + Eq + std::hash::Hash {
    /// The children to fetch for a batch of parents, given the identifier
    /// list of each parent: every listed identifier exactly once.
    fn child_ids_for_parents(child_ids: Vec<Vec<Self::Id>>) -> (r: Vec<Self::Id>)
        requires
            vstd::std_specs::hash::obeys_key_model::<Self::Id>(),
            clones_exactly::<Self::Id>(),
        ensures
            r@.no_duplicates(),
            forall|x: Self::Id| r@.contains(x) <==> lists_view(child_ids@).flatten().contains(x),
    {
        let all = concat_ids(child_ids);
        distinct_ids::<Self>(all)
    }
}

impl<Parent, Child: Id> HasParentsWithManyChildren<Parent> for Child where Child::Id: Clone + Eq + std::hash::Hash {

}

} // verus!
