//! Many-to-many relationships whose join is not a record of its own.
use crate::grouping::{
    all_clones, entry_or_empty, flatten_ids, groups_view, in_some_group, lookup_all,
    resolve_groups, take_group,
};
use crate::meta::{clones_exactly, hash_map_by_id, index_by_id, Meta};
use std::collections::HashMap;
use vstd::prelude::*;

verus! {

/// A many-to-many relationship with `Parent`, usually stored in a join
/// table. The store lists, for a batch of parent identifiers, the
/// identifiers of the records joined to each; these methods turn such a
/// listing and the records fetched for it into per-parent answers.
pub trait HasManyAndBelongsTo<Parent: Meta>: Meta + Clone {
    /// The identifiers joined to `id`, taken out of the listing fetched for
    /// a batch of parent identifiers; none when the listing has no entry for
    /// `id`.
    fn ids_for_parent_id_from(groups: HashMap<Parent::Id, Vec<Self::Id>>, id: &Parent::Id) -> (r:
        Vec<Self::Id>)
        requires
            vstd::std_specs::hash::obeys_key_model::<Parent::Id>(),
        ensures
            r@ == entry_or_empty(groups_view(groups@), *id),
    {
        take_group(groups, id)
    }

    /// Every identifier in the listing: the records to fetch in one batch.
    /// Each identifier listed for some parent occurs, and nothing else.
    fn all_ids(groups: &HashMap<Parent::Id, Vec<Self::Id>>) -> (r: Vec<Self::Id>)
        requires
            vstd::std_specs::hash::obeys_key_model::<Parent::Id>(),
            clones_exactly::<Self::Id>(),
        ensures
            forall|x: Self::Id| r@.contains(x) <==> in_some_group(groups@, x),
    {
        flatten_ids::<Parent, Self>(groups)
    }

    /// Replaces each listed identifier by the fetched record with that
    /// identifier. Every parent of the listing keeps its entry; identifiers
    /// with no fetched record are dropped.
    fn for_parent_ids_from(groups: &HashMap<Parent::Id, Vec<Self::Id>>, records: Vec<Self>) -> (r:
        HashMap<Parent::Id, Vec<Self>>)
        requires
            vstd::std_specs::hash::obeys_key_model::<Parent::Id>(),
            vstd::std_specs::hash::obeys_key_model::<Self::Id>(),
            clones_exactly::<Parent::Id>(),
        ensures
            r@.dom() == groups@.dom(),
            forall|k: Parent::Id| #[trigger]
                r@.contains_key(k) ==> all_clones(
                    lookup_all(groups@[k]@, index_by_id(records@)),
                    r@[k]@,
                ),
    {
        let index = hash_map_by_id(records);
        resolve_groups::<Parent, Self>(groups, &index)
    }
}

} // verus!
