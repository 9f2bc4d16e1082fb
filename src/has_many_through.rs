//! Many-to-many relationships through a relation record.
use crate::grouping::{
    all_clones, entry_or_empty, flatten_ids, groups_view, in_some_group, lookup_all,
    resolve_groups, take_group,
};
use crate::meta::{clones_exactly, hash_map_by_id, index_by_id, Meta};
use std::collections::HashMap;
use vstd::prelude::*;

verus! {

/// A many-to-many relationship through `Relation`, a record of its own.
/// The store lists, for a batch of relation identifiers, the identifiers of
/// the records related to each; these methods turn such a listing and the
/// records fetched for it into per-relation answers.
pub trait HasManyThrough<Relation: Meta>: Meta + Clone {
    /// The identifiers related to `id`, taken out of the listing fetched for
    /// a batch of relation identifiers; none when the listing has no entry
    /// for `id`.
    fn ids_for_relation_from(groups: HashMap<Relation::Id, Vec<Self::Id>>, id: &Relation::Id) -> (r:
        Vec<Self::Id>)
        requires
            vstd::std_specs::hash::obeys_key_model::<Relation::Id>(),
        ensures
            r@ == entry_or_empty(groups_view(groups@), *id),
    {
        take_group(groups, id)
    }

    /// Every identifier in the listing: the records to fetch in one batch.
    /// Each identifier listed for some relation occurs, and nothing else.
    fn all_ids(groups: &HashMap<Relation::Id, Vec<Self::Id>>) -> (r: Vec<Self::Id>)
        requires
            vstd::std_specs::hash::obeys_key_model::<Relation::Id>(),
            clones_exactly::<Self::Id>(),
        ensures
            forall|x: Self::Id| r@.contains(x) <==> in_some_group(groups@, x),
    {
        flatten_ids::<Relation, Self>(groups)
    }

    /// Replaces each listed identifier by the fetched record with that
    /// identifier. Every relation of the listing keeps its entry;
    /// identifiers with no fetched record are dropped.
    fn for_relations_from(groups: &HashMap<Relation::Id, Vec<Self::Id>>, records: Vec<Self>) -> (r:
        HashMap<Relation::Id, Vec<Self>>)
        requires
            vstd::std_specs::hash::obeys_key_model::<Relation::Id>(),
            vstd::std_specs::hash::obeys_key_model::<Self::Id>(),
            clones_exactly::<Relation::Id>(),
        ensures
            r@.dom() == groups@.dom(),
            forall|k: Relation::Id| #[trigger]
                r@.contains_key(k) ==> all_clones(
                    lookup_all(groups@[k]@, index_by_id(records@)),
                    r@[k]@,
                ),
    {
        let index = hash_map_by_id(records);
        resolve_groups::<Relation, Self>(groups, &index)
    }

    /// The records related to `id`, taken out of the per-relation answer;
    /// none when it has no entry for `id`.
    fn for_relation_from(groups: HashMap<Relation::Id, Vec<Self>>, id: &Relation::Id) -> (r: Vec<
        Self,
    >)
        requires
            vstd::std_specs::hash::obeys_key_model::<Relation::Id>(),
        ensures
            r@ == entry_or_empty(groups_view(groups@), *id),
    {
        take_group(groups, id)
    }
}

} // verus!
