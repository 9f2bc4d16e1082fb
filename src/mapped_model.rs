//! Records that wrap another record type and take on its behaviour.
use crate::as_id::ids_of;
use crate::belongs_to::BelongsTo;
use crate::grouping::{all_clones, ids_groups, lookup_all, resolve_groups};
use crate::meta::{clones_exactly, hash_map_by_id, index_by_id, lemma_index_by_id, Meta};
use std::collections::HashMap;
use vstd::prelude::*;

verus! {

/// A record type that wraps an `OriginalModel` record, built from it by a
/// mapping step, and that shares its identifier, store and the rest of its
/// behaviour by delegation.
pub trait MappedModel: Sized + Clone {
    type OriginalModel: Meta;

    type Error: From<<Self::OriginalModel as Meta>::Error>;

    /// The identifier, as a mathematical value.
    closed spec fn spec_mapped_id(&self) -> <Self::OriginalModel as Meta>::Id {
        arbitrary()
    }

    fn id(&self) -> (r: <Self::OriginalModel as Meta>::Id)
        ensures
            r == self.spec_mapped_id(),
    ;
}

impl<T: MappedModel> Meta for T {
    type Id = <T::OriginalModel as Meta>::Id;

    type Store = <T::OriginalModel as Meta>::Store;

    type Error = <T as MappedModel>::Error;

    open spec fn spec_id(&self) -> Self::Id {
        self.spec_mapped_id()
    }

    fn id(&self) -> (r: Self::Id) {
        MappedModel::id(self)
    }
}

/// The foreign key of a mapped record to `Parent`, from which it takes on
/// [`BelongsTo`](crate::BelongsTo).
pub trait MappedModelWithParentId<Parent: Meta> {
    /// The foreign key, as a mathematical value.
    closed spec fn spec_mapped_parent_id(&self) -> Parent::Id {
        arbitrary()
    }

    fn parent_id(&self) -> (r: Parent::Id)
        ensures
            r == self.spec_mapped_parent_id(),
    ;
}

impl<T: MappedModel + MappedModelWithParentId<P>, P: Meta> BelongsTo<P> for T {
    open spec fn spec_parent_id(&self) -> P::Id {
        self.spec_mapped_parent_id()
    }

    fn parent_id(&self) -> (r: P::Id) {
        MappedModelWithParentId::parent_id(self)
    }
}

/// Mapping keeps identity: when every original of a group has a mapped
/// record with its identifier, the regrouped records carry the identifiers
/// of the originals, one for one and in the same order.
pub proof fn lemma_mapped_ids_round_trip<T: MappedModel>(
    originals: Seq<T::OriginalModel>,
    mapped: Seq<T>,
)
    requires
        forall|i: int|
            0 <= i < originals.len() ==> index_by_id(mapped).contains_key(
                (#[trigger] originals[i]).spec_id(),
            ),
    ensures
        lookup_all(ids_of(originals), index_by_id(mapped)).map_values(|m: T| m.spec_id())
            == ids_of(originals),
    decreases originals.len(),
{
    let ids = ids_of(originals);
    let index = index_by_id(mapped);
    if originals.len() > 0 {
        let rest = originals.drop_last();
        assert forall|i: int| 0 <= i < rest.len() implies index.contains_key(
            (#[trigger] rest[i]).spec_id(),
        ) by {
            assert(rest[i] == originals[i]);
        }
        lemma_mapped_ids_round_trip::<T>(rest, mapped);
        assert(ids.drop_last() =~= ids_of(rest));
        let k = ids.last();
        assert(k == originals[originals.len() - 1].spec_id());
        lemma_index_by_id(mapped, k);
        let before = lookup_all(ids.drop_last(), index);
        assert(lookup_all(ids, index) == before.push(index[k]));
        assert(before.push(index[k]).map_values(|m: T| m.spec_id()) =~= before.map_values(
            |m: T| m.spec_id(),
        ).push(k));
        assert(ids =~= ids.drop_last().push(k));
    } else {
        assert(lookup_all(ids, index).map_values(|m: T| m.spec_id()) =~= ids);
    }
}

/// Rebuilds the per-parent grouping of original records over the records
/// mapped from them: each original is replaced by the mapped record with its
/// identifier, in the same place. Every parent keeps its entry; an original
/// with no mapped record is dropped.
pub fn regroup_mapped<P: Meta, T: MappedModel>(
    groups: &HashMap<P::Id, Vec<T::OriginalModel>>,
    mapped: Vec<T>,
) -> (r: HashMap<P::Id, Vec<T>>)
    requires
        vstd::std_specs::hash::obeys_key_model::<P::Id>(),
        vstd::std_specs::hash::obeys_key_model::<<T::OriginalModel as Meta>::Id>(),
        clones_exactly::<P::Id>(),
    ensures
        r@.dom() == groups@.dom(),
        forall|k: P::Id| #[trigger]
            r@.contains_key(k) ==> all_clones(
                lookup_all(ids_of(groups@[k]@), index_by_id(mapped@)),
                r@[k]@,
            ),
{
    let ids = ids_groups::<P, T::OriginalModel>(groups);
    let index = hash_map_by_id(mapped);
    resolve_groups::<P, T>(&ids, &index)
}

} // verus!
