//! The parent side of a one-to-many relationship.
use crate::belongs_to::BelongsTo;
use crate::grouping::{entry_or_empty, groups_view, take_group};
use crate::meta::Meta;
use std::collections::HashMap;
use vstd::prelude::*;

verus! {

/// A record with any number of `Child` records.
///
/// `HasMany` is the inverse of [`BelongsTo`](crate::BelongsTo).
pub trait HasMany<Child: BelongsTo<Self>>: Meta {
    /// This record's children, taken out of the children fetched for a batch
    /// of parents and grouped by parent identifier; none when the batch
    /// holds no group for this record.
    fn children_from(&self, groups: HashMap<Self::Id, Vec<Child>>) -> (r: Vec<Child>)
        requires
            vstd::std_specs::hash::obeys_key_model::<Self::Id>(),
        ensures
            r@ == entry_or_empty(groups_view(groups@), self.spec_id()),
    {
        let id = self.id();
        take_group(groups, &id)
    }
}

} // verus!
