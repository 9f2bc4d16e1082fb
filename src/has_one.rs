//! The parent side of a one-to-one relationship.
use crate::belongs_to::BelongsTo;
use crate::meta::Meta;
use vstd::prelude::*;

verus! {

/// A required record was not found.
#[derive(Debug, Clone, Copy, PartialEq, Eq)]
pub struct NotFound;

/// A record with at most one `Child`.
///
/// `HasOne` is the inverse of [`BelongsTo`](crate::BelongsTo).
pub trait HasOne<Child: BelongsTo<Self>>: Meta {
    /// The child among the children fetched for this record: the first of
    /// them, or `NotFound` when there are none. Where the data holds more
    /// than one child for this record, the first one fetched is returned.
    fn child_from(children: Vec<Child>) -> (r: Result<Child, NotFound>)
        ensures
            children@.len() == 0 <==> r is Err,
            children@.len() > 0 ==> r == Ok::<Child, NotFound>(children@[0]),
    {
        let mut children = children;
        if children.len() == 0 {
            Err(NotFound)
        } else {
            Ok(children.swap_remove(0))
        }
    }
}

} // verus!
