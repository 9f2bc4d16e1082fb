//! Identity, association and batch-loading contracts for record types.
//!
//! Store access is left to the caller: each function here takes what a
//! batched fetch returned and derives the per-parent or per-child answer.

pub mod as_id;
pub mod belongs_to;
pub mod grouping;
pub mod has_many;
pub mod has_many_and_belongs_to;
pub mod has_many_through;
pub mod has_one;
pub mod has_parents_with_many_children;
pub mod has_parents_with_one_child;
pub mod id;
pub mod into_id;
pub mod mapped_model;
pub mod meta;

pub use as_id::{as_ids, AsId};
pub use belongs_to::BelongsTo;
pub use has_many::HasMany;
pub use has_many_and_belongs_to::HasManyAndBelongsTo;
pub use has_many_through::HasManyThrough;
pub use has_one::{HasOne, NotFound};
pub use has_parents_with_many_children::HasParentsWithManyChildren;
pub use has_parents_with_one_child::HasParentsWithOneChild;
pub use id::Id;
pub use into_id::IntoId;
pub use mapped_model::{MappedModel, MappedModelWithParentId};
pub use meta::{hash_map_by_id, Meta};
