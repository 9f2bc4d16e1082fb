//! The child side of a one-to-one or one-to-many relationship.
use crate::grouping::{entry_or_empty, groups_view};
use crate::meta::{hash_map_by_id, index_by_id, Meta};
use std::collections::HashMap;
use vstd::prelude::*;

verus! {

/// A record that holds the foreign key of a `Parent` record.
///
/// This is the inverse of [`HasOne`](crate::HasOne) and
/// [`HasMany`](crate::HasMany).
pub trait BelongsTo<Parent: Meta>: Meta {
    /// The foreign key, as a mathematical value.
    closed spec fn spec_parent_id(&self) -> Parent::Id {
        arbitrary()
    }

    /// The foreign key of the parent record.
    fn parent_id(&self) -> (r: Parent::Id)
        ensures
            r == self.spec_parent_id(),
    ;
}

/// The children of `s` grouped by parent identifier, each group in the order
/// of `s`.
pub open spec fn group_by_parent<P: Meta, C: BelongsTo<P>>(s: Seq<C>) -> Map<P::Id, Seq<C>>
    decreases s.len(),
{
    if s.len() == 0 {
        Map::empty()
    } else {
        let m = group_by_parent::<P, C>(s.drop_last());
        let k = s.last().spec_parent_id();
        let prev = if m.contains_key(k) {
            m[k]
        } else {
            Seq::empty()
        };
        m.insert(k, prev.push(s.last()))
    }
}

/// Grouping is complete: for any parent identifier, the group found under it
/// (an absent key read as an empty group) is exactly the children that carry
/// that identifier, in fetch order; and a key that is present never holds an
/// empty group.
pub proof fn lemma_grouping_complete<P: Meta, C: BelongsTo<P>>(s: Seq<C>, k: P::Id)
    ensures
        entry_or_empty(group_by_parent::<P, C>(s), k) == s.filter(
            |c: C| c.spec_parent_id() == k,
        ),
        group_by_parent::<P, C>(s).contains_key(k) ==> group_by_parent::<P, C>(s)[k].len() > 0,
    decreases s.len(),
{
    reveal(Seq::filter);
    if s.len() > 0 {
        lemma_grouping_complete::<P, C>(s.drop_last(), k);
    }
}

/// Filtering twice by the same parent identifier filters once.
proof fn lemma_filter_parent_twice<P: Meta, C: BelongsTo<P>>(s: Seq<C>, k: P::Id)
    ensures
        s.filter(|c: C| c.spec_parent_id() == k).filter(|c: C| c.spec_parent_id() == k)
            == s.filter(|c: C| c.spec_parent_id() == k),
    decreases s.len(),
{
    reveal(Seq::filter);
    if s.len() > 0 {
        lemma_filter_parent_twice::<P, C>(s.drop_last(), k);
        let f = s.filter(|c: C| c.spec_parent_id() == k);
        let g = s.drop_last().filter(|c: C| c.spec_parent_id() == k);
        if s.last().spec_parent_id() == k {
            assert(f == g.push(s.last()));
            assert(f.drop_last() =~= g);
        }
    }
}

/// Singular and batch lookups agree: the children fetched for parent `p`
/// alone, once grouped, give `p` the same group as a batch that holds them
/// among the children of other parents.
pub proof fn lemma_singular_batch_consistent<P: Meta, C: BelongsTo<P>>(s: Seq<C>, p: P::Id)
    ensures
        entry_or_empty(group_by_parent::<P, C>(s.filter(|c: C| c.spec_parent_id() == p)), p)
            == entry_or_empty(group_by_parent::<P, C>(s), p),
{
    let single = s.filter(|c: C| c.spec_parent_id() == p);
    lemma_grouping_complete::<P, C>(single, p);
    lemma_grouping_complete::<P, C>(s, p);
    lemma_filter_parent_twice::<P, C>(s, p);
}

/// Groups fetched children by their parent identifier, keeping the order in
/// which they were fetched.
pub fn group_by_parent_id<P: Meta, C: BelongsTo<P>>(values: Vec<C>) -> (r: HashMap<
    P::Id,
    Vec<C>,
>)
    requires
        vstd::std_specs::hash::obeys_key_model::<P::Id>(),
    ensures
        groups_view(r@) == group_by_parent::<P, C>(values@),
{
    broadcast use vstd::std_specs::hash::group_hash_axioms;
    let mut r: HashMap<P::Id, Vec<C>> = HashMap::new();
    for v in it: values.into_iter()
        invariant
            vstd::std_specs::hash::obeys_key_model::<P::Id>(),
            it.seq() == values@,
            groups_view(r@) == group_by_parent::<P, C>(values@.take(it.index() as int)),
    {
        let ghost before = values@.take(it.index() as int);
        proof {
            assert(values@.take(it.index() + 1).drop_last() =~= before);
        }
        let k = v.parent_id();
        let mut group = match r.remove(&k) {
            Some(g) => g,
            None => Vec::new(),
        };
        group.push(v);
        r.insert(k, group);
        proof {
            assert(groups_view(r@) =~= group_by_parent::<P, C>(values@.take(it.index() + 1)));
        }
    }
    proof {
        assert(values@.take(values@.len() as int) =~= values@);
    }
    r
}

/// The parent identifiers of `values`, in order.
pub open spec fn parent_ids_of<P: Meta, C: BelongsTo<P>>(values: Seq<C>) -> Seq<P::Id> {
    values.map_values(|c: C| c.spec_parent_id())
}

/// Collects the foreign key of each child, in order: the identifiers to
/// fetch the parents of `values` by.
pub fn parent_ids<P: Meta, C: BelongsTo<P>>(values: &[C]) -> (r: Vec<P::Id>)
    ensures
        r@ == parent_ids_of::<P, C>(values@),
{
    let mut r: Vec<P::Id> = Vec::new();
    let mut i: usize = 0;
    while i < values.len()
        invariant
            i <= values@.len(),
            r@ == parent_ids_of::<P, C>(values@.take(i as int)),
        decreases values@.len() - i,
    {
        r.push(values[i].parent_id());
        proof {
            assert(parent_ids_of::<P, C>(values@.take(i + 1)) =~= parent_ids_of::<P, C>(
                values@.take(i as int),
            ).push(values@[i as int].spec_parent_id()));
        }
        i = i + 1;
    }
    proof {
        assert(values@.take(values@.len() as int) =~= values@);
    }
    r
}

/// For each child whose parent is in `index`, its identifier mapped to that
/// parent; a later child replaces an earlier one with the same identifier.
/// Children whose parent is missing from `index` are left out.
pub open spec fn match_parents<P: Meta, C: BelongsTo<P>>(values: Seq<C>, index: Map<P::Id, P>) -> Map<
    C::Id,
    P,
>
    decreases values.len(),
{
    if values.len() == 0 {
        Map::empty()
    } else {
        let m = match_parents::<P, C>(values.drop_last(), index);
        let c = values.last();
        if index.contains_key(c.spec_parent_id()) {
            m.insert(c.spec_id(), index[c.spec_parent_id()])
        } else {
            m
        }
    }
}

/// Dangling foreign keys are omitted, and nothing else is: a child
/// identifier is in the matching exactly when some child with that
/// identifier has its parent in `index`.
pub proof fn lemma_match_parents_omits_dangling<P: Meta, C: BelongsTo<P>>(
    values: Seq<C>,
    index: Map<P::Id, P>,
    k: C::Id,
)
    ensures
        match_parents::<P, C>(values, index).contains_key(k) <==> exists|i: int|
            0 <= i < values.len() && (#[trigger] values[i]).spec_id() == k && index.contains_key(
                values[i].spec_parent_id(),
            ),
    decreases values.len(),
{
    if values.len() > 0 {
        let rest = values.drop_last();
        lemma_match_parents_omits_dangling::<P, C>(rest, index, k);
        if exists|i: int|
            0 <= i < values.len() && (#[trigger] values[i]).spec_id() == k && index.contains_key(
                values[i].spec_parent_id(),
            ) {
            let i = choose|i: int|
                0 <= i < values.len() && (#[trigger] values[i]).spec_id() == k
                    && index.contains_key(values[i].spec_parent_id());
            if i < values.len() - 1 {
                assert(rest[i] == values[i]);
            }
        }
        if exists|i: int|
            0 <= i < rest.len() && (#[trigger] rest[i]).spec_id() == k && index.contains_key(
                rest[i].spec_parent_id(),
            ) {
            let i = choose|i: int|
                0 <= i < rest.len() && (#[trigger] rest[i]).spec_id() == k && index.contains_key(
                    rest[i].spec_parent_id(),
                );
            assert(values[i] == rest[i]);
        }
    }
}

/// Matches each child with its parent among the fetched `parents`, keyed by
/// the child's identifier. A child whose parent was not fetched is left out,
/// without an error.
pub fn parents_for_many<P: Meta + Clone, C: BelongsTo<P>>(values: &[C], parents: Vec<P>) -> (r:
    HashMap<C::Id, P>)
    requires
        vstd::std_specs::hash::obeys_key_model::<P::Id>(),
        vstd::std_specs::hash::obeys_key_model::<C::Id>(),
    ensures
        ({
            let m = match_parents::<P, C>(values@, index_by_id(parents@));
            &&& r@.dom() == m.dom()
            &&& forall|k: C::Id| #[trigger]
                r@.contains_key(k) ==> vstd::pervasive::cloned(m[k], r@[k])
        }),
{
    broadcast use vstd::std_specs::hash::group_hash_axioms;
    let index = hash_map_by_id(parents);
    let mut r: HashMap<C::Id, P> = HashMap::new();
    let mut i: usize = 0;
    while i < values.len()
        invariant
            vstd::std_specs::hash::obeys_key_model::<P::Id>(),
            vstd::std_specs::hash::obeys_key_model::<C::Id>(),
            index@ == index_by_id(parents@),
            i <= values@.len(),
            r@.dom() == match_parents::<P, C>(values@.take(i as int), index@).dom(),
            forall|k: C::Id| #[trigger]
                r@.contains_key(k) ==> vstd::pervasive::cloned(
                    match_parents::<P, C>(values@.take(i as int), index@)[k],
                    r@[k],
                ),
        decreases values@.len() - i,
    {
        proof {
            assert(values@.take(i + 1).drop_last() =~= values@.take(i as int));
        }
        let child = &values[i];
        let pid = child.parent_id();
        match index.get(&pid) {
            Some(p) => {
                let c = p.clone();
                r.insert(child.id(), c);
            },
            None => {},
        }
        i = i + 1;
        proof {
            assert(r@.dom() =~= match_parents::<P, C>(values@.take(i as int), index@).dom());
        }
    }
    proof {
        assert(values@.take(values@.len() as int) =~= values@);
    }
    r
}

} // verus!
