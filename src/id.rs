//! Records identified by an id of their own type, without store types.
use std::collections::{HashMap, HashSet};
use crate::meta::{clone_id, clones_exactly};
use std::hash::Hash;
use vstd::prelude::*;

verus! {

/// A record with a unique identifier.
pub trait Id: Sized {
    type Id;

    /// The identifier of the record, as a mathematical value.
    closed spec fn spec_id(&self) -> Self::Id {
        arbitrary()
    }

    /// A unique ID for the record, typically its primary key.
    fn id(&self) -> (r: Self::Id)
        ensures
            r == self.spec_id(),
    ;
}

/// Index of records by identifier: a later record replaces an earlier one
/// with the same identifier.
pub open spec fn index_by_id<T: Id>(s: Seq<T>) -> Map<T::Id, T>
    decreases s.len(),
{
    if s.len() == 0 {
        Map::empty()
    } else {
        index_by_id(s.drop_last()).insert(s.last().spec_id(), s.last())
    }
}

/// Builds a map from identifier to record; on equal identifiers the last
/// record wins.
pub fn hash_map_by_id<T: Id>(values: Vec<T>) -> (r: HashMap<T::Id, T>) where T::Id: Eq + Hash
    requires
        vstd::std_specs::hash::obeys_key_model::<T::Id>(),
    ensures
        r@ == index_by_id(values@),
{
    let mut r: HashMap<T::Id, T> = HashMap::new();
    for v in it: values.into_iter()
        invariant
            vstd::std_specs::hash::obeys_key_model::<T::Id>(),
            it.seq() == values@,
            r@ == index_by_id(values@.take(it.index() as int)),
    {
        proof {
            broadcast use vstd::std_specs::hash::group_hash_axioms;

            assert(values@.take(it.index() + 1).drop_last() =~= values@.take(it.index() as int));
        }
        let k = v.id();
        r.insert(k, v);
    }
    proof {
        assert(values@.take(values@.len() as int) =~= values@);
    }
    r
}

/// Each identifier of `ids` exactly once.
pub fn distinct_ids<T: Id>(ids: Vec<T::Id>) -> (r: Vec<T::Id>) where T::Id: Clone + Eq + Hash
    requires
        vstd::std_specs::hash::obeys_key_model::<T::Id>(),
        clones_exactly::<T::Id>(),
    ensures
        r@.no_duplicates(),
        forall|x: T::Id| r@.contains(x) <==> ids@.contains(x),
{
    broadcast use vstd::std_specs::hash::group_hash_axioms;
    let mut seen: HashSet<T::Id> = HashSet::new();
    let mut r: Vec<T::Id> = Vec::new();
    for id in it: ids.into_iter()
        invariant
            vstd::std_specs::hash::obeys_key_model::<T::Id>(),
            clones_exactly::<T::Id>(),
            it.seq() == ids@,
            r@.no_duplicates(),
            forall|x: T::Id| r@.contains(x) <==> seen@.contains(x),
            forall|x: T::Id| r@.contains(x) <==> ids@.take(it.index() as int).contains(x),
    {
        let ghost before = ids@.take(it.index() as int);
        let ghost old_r = r@;
        let ghost n = it.index();
        proof {
            assert(ids@.take(n + 1) =~= before.push(id));
        }
        if !seen.contains(&id) {
            let copy = clone_id(&id);
            seen.insert(copy);
            r.push(id);
        }
        proof {
            assert forall|x: T::Id| r@.contains(x) <==> (old_r.contains(x) || x == id) by {
                if old_r.contains(x) {
                    let i = choose|i: int| 0 <= i < old_r.len() && old_r[i] == x;
                    assert(r@[i] == x);
                }
                if r@.contains(x) {
                    let i = choose|i: int| 0 <= i < r@.len() && r@[i] == x;
                    if i < old_r.len() {
                        assert(old_r[i] == x);
                    }
                }
                if x == id && r@.len() > old_r.len() {
                    assert(r@[r@.len() - 1] == id);
                }
            }
            assert forall|x: T::Id| before.push(id).contains(x) <==> (before.contains(x) || x == id) by {
                if before.contains(x) {
                    let i = choose|i: int| 0 <= i < before.len() && before[i] == x;
                    assert(before.push(id)[i] == x);
                }
                if before.push(id).contains(x) {
                    let i = choose|i: int| 0 <= i < before.len() + 1 && before.push(id)[i] == x;
                    if i < before.len() {
                        assert(before[i] == x);
                    }
                }
                if x == id {
                    assert(before.push(id)[before.len() as int] == id);
                }
            }
            assert forall|x: T::Id| r@.contains(x) <==> ids@.take(n + 1).contains(x) by {
                assert(r@.contains(x) <==> (old_r.contains(x) || x == id));
                assert(old_r.contains(x) <==> before.contains(x));
                assert(before.push(id).contains(x) <==> (before.contains(x) || x == id));
            }
        }
    }
    proof {
        assert(ids@.take(ids@.len() as int) =~= ids@);
    }
    r
}

} // verus!
