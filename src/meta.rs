use std::collections::HashMap;
use std::hash::Hash;
use vstd::prelude::*;

verus! {

/// A record with a stable, unique identifier, and the store and error
/// types that its persistence operations use.
pub trait Meta: Sized {
    type Id: 'static + Clone + std::fmt::Debug + Eq + Hash + Send + Sync;

    type Store: Send + Sync;

    /// The error type of every fallible operation on this record type.
    type Error;

    /// The identifier of the record, as a mathematical value.
    closed spec fn spec_id(&self) -> Self::Id {
        arbitrary()
    }

    /// A unique ID for the record, typically its primary key.
    fn id(&self) -> (r: Self::Id)
        ensures
            r == self.spec_id(),
    ;
}

/// Cloning a value of `K` gives an equal value, as it does for integers
/// and other plain data.
pub open spec fn clones_exactly<K: Clone>() -> bool {
    forall|a: K, b: K| #[trigger] vstd::pervasive::strictly_cloned(a, b) ==> a == b
}

/// Clones an identifier; the copy equals the original.
pub fn clone_id<K: Clone>(id: &K) -> (r: K)
    requires
        clones_exactly::<K>(),
    ensures
        r == *id,
{
    let r = id.clone();
    assert(vstd::pervasive::strictly_cloned(*id, r));
    r
}

/// Applies what a re-fetch or an update of a record returned: on success the
/// fresh record replaces `target`; on failure `target` is left as it was and
/// the error is passed on.
pub fn replace_on_success<T, E>(target: &mut T, outcome: Result<T, E>) -> (r: Result<(), E>)
    ensures
        match outcome {
            Ok(v) => r is Ok && *final(target) == v,
            Err(e) => r == Err::<(), E>(e) && *final(target) == *old(target),
        },
{
    match outcome {
        Ok(v) => {
            *target = v;
            Ok(())
        },
        Err(e) => Err(e),
    }
}

/// Index of records by identifier: a later record replaces an earlier one
/// with the same identifier.
pub open spec fn index_by_id<T: Meta>(s: Seq<T>) -> Map<T::Id, T>
    decreases s.len(),
{
    if s.len() == 0 {
        Map::empty()
    } else {
        index_by_id(s.drop_last()).insert(s.last().spec_id(), s.last())
    }
}

/// Each record of the index is filed under its own identifier, and the index
/// holds exactly the identifiers of the records.
pub proof fn lemma_index_by_id<T: Meta>(s: Seq<T>, k: T::Id)
    ensures
        index_by_id(s).contains_key(k) <==> exists|i: int|
            0 <= i < s.len() && (#[trigger] s[i]).spec_id() == k,
        index_by_id(s).contains_key(k) ==> index_by_id(s)[k].spec_id() == k,
    decreases s.len(),
{
    if s.len() > 0 {
        lemma_index_by_id(s.drop_last(), k);
        if exists|i: int| 0 <= i < s.len() && (#[trigger] s[i]).spec_id() == k {
            let i = choose|i: int| 0 <= i < s.len() && (#[trigger] s[i]).spec_id() == k;
            if i < s.len() - 1 {
                assert(s.drop_last()[i] == s[i]);
            }
        }
        if exists|i: int| 0 <= i < s.len() - 1 && (#[trigger] s.drop_last()[i]).spec_id() == k {
            let i = choose|i: int| 0 <= i < s.len() - 1 && (#[trigger] s.drop_last()[i]).spec_id() == k;
            assert(s[i] == s.drop_last()[i]);
        }
    }
}

/// Builds a map from identifier to record; on equal identifiers the last
/// record wins.
pub fn hash_map_by_id<T: Meta>(values: Vec<T>) -> (r: HashMap<T::Id, T>)
    requires
        vstd::std_specs::hash::obeys_key_model::<T::Id>(),
    ensures
        r@ == index_by_id(values@),
{
    let mut r: HashMap<T::Id, T> = HashMap::new();
    for v in it: values.into_iter()
        invariant
            vstd::std_specs::hash::obeys_key_model::<T::Id>(),
            it.seq() == values@,
            r@ == index_by_id(values@.take(it.index() as int)),
    {
        proof {
            broadcast use vstd::std_specs::hash::group_hash_axioms;
            assert(values@.take(it.index() + 1).drop_last() =~= values@.take(it.index() as int));
        }
        let k = v.id();
        r.insert(k, v);
    }
    proof { assert(values@.take(values@.len() as int) =~= values@); }
    r
}

} // verus!
