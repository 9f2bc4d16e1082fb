//! Grouping mappings: identifier to sequence of associated values.
use crate::as_id::{as_ids, ids_of};
use crate::meta::{clone_id, clones_exactly, Meta};
use std::collections::HashMap;
use vstd::prelude::*;
use vstd::std_specs::iter::IteratorSpec;

verus! {

/// The mathematical content of a grouping mapping.
pub open spec fn groups_view<K, V>(m: Map<K, Vec<V>>) -> Map<K, Seq<V>> {
    m.map_values(|v: Vec<V>| v@)
}

/// The sequence stored under `k`, with an absent key read as empty.
pub open spec fn entry_or_empty<K, V>(m: Map<K, Seq<V>>, k: K) -> Seq<V> {
    if m.contains_key(k) {
        m[k]
    } else {
        Seq::empty()
    }
}

/// The values that `index` holds for `ids`, in order; ids without a value
/// are skipped.
pub open spec fn lookup_all<I, V>(ids: Seq<I>, index: Map<I, V>) -> Seq<V>
    decreases ids.len(),
{
    if ids.len() == 0 {
        Seq::empty()
    } else {
        let rest = lookup_all(ids.drop_last(), index);
        if index.contains_key(ids.last()) {
            rest.push(index[ids.last()])
        } else {
            rest
        }
    }
}

/// `b` is `a`, element by element, up to cloning.
pub open spec fn all_clones<V: Clone>(a: Seq<V>, b: Seq<V>) -> bool {
    &&& a.len() == b.len()
    &&& forall|i: int| 0 <= i < a.len() ==> vstd::pervasive::cloned(#[trigger] a[i], b[i])
}

/// Removes and returns the sequence stored under `id`, or an empty one when
/// the key is absent.
pub fn take_group<K: Eq + std::hash::Hash, V>(groups: HashMap<K, Vec<V>>, id: &K) -> (r: Vec<V>)
    requires
        vstd::std_specs::hash::obeys_key_model::<K>(),
    ensures
        r@ == entry_or_empty(groups_view(groups@), *id),
{
    broadcast use vstd::std_specs::hash::group_hash_axioms;
    let mut groups = groups;
    match groups.remove(id) {
        Some(v) => v,
        None => Vec::new(),
    }
}

/// Replaces each identifier list of `groups` by the values that `index`
/// holds for it; identifiers with no value are dropped.
pub fn resolve_groups<P: Meta, C: Meta + Clone>(
    groups: &HashMap<P::Id, Vec<C::Id>>,
    index: &HashMap<C::Id, C>,
) -> (r: HashMap<P::Id, Vec<C>>)
    requires
        vstd::std_specs::hash::obeys_key_model::<P::Id>(),
        vstd::std_specs::hash::obeys_key_model::<C::Id>(),
        clones_exactly::<P::Id>(),
    ensures
        r@.dom() == groups@.dom(),
        forall|k: P::Id| #[trigger]
            r@.contains_key(k) ==> all_clones(lookup_all(groups@[k]@, index@), r@[k]@),
{
    broadcast use vstd::std_specs::hash::group_hash_axioms;
    let mut r: HashMap<P::Id, Vec<C>> = HashMap::new();
    for entry in it: groups.iter()
        invariant
            vstd::std_specs::hash::obeys_key_model::<P::Id>(),
            vstd::std_specs::hash::obeys_key_model::<C::Id>(),
            clones_exactly::<P::Id>(),
            it.seq() == vstd::std_specs::hash::spec_hash_map_iter(groups).remaining(),
            forall|i: int| 0 <= i < it.index() ==> r@.contains_key(*(#[trigger] it.seq()[i]).0),
            forall|k: P::Id| #[trigger]
                r@.contains_key(k) ==> groups@.contains_key(k) && all_clones(
                    lookup_all(groups@[k]@, index@),
                    r@[k]@,
                ),
    {
        let (k, ids) = entry;
        let values = lookup_clones(ids, index);
        let key = clone_id(k);
        r.insert(key, values);
    }
    proof {
        let s = vstd::std_specs::hash::spec_hash_map_iter(groups).remaining();
        assert forall|k: P::Id| groups@.contains_key(k) implies r@.contains_key(k) by {
            assert(s.contains((&k, &groups@[k])));
            let i = choose|i: int| 0 <= i < s.len() && s[i] == (&k, &groups@[k]);
            assert(*s[i].0 == k);
        }
        assert(r@.dom() =~= groups@.dom());
    }
    r
}

/// `x` is a clone of some value held in `groups`.
pub open spec fn clone_of_some<K, V: Clone>(groups: Map<K, Vec<V>>, x: V) -> bool {
    exists|k: K, j: int|
        groups.contains_key(k) && 0 <= j < groups[k]@.len() && vstd::pervasive::cloned(
            #[trigger] groups[k]@[j],
            x,
        )
}

/// Some element of `r` is a clone of `x`.
pub open spec fn has_clone<V: Clone>(r: Seq<V>, x: V) -> bool {
    exists|i: int| 0 <= i < r.len() && vstd::pervasive::cloned(x, #[trigger] r[i])
}

/// Clones of all the values of all the groups, in one sequence. The order
/// follows the map's iteration order and is not specified.
pub fn flatten_groups<K, V: Clone>(groups: &HashMap<K, Vec<V>>) -> (r: Vec<V>)
    requires
        vstd::std_specs::hash::obeys_key_model::<K>(),
    ensures
        forall|i: int| 0 <= i < r@.len() ==> clone_of_some(groups@, #[trigger] r@[i]),
        forall|k: K, j: int|
            groups@.contains_key(k) && 0 <= j < groups@[k]@.len() ==> has_clone(
                r@,
                #[trigger] groups@[k]@[j],
            ),
{
    broadcast use vstd::std_specs::hash::group_hash_axioms;
    let mut r: Vec<V> = Vec::new();
    for entry in it: groups.iter()
        invariant
            vstd::std_specs::hash::obeys_key_model::<K>(),
            it.seq() == vstd::std_specs::hash::spec_hash_map_iter(groups).remaining(),
            forall|i: int| 0 <= i < r@.len() ==> clone_of_some(groups@, #[trigger] r@[i]),
            forall|i: int, j: int|
                0 <= i < it.index() && 0 <= j < (*it.seq()[i].1)@.len() ==> has_clone(
                    r@,
                    #[trigger] (*it.seq()[i].1)@[j],
                ),
    {
        let (k, vs) = entry;
        let ghost i0 = it.index();
        assert(groups@.contains_key(*k) && groups@[*k] == *vs);
        let ghost r0 = r@;
        let mut j: usize = 0;
        while j < vs.len()
            invariant
                vstd::std_specs::hash::obeys_key_model::<K>(),
                groups@.contains_key(*k) && groups@[*k] == *vs,
                j <= vs@.len(),
                r0.len() <= r@.len(),
                forall|t: int| 0 <= t < r0.len() ==> r@[t] == r0[t],
                forall|t: int| 0 <= t < r@.len() ==> clone_of_some(groups@, #[trigger] r@[t]),
                forall|t: int| 0 <= t < j ==> has_clone(r@, #[trigger] vs@[t]),
            decreases vs@.len() - j,
        {
            let c = vs[j].clone();
            let ghost before = r@;
            r.push(c);
            proof {
                let n = r@.len() - 1;
                assert(vstd::pervasive::cloned(groups@[*k]@[j as int], r@[n]));
                assert(has_clone(r@, vs@[j as int]));
                assert forall|t: int| 0 <= t < j implies has_clone(r@, #[trigger] vs@[t]) by {
                    let u = choose|u: int|
                        0 <= u < before.len() && vstd::pervasive::cloned(vs@[t], #[trigger] before[u]);
                    assert(r@[u] == before[u]);
                }
            }
            j = j + 1;
        }
        proof {
            assert forall|a: int, b: int|
                0 <= a < i0 && 0 <= b < (*it.seq()[a].1)@.len() implies has_clone(
                r@,
                #[trigger] (*it.seq()[a].1)@[b],
            ) by {
                let x = (*it.seq()[a].1)@[b];
                assert(has_clone(r0, x));
                let u = choose|u: int| 0 <= u < r0.len() && vstd::pervasive::cloned(x, #[trigger] r0[u]);
                assert(r@[u] == r0[u]);
            }
        }
    }
    proof {
        let s = vstd::std_specs::hash::spec_hash_map_iter(groups).remaining();
        assert forall|k: K, j: int|
            groups@.contains_key(k) && 0 <= j < groups@[k]@.len() implies has_clone(
            r@,
            #[trigger] groups@[k]@[j],
        ) by {
            assert(s.contains((&k, &groups@[k])));
            let i = choose|i: int| 0 <= i < s.len() && s[i] == (&k, &groups@[k]);
            assert((*s[i].1)@[j] == groups@[k]@[j]);
        }
    }
    r
}

/// `x` is held in some group of `groups`.
pub open spec fn in_some_group<K, V>(groups: Map<K, Vec<V>>, x: V) -> bool {
    exists|k: K| groups.contains_key(k) && (#[trigger] groups[k]@).contains(x)
}

/// All the identifiers of all the groups, in one sequence: each identifier
/// held in some group occurs, and nothing else. The order and the number of
/// repetitions are not specified.
pub fn flatten_ids<P: Meta, C: Meta>(groups: &HashMap<P::Id, Vec<C::Id>>) -> (r: Vec<C::Id>)
    requires
        vstd::std_specs::hash::obeys_key_model::<P::Id>(),
        clones_exactly::<C::Id>(),
    ensures
        forall|x: C::Id| r@.contains(x) <==> in_some_group(groups@, x),
{
    let r = flatten_groups(groups);
    proof {
        assert forall|x: C::Id| r@.contains(x) <==> in_some_group(groups@, x) by {
            if r@.contains(x) {
                let i = choose|i: int| 0 <= i < r@.len() && r@[i] == x;
                assert(clone_of_some(groups@, r@[i]));
                let (k, j) = choose|k: P::Id, j: int|
                    groups@.contains_key(k) && 0 <= j < groups@[k]@.len()
                        && vstd::pervasive::cloned(#[trigger] groups@[k]@[j], r@[i]);
                if vstd::pervasive::strictly_cloned(groups@[k]@[j], x) {
                    assert(groups@[k]@[j] == x);
                }
                assert(groups@[k]@[j] == x);
                assert(groups@[k]@.contains(x));
            }
            if in_some_group(groups@, x) {
                let k = choose|k: P::Id| groups@.contains_key(k) && (#[trigger] groups@[k]@).contains(x);
                let j = choose|j: int| 0 <= j < groups@[k]@.len() && groups@[k]@[j] == x;
                assert(has_clone(r@, groups@[k]@[j]));
                let i = choose|i: int| 0 <= i < r@.len() && vstd::pervasive::cloned(x, #[trigger] r@[i]);
                if vstd::pervasive::strictly_cloned(x, r@[i]) {
                    assert(x == r@[i]);
                }
                assert(r@[i] == x);
            }
        }
    }
    r
}

/// Replaces each record of each group by its identifier.
pub fn ids_groups<P: Meta, C: Meta>(groups: &HashMap<P::Id, Vec<C>>) -> (r: HashMap<
    P::Id,
    Vec<C::Id>,
>)
    requires
        vstd::std_specs::hash::obeys_key_model::<P::Id>(),
        clones_exactly::<P::Id>(),
    ensures
        r@.dom() == groups@.dom(),
        forall|k: P::Id| #[trigger] r@.contains_key(k) ==> r@[k]@ == ids_of(groups@[k]@),
{
    broadcast use vstd::std_specs::hash::group_hash_axioms;
    let mut r: HashMap<P::Id, Vec<C::Id>> = HashMap::new();
    for entry in it: groups.iter()
        invariant
            vstd::std_specs::hash::obeys_key_model::<P::Id>(),
            clones_exactly::<P::Id>(),
            it.seq() == vstd::std_specs::hash::spec_hash_map_iter(groups).remaining(),
            forall|i: int| 0 <= i < it.index() ==> r@.contains_key(*(#[trigger] it.seq()[i]).0),
            forall|k: P::Id| #[trigger]
                r@.contains_key(k) ==> groups@.contains_key(k) && r@[k]@ == ids_of(groups@[k]@),
    {
        let (k, children) = entry;
        let ids = as_ids(children.as_slice());
        let key = clone_id(k);
        r.insert(key, ids);
    }
    proof {
        let s = vstd::std_specs::hash::spec_hash_map_iter(groups).remaining();
        assert forall|k: P::Id| groups@.contains_key(k) implies r@.contains_key(k) by {
            assert(s.contains((&k, &groups@[k])));
            let i = choose|i: int| 0 <= i < s.len() && s[i] == (&k, &groups@[k]);
            assert(*s[i].0 == k);
        }
        assert(r@.dom() =~= groups@.dom());
    }
    r
}

/// Clones of the values that `index` holds for `ids`, in order.
pub fn lookup_clones<I: Eq + std::hash::Hash, V: Clone>(ids: &Vec<I>, index: &HashMap<I, V>) -> (r:
    Vec<V>)
    requires
        vstd::std_specs::hash::obeys_key_model::<I>(),
    ensures
        all_clones(lookup_all(ids@, index@), r@),
{
    broadcast use vstd::std_specs::hash::group_hash_axioms;
    let mut r: Vec<V> = Vec::new();
    let mut j: usize = 0;
    while j < ids.len()
        invariant
            vstd::std_specs::hash::obeys_key_model::<I>(),
            j <= ids@.len(),
            all_clones(lookup_all(ids@.take(j as int), index@), r@),
        decreases ids@.len() - j,
    {
        proof {
            assert(ids@.take(j + 1).drop_last() =~= ids@.take(j as int));
        }
        match index.get(&ids[j]) {
            Some(v) => {
                let c = v.clone();
                r.push(c);
            },
            None => {},
        }
        j = j + 1;
    }
    proof {
        assert(ids@.take(ids@.len() as int) =~= ids@);
    }
    r
}

} // verus!
