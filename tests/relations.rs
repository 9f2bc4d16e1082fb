use crud_traits::belongs_to::{group_by_parent_id, parent_ids, parents_for_many};
use crud_traits::grouping::{flatten_groups, take_group};
use crud_traits::mapped_model::regroup_mapped;
use crud_traits::{
    BelongsTo, HasMany, HasManyAndBelongsTo, HasManyThrough, HasOne, MappedModel,
    MappedModelWithParentId, Meta, NotFound,
};
use std::collections::HashMap;

#[derive(Debug, Clone, PartialEq, Eq)]
struct Person {
    id: i32,
}

impl Meta for Person {
    type Id = i32;
    type Store = ();
    type Error = String;

    fn id(&self) -> i32 {
        self.id
    }
}

#[derive(Debug, Clone, PartialEq, Eq)]
struct Dog {
    id: i32,
    person_id: i32,
}

impl Meta for Dog {
    type Id = i32;
    type Store = ();
    type Error = String;

    fn id(&self) -> i32 {
        self.id
    }
}

impl BelongsTo<Person> for Dog {
    fn parent_id(&self) -> i32 {
        self.person_id
    }
}

impl HasMany<Dog> for Person {}

#[derive(Debug, Clone, PartialEq, Eq)]
struct Bed {
    id: i32,
    dog_id: i32,
}

impl Meta for Bed {
    type Id = i32;
    type Store = ();
    type Error = String;

    fn id(&self) -> i32 {
        self.id
    }
}

impl BelongsTo<Dog> for Bed {
    fn parent_id(&self) -> i32 {
        self.dog_id
    }
}

impl HasOne<Bed> for Dog {}

#[derive(Debug, Clone, PartialEq, Eq)]
struct MappedDog {
    dog: Dog,
}

impl MappedModel for MappedDog {
    type OriginalModel = Dog;
    type Error = String;

    fn id(&self) -> i32 {
        self.dog.id
    }
}

impl MappedModelWithParentId<Person> for MappedDog {
    fn parent_id(&self) -> i32 {
        self.dog.person_id
    }
}

#[derive(Debug, Clone, PartialEq, Eq)]
struct Tag {
    id: i32,
}

impl Meta for Tag {
    type Id = i32;
    type Store = ();
    type Error = String;

    fn id(&self) -> i32 {
        self.id
    }
}

#[derive(Debug, Clone, PartialEq, Eq)]
struct Post {
    id: i32,
}

impl Meta for Post {
    type Id = i32;
    type Store = ();
    type Error = String;

    fn id(&self) -> i32 {
        self.id
    }
}

impl HasManyAndBelongsTo<Tag> for Post {}

impl HasManyThrough<Tag> for Post {}

fn dog(id: i32, person_id: i32) -> Dog {
    Dog { id, person_id }
}

fn dogs() -> Vec<Dog> {
    vec![dog(10, 1), dog(11, 1), dog(12, 2)]
}

fn ids_of<T: Meta<Id = i32>>(values: &[T]) -> Vec<i32> {
    values.iter().map(|v| v.id()).collect()
}

#[test]
fn groups_children_by_parent() {
    let groups = group_by_parent_id::<Person, Dog>(dogs());
    assert_eq!(groups.len(), 2);
    assert_eq!(ids_of(&groups[&1]), vec![10, 11]);
    assert_eq!(ids_of(&groups[&2]), vec![12]);
}

#[test]
fn parent_without_children_has_no_group() {
    let groups = group_by_parent_id::<Person, Dog>(dogs());
    assert!(!groups.contains_key(&3));
    let person3 = Person { id: 3 };
    assert!(person3.children_from(groups).is_empty());
}

#[test]
fn grouping_nothing_gives_no_groups() {
    let groups = group_by_parent_id::<Person, Dog>(Vec::new());
    assert!(groups.is_empty());
}

#[test]
fn children_of_parent_match_batch_entry() {
    let person1 = Person { id: 1 };
    let batch = group_by_parent_id::<Person, Dog>(dogs());
    let expected = batch[&1].clone();
    let single = group_by_parent_id::<Person, Dog>(vec![dog(10, 1), dog(11, 1)]);
    assert_eq!(person1.children_from(single), expected);
    assert_eq!(take_group(batch, &1), expected);
}

#[test]
fn take_group_defaults_to_empty() {
    let mut groups: HashMap<i32, Vec<i32>> = HashMap::new();
    groups.insert(1, vec![4, 5]);
    assert_eq!(take_group(groups.clone(), &1), vec![4, 5]);
    assert_eq!(take_group(groups, &2), Vec::<i32>::new());
}

#[test]
fn parent_ids_in_order() {
    assert_eq!(parent_ids::<Person, Dog>(&dogs()), vec![1, 1, 2]);
}

#[test]
fn parents_matched_to_children() {
    let person1 = Person { id: 1 };
    let person2 = Person { id: 2 };
    let found = parents_for_many::<Person, Dog>(&dogs(), vec![person1.clone(), person2.clone()]);
    assert_eq!(found.len(), 3);
    assert_eq!(found[&10], person1);
    assert_eq!(found[&11], person1);
    assert_eq!(found[&12], person2);
}

#[test]
fn dangling_parent_is_left_out() {
    let children = vec![dog(10, 1), dog(13, 9)];
    let found = parents_for_many::<Person, Dog>(&children, vec![Person { id: 1 }]);
    assert_eq!(found.len(), 1);
    assert_eq!(found[&10], Person { id: 1 });
    assert!(!found.contains_key(&13));
}

#[test]
fn has_one_child_found() {
    let bed = Bed { id: 100, dog_id: 10 };
    let groups = group_by_parent_id::<Dog, Bed>(vec![bed.clone()]);
    let dog10 = dog(10, 1);
    let beds = take_group(groups, &dog10.id());
    assert_eq!(<Dog as HasOne<Bed>>::child_from(beds), Ok(bed));
}

#[test]
fn has_one_without_child_is_not_found() {
    let groups = group_by_parent_id::<Dog, Bed>(vec![Bed { id: 100, dog_id: 10 }]);
    let beds = take_group(groups, &11);
    assert_eq!(<Dog as HasOne<Bed>>::child_from(beds), Err(NotFound));
}

#[test]
fn has_one_with_two_children_returns_first() {
    let first = Bed { id: 100, dog_id: 10 };
    let second = Bed { id: 101, dog_id: 10 };
    let result = <Dog as HasOne<Bed>>::child_from(vec![first.clone(), second]);
    assert_eq!(result, Ok(first));
}

#[test]
fn mapped_record_delegates_identity() {
    let mapped = MappedDog { dog: dog(10, 1) };
    assert_eq!(Meta::id(&mapped), 10);
    assert_eq!(<MappedDog as BelongsTo<Person>>::parent_id(&mapped), 1);
}

#[test]
fn mapped_groups_follow_original_groups() {
    let groups = group_by_parent_id::<Person, Dog>(dogs());
    let originals = flatten_groups(&groups);
    assert_eq!(originals.len(), 3);
    let mapped: Vec<MappedDog> = originals.into_iter().map(|dog| MappedDog { dog }).collect();
    let regrouped = regroup_mapped::<Person, MappedDog>(&groups, mapped);
    assert_eq!(regrouped.len(), 2);
    assert_eq!(ids_of(&regrouped[&1]), vec![10, 11]);
    assert_eq!(ids_of(&regrouped[&2]), vec![12]);
    assert_eq!(regrouped[&1][0].dog, dog(10, 1));
}

#[test]
fn mapped_groups_drop_unmapped_originals() {
    let groups = group_by_parent_id::<Person, Dog>(dogs());
    let mapped = vec![MappedDog { dog: dog(12, 2) }];
    let regrouped = regroup_mapped::<Person, MappedDog>(&groups, mapped);
    assert_eq!(regrouped.len(), 2);
    assert!(regrouped[&1].is_empty());
    assert_eq!(ids_of(&regrouped[&2]), vec![12]);
}

fn join_listing() -> HashMap<i32, Vec<i32>> {
    let mut groups = HashMap::new();
    groups.insert(1, vec![100, 101]);
    groups.insert(2, vec![101, 999]);
    groups
}

#[test]
fn join_ids_collected_once_per_listing() {
    let groups = join_listing();
    let mut all = <Post as HasManyAndBelongsTo<Tag>>::all_ids(&groups);
    all.sort();
    assert_eq!(all, vec![100, 101, 101, 999]);
    let mut through = <Post as HasManyThrough<Tag>>::all_ids(&groups);
    through.sort();
    assert_eq!(through, vec![100, 101, 101, 999]);
}

#[test]
fn join_resolved_per_parent() {
    let groups = join_listing();
    let records = vec![Post { id: 100 }, Post { id: 101 }];
    let by_tag = <Post as HasManyAndBelongsTo<Tag>>::for_parent_ids_from(&groups, records);
    assert_eq!(by_tag.len(), 2);
    assert_eq!(ids_of(&by_tag[&1]), vec![100, 101]);
    assert_eq!(ids_of(&by_tag[&2]), vec![101]);
}

#[test]
fn join_ids_for_one_parent() {
    let ids = <Post as HasManyAndBelongsTo<Tag>>::ids_for_parent_id_from(join_listing(), &2);
    assert_eq!(ids, vec![101, 999]);
    let none = <Post as HasManyAndBelongsTo<Tag>>::ids_for_parent_id_from(join_listing(), &3);
    assert!(none.is_empty());
}

#[test]
fn through_relation_resolved() {
    let groups = join_listing();
    let records = vec![Post { id: 101 }];
    let by_tag = <Post as HasManyThrough<Tag>>::for_relations_from(&groups, records);
    assert_eq!(ids_of(&by_tag[&1]), vec![101]);
    assert_eq!(ids_of(&by_tag[&2]), vec![101]);
    let one = <Post as HasManyThrough<Tag>>::for_relation_from(by_tag, &1);
    assert_eq!(one, vec![Post { id: 101 }]);
    let ids = <Post as HasManyThrough<Tag>>::ids_for_relation_from(join_listing(), &1);
    assert_eq!(ids, vec![100, 101]);
}
