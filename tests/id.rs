use crud_traits::id::{distinct_ids, hash_map_by_id};
use crud_traits::{HasParentsWithManyChildren, HasParentsWithOneChild, Id};

#[derive(Debug, Clone, Eq, PartialEq)]
struct Person {
    id: i32,
    name: String,
}

impl Id for Person {
    type Id = i32;

    fn id(&self) -> Self::Id {
        self.id
    }
}

#[test]
fn id_hash_by_id() {
    let person1 = Person {
        id: 1,
        name: "Person 1".into(),
    };
    let person2 = Person {
        id: 2,
        name: "Person 2".into(),
    };

    let people = vec![person1.clone(), person2.clone()];

    let hash = hash_map_by_id(people);

    assert_eq!(hash.get(&1), Some(&person1));
    assert_eq!(hash.get(&2), Some(&person2));
    assert_eq!(hash.get(&3), None);
}

#[test]
fn distinct_ids_keeps_first_occurrences() {
    assert_eq!(distinct_ids::<Person>(vec![3, 1, 3, 2, 1]), vec![3, 1, 2]);
    assert!(distinct_ids::<Person>(Vec::new()).is_empty());
}

#[test]
fn child_ids_for_parents_with_many_children() {
    let lists = vec![vec![10, 11], vec![], vec![11, 12, 10]];
    let ids = <Person as HasParentsWithManyChildren<()>>::child_ids_for_parents(lists);
    assert_eq!(ids, vec![10, 11, 12]);
}

#[test]
fn child_ids_for_parents_with_one_child() {
    let ids = <Person as HasParentsWithOneChild<()>>::child_ids_for_parents(vec![5, 5, 6]);
    assert_eq!(ids, vec![5, 6]);
}
