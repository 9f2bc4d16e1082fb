use crud_traits::{hash_map_by_id, Meta};

#[derive(Debug, Clone, Eq, PartialEq)]
struct Person {
    id: i32,
    name: String,
}

impl Meta for Person {
    type Id = i32;
    type Store = ();
    type Error = ();

    fn id(&self) -> Self::Id {
        self.id
    }
}

#[test]
fn meta_hash_by_id() {
    let person1 = Person {
        id: 1,
        name: "Person 1".into(),
    };
    let person2 = Person {
        id: 2,
        name: "Person 2".into(),
    };

    let people = vec![person1.clone(), person2.clone()];

    let hash = hash_map_by_id(people);

    assert_eq!(hash.get(&1), Some(&person1));
    assert_eq!(hash.get(&2), Some(&person2));
    assert_eq!(hash.get(&3), None);
}

#[test]
fn hash_by_id_last_record_wins() {
    let first = Person {
        id: 4,
        name: "first".into(),
    };
    let second = Person {
        id: 4,
        name: "second".into(),
    };
    let hash = hash_map_by_id(vec![first, second.clone()]);
    assert_eq!(hash.len(), 1);
    assert_eq!(hash.get(&4), Some(&second));
}

#[test]
fn replace_on_success_keeps_record_on_failure() {
    let mut person = Person {
        id: 1,
        name: "old".into(),
    };
    let fresh = Person {
        id: 1,
        name: "new".into(),
    };
    let failed: Result<(), &str> =
        crud_traits::meta::replace_on_success(&mut person, Err("store down"));
    assert_eq!(failed, Err("store down"));
    assert_eq!(person.name, "old");

    let done: Result<(), &str> = crud_traits::meta::replace_on_success(&mut person, Ok(fresh.clone()));
    assert_eq!(done, Ok(()));
    assert_eq!(person, fresh);
}
