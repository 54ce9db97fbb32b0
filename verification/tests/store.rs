use retrvid::failure::Failure;
use retrvid::store::Store;

fn s(text: &str) -> String {
    text.to_string()
}

fn pair(name: &str, id: &str) -> (String, String) {
    (s(name), s(id))
}

#[test]
fn new_store_is_empty() {
    let store = Store::new();
    assert!(store.is_empty());
    assert_eq!(store.len(), 0);
    assert_eq!(store.list(), None);
    assert_eq!(store.get("work"), None);
    assert!(store.entries().is_empty());
}

#[test]
fn insert_of_a_new_name_puts_it_where_it_belongs() {
    let mut store = Store::new();
    assert_eq!(store.insert(s("work"), s("12345")), Ok(None));
    assert_eq!(store.insert(s("home"), s("67890")), Ok(None));
    assert_eq!(store.len(), 2);
    assert!(!store.is_empty());
    assert_eq!(store.entries(), &vec![pair("home", "67890"), pair("work", "12345")]);
    assert_eq!(store.insert(s("mail"), s("m")), Ok(None));
    assert_eq!(store.insert(s("a"), s("")), Ok(None));
    assert_eq!(store.insert(s("zz"), s("z")), Ok(None));
    assert_eq!(
        store.entries(),
        &vec![
            pair("a", ""),
            pair("home", "67890"),
            pair("mail", "m"),
            pair("work", "12345"),
            pair("zz", "z"),
        ]
    );
}

#[test]
fn insert_of_a_known_name_overwrites_in_place() {
    let mut store = Store::new();
    store.insert(s("a"), s("1")).unwrap();
    store.insert(s("b"), s("2")).unwrap();
    store.insert(s("c"), s("3")).unwrap();
    assert_eq!(store.insert(s("b"), s("two")), Ok(Some(s("2"))));
    assert_eq!(store.len(), 3);
    assert_eq!(store.entries(), &vec![pair("a", "1"), pair("b", "two"), pair("c", "3")]);
    assert_eq!(store.get("b"), Some(&s("two")));
}

#[test]
fn adding_the_same_pair_twice_leaves_one_entry() {
    let mut store = Store::new();
    store.insert(s("work"), s("12345")).unwrap();
    let once = store.entries().clone();
    assert_eq!(store.insert(s("work"), s("12345")), Ok(Some(s("12345"))));
    assert_eq!(store.entries(), &once);
    assert_eq!(store.len(), 1);
    let named: Vec<&(String, String)> =
        store.entries().iter().filter(|entry| entry.0 == "work").collect();
    assert_eq!(named.len(), 1);
    assert_eq!(store.get("work"), Some(&s("12345")));
}

#[test]
fn the_most_recent_add_wins() {
    let mut store = Store::new();
    store.insert(s("work"), s("old")).unwrap();
    store.insert(s("work"), s("new")).unwrap();
    assert_eq!(store.len(), 1);
    assert_eq!(store.get("work"), Some(&s("new")));
}

#[test]
fn lookup_after_add_returns_the_id() {
    let mut store = Store::new();
    store.insert(s("other"), s("x")).unwrap();
    store.insert(s("token"), s("s3cr3t value!")).unwrap();
    assert_eq!(store.get("token"), Some(&s("s3cr3t value!")));
    assert_eq!(store.get("other"), Some(&s("x")));
    assert_eq!(store.get("Token"), None);
}

#[test]
fn an_id_may_be_empty() {
    let mut store = Store::new();
    store.insert(s("blank"), s("")).unwrap();
    assert_eq!(store.get("blank"), Some(&s("")));
    assert_eq!(store.len(), 1);
}

#[test]
fn remove_takes_the_entry_and_keeps_the_order_of_the_rest() {
    let mut store = Store::new();
    store.insert(s("a"), s("1")).unwrap();
    store.insert(s("b"), s("2")).unwrap();
    store.insert(s("c"), s("3")).unwrap();
    assert_eq!(store.remove("b"), Some(s("2")));
    assert_eq!(store.entries(), &vec![pair("a", "1"), pair("c", "3")]);
    assert_eq!(store.get("b"), None);
    assert_eq!(store.remove("a"), Some(s("1")));
    assert_eq!(store.remove("c"), Some(s("3")));
    assert!(store.is_empty());
}

#[test]
fn remove_of_an_absent_name_changes_nothing() {
    let mut store = Store::new();
    store.insert(s("work"), s("12345")).unwrap();
    let before = store.entries().clone();
    assert_eq!(store.remove("home"), None);
    assert_eq!(store.entries(), &before);
    let mut empty = Store::new();
    assert_eq!(empty.remove("home"), None);
    assert!(empty.is_empty());
}

#[test]
fn list_gives_the_names_in_their_order() {
    let mut store = Store::new();
    store.insert(s("zeta"), s("1")).unwrap();
    store.insert(s("alpha"), s("2")).unwrap();
    store.insert(s("zeta"), s("3")).unwrap();
    store.insert(s("Zeta"), s("4")).unwrap();
    store.insert(s("alp"), s("5")).unwrap();
    store.insert(s("älter"), s("6")).unwrap();
    store.insert(s("alpha beta"), s("7")).unwrap();
    assert_eq!(
        store.list(),
        Some(vec![s("Zeta"), s("alp"), s("alpha"), s("alpha beta"), s("zeta"), s("älter")])
    );
}

#[test]
fn the_order_of_adding_has_no_part_in_the_entries() {
    let names = ["m", "a", "z", "ab", "b", "aa", "y"];
    let mut forward = Store::new();
    for name in names.iter() {
        forward.insert(s(name), s("id")).unwrap();
    }
    let mut backward = Store::new();
    for name in names.iter().rev() {
        backward.insert(s(name), s("id")).unwrap();
    }
    assert_eq!(forward.entries(), backward.entries());
    assert_eq!(forward.list(), backward.list());
    let mut sorted = forward.list().unwrap();
    sorted.sort();
    assert_eq!(Some(sorted), forward.list());
}

#[test]
fn list_of_a_store_emptied_again_is_none() {
    let mut store = Store::new();
    store.insert(s("a"), s("1")).unwrap();
    store.remove("a");
    assert_eq!(store.list(), None);
}

#[test]
fn stores_are_equal_where_they_map_alike() {
    let mut one = Store::new();
    one.insert(s("a"), s("1")).unwrap();
    one.insert(s("b"), s("2")).unwrap();
    let mut other = Store::new();
    other.insert(s("b"), s("2")).unwrap();
    other.insert(s("a"), s("1")).unwrap();
    assert_eq!(one, other);
    assert_eq!(one.entries(), other.entries());

    other.insert(s("a"), s("one")).unwrap();
    assert_ne!(one, other);
    other.insert(s("a"), s("1")).unwrap();
    other.insert(s("c"), s("3")).unwrap();
    assert_ne!(one, other);
    one.insert(s("d"), s("3")).unwrap();
    assert_ne!(one, other);
    assert_eq!(Store::new(), Store::default());
    assert_ne!(one, Store::new());
}

#[test]
fn a_clone_holds_the_same_entries_in_the_same_order() {
    let mut store = Store::new();
    store.insert(s("z"), s("26")).unwrap();
    store.insert(s("a"), s("1")).unwrap();
    let copy = store.clone();
    assert_eq!(copy.entries(), store.entries());
    assert_eq!(copy, store);
    store.remove("z");
    assert_eq!(copy.len(), 2);
}

#[test]
fn the_default_store_is_empty() {
    assert!(Store::default().is_empty());
}

#[test]
fn an_empty_name_is_refused() {
    let mut store = Store::new();
    store.insert(s("work"), s("12345")).unwrap();
    let before = store.entries().clone();
    assert_eq!(store.insert(s(""), s("x")), Err(Failure::NameEmpty));
    assert_eq!(store.insert(String::new(), String::new()), Err(Failure::NameEmpty));
    assert_eq!(store.entries(), &before);
    assert_eq!(store.get(""), None);
    assert_eq!(store.remove(""), None);
    assert_eq!(store.insert(s(" "), s("x")), Ok(None));
}

#[test]
fn no_name_of_a_store_is_empty() {
    let mut store = Store::new();
    store.insert(s("a"), s("")).unwrap();
    let _ = store.insert(s(""), s("b"));
    store.insert(s("c"), s("d")).unwrap();
    assert!(store.entries().iter().all(|entry| !entry.0.is_empty()));
    assert_eq!(store.len(), 2);
}
