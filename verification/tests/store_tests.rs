use rocm_attr::store::{same_entries, Fragment, FragmentStore};

fn pair(a: &str, b: &str) -> (String, String) {
    (a.to_string(), b.to_string())
}

#[test]
fn new_store_is_empty() {
    let store = FragmentStore::new();
    assert_eq!(store.len(), 0);
    assert!(store.is_empty());
    assert_eq!(store.to_entries(), Vec::new());
}

#[test]
fn upsert_keeps_identifiers_ascending() {
    let mut store = FragmentStore::new();
    store.upsert("fn sub", "S");
    store.upsert("struct Bar", "B");
    store.upsert("fn add", "A");
    store.upsert("enum Qux", "Q");
    assert_eq!(
        store.to_entries(),
        vec![pair("enum Qux", "Q"), pair("fn add", "A"), pair("fn sub", "S"), pair("struct Bar", "B")]
    );
    assert_eq!(store.len(), 4);
    assert!(!store.is_empty());
}

#[test]
fn upsert_replaces_the_text_of_a_known_identifier() {
    let mut store = FragmentStore::new();
    store.upsert("fn add", "first");
    store.upsert("fn sub", "other");
    store.upsert("fn add", "second");
    assert_eq!(store.len(), 2);
    assert_eq!(store.get("fn add"), Some("second"));
    assert_eq!(store.get("fn sub"), Some("other"));
    assert_eq!(store.get("fn mul"), None);
    assert!(store.contains("fn add"));
    assert!(!store.contains("fn mul"));
}

#[test]
fn unknown_identifiers_collide() {
    let mut store = FragmentStore::new();
    store.upsert("unknown", "one");
    store.upsert("unknown", "two");
    assert_eq!(store.to_entries(), vec![pair("unknown", "two")]);
}

#[test]
fn order_does_not_depend_on_the_order_of_contribution() {
    let names = ["d", "a", "c", "b", "e", "ab", "", "B"];
    let mut forward = FragmentStore::new();
    for n in names {
        forward.upsert(n, n);
    }
    let mut backward = FragmentStore::new();
    for n in names.iter().rev() {
        backward.upsert(n, n);
    }
    let mut sorted: Vec<(String, String)> = names.iter().map(|n| pair(n, n)).collect();
    sorted.sort();
    assert_eq!(forward.to_entries(), sorted);
    assert_eq!(backward.to_entries(), sorted);
    assert!(forward.same_contents(&backward));
}

#[test]
fn many_fragments_stay_sorted_and_found() {
    let mut store = FragmentStore::new();
    let mut expected: Vec<(String, String)> = Vec::new();
    let mut seed: u32 = 7;
    for _ in 0..200 {
        seed = seed.wrapping_mul(1103515245).wrapping_add(12345);
        let id = format!("fn f{}", (seed >> 16) % 97);
        let text = format!("body {}", seed);
        store.upsert(&id, &text);
        expected.retain(|e| e.0 != id);
        expected.push((id, text));
    }
    expected.sort();
    assert_eq!(store.len(), expected.len());
    assert_eq!(store.to_entries(), expected);
    for (id, text) in &expected {
        assert_eq!(store.get(id), Some(text.as_str()));
        assert_eq!(store.locate(id).1, true);
    }
}

#[test]
fn locate_gives_the_place_where_an_identifier_belongs() {
    let mut store = FragmentStore::new();
    store.upsert("b", "1");
    store.upsert("d", "2");
    store.upsert("f", "3");
    assert_eq!(store.locate("a"), (0, false));
    assert_eq!(store.locate("b"), (0, true));
    assert_eq!(store.locate("c"), (1, false));
    assert_eq!(store.locate("d"), (1, true));
    assert_eq!(store.locate("e"), (2, false));
    assert_eq!(store.locate("f"), (2, true));
    assert_eq!(store.locate("g"), (3, false));
}

#[test]
fn fragment_gives_the_entries_in_order() {
    let mut store = FragmentStore::new();
    store.upsert("fn sub", "S");
    store.upsert("fn add", "A");
    assert_eq!(
        store.fragment(0),
        &Fragment { identifier: "fn add".to_string(), source_text: "A".to_string() }
    );
    assert_eq!(
        store.fragment(1),
        &Fragment { identifier: "fn sub".to_string(), source_text: "S".to_string() }
    );
}

#[test]
fn from_entries_lets_the_later_entry_win() {
    let entries = vec![pair("fn b", "1"), pair("fn a", "2"), pair("fn b", "3"), pair("fn a", "4")];
    let store = FragmentStore::from_entries(&entries);
    assert_eq!(store.to_entries(), vec![pair("fn a", "4"), pair("fn b", "3")]);
}

#[test]
fn from_entries_of_nothing_is_empty() {
    let store = FragmentStore::from_entries(&Vec::new());
    assert!(store.is_empty());
}

#[test]
fn same_contents_compares_identifiers_and_texts() {
    let a = FragmentStore::from_entries(&vec![pair("x", "1"), pair("y", "2")]);
    let b = FragmentStore::from_entries(&vec![pair("y", "2"), pair("x", "1")]);
    let c = FragmentStore::from_entries(&vec![pair("x", "1"), pair("y", "3")]);
    let d = FragmentStore::from_entries(&vec![pair("x", "1")]);
    let e = FragmentStore::from_entries(&vec![pair("x", "1"), pair("z", "2")]);
    assert!(a.same_contents(&b));
    assert!(!a.same_contents(&c));
    assert!(!a.same_contents(&d));
    assert!(!a.same_contents(&e));
    assert!(FragmentStore::new().same_contents(&FragmentStore::new()));
}

#[test]
fn same_entries_compares_place_by_place() {
    assert!(same_entries(&Vec::new(), &Vec::new()));
    assert!(same_entries(&vec![pair("a", "1")], &vec![pair("a", "1")]));
    assert!(!same_entries(&vec![pair("a", "1")], &vec![pair("a", "2")]));
    assert!(!same_entries(&vec![pair("a", "1")], &vec![pair("b", "1")]));
    assert!(!same_entries(&vec![pair("a", "1")], &Vec::new()));
    assert!(!same_entries(
        &vec![pair("a", "1"), pair("b", "2")],
        &vec![pair("b", "2"), pair("a", "1")]
    ));
}

#[test]
fn two_contributions_under_different_identifiers_are_both_kept() {
    let mut first = FragmentStore::new();
    first.upsert("x", "from a");
    first.upsert("y", "from b");
    let mut second = FragmentStore::new();
    second.upsert("y", "from b");
    second.upsert("x", "from a");
    assert!(first.same_contents(&second));
    assert_eq!(first.get("x"), Some("from a"));
    assert_eq!(first.get("y"), Some("from b"));
}
