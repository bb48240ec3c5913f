use okra::boxchecker::StoreFailure;
use okra::value_store::{among, ValueStore};

fn buffer(n: usize) -> Vec<(i64, String)> {
    vec![(0, "".to_string()); n]
}

fn store_of(texts: &[&str]) -> ValueStore {
    let mut store = ValueStore::new();
    for t in texts {
        store.create(t).unwrap();
    }
    store
}

fn row(id: i64, text: &str) -> (i64, String) {
    (id, text.to_string())
}

#[test]
fn identities_start_at_one_and_ascend() {
    let mut store = ValueStore::new();
    assert_eq!(store.len(), 0);
    assert_eq!(store.create("run").unwrap(), 1);
    assert_eq!(store.create("walk").unwrap(), 2);
    assert_eq!(store.create("").unwrap(), 3);
    assert_eq!(store.len(), 3);
}

#[test]
fn interning_twice_gives_the_same_identity() {
    let mut store = ValueStore::new();
    let first = store.create("run").unwrap();
    store.create("walk").unwrap();
    let second = store.create("run").unwrap();
    assert_eq!(first, second);
    assert_eq!(store.len(), 2);
    assert_eq!(store.create("swim").unwrap(), 3);
    assert_eq!(store.create("Run").unwrap(), 4);
}

#[test]
fn gets_back_what_was_interned() {
    let mut store = ValueStore::new();
    for text in ["run", "", "felt great", "ñandú", "a b  c"] {
        let id = store.create(text).unwrap();
        assert_eq!(store.get(id).unwrap(), text);
    }
    assert_eq!(store.get(1).unwrap(), "run");
}

#[test]
fn a_missing_identity_is_not_found() {
    let store = store_of(&["run"]);
    for id in [0, 2, -1, i64::MAX, i64::MIN] {
        let e = store.get(id).unwrap_err();
        assert_eq!(e.kind, StoreFailure::NotFound);
        assert_eq!(e.msg, "not found");
    }
}

#[test]
fn searches_by_part_in_ascending_order() {
    let store = store_of(&["unit testing", "linting", "testing units", "rest"]);
    let mut dest = buffer(5);
    assert_eq!(store.search_page("test", 0, &mut dest), 2);
    assert_eq!(dest[0], row(1, "unit testing"));
    assert_eq!(dest[1], row(3, "testing units"));
    assert_eq!(dest[2], row(0, ""));
    assert_eq!(store.search_page("ting", 0, &mut dest), 3);
    assert_eq!(dest[2], row(3, "testing units"));
    assert_eq!(store.search_page("nothing", 0, &mut dest), 0);
    assert_eq!(store.search_page("TEST", 0, &mut dest), 0);
}

#[test]
fn the_empty_part_finds_every_row() {
    let store = store_of(&["a", "b", "c"]);
    let mut dest = buffer(4);
    assert_eq!(store.search_page("", 0, &mut dest), 3);
    assert_eq!(dest, vec![row(1, "a"), row(2, "b"), row(3, "c"), row(0, "")]);
}

#[test]
fn a_search_starts_behind_the_cursor() {
    let store = store_of(&["a1", "a2", "a3", "a4"]);
    let mut dest = buffer(4);
    assert_eq!(store.search_page("a", 2, &mut dest), 2);
    assert_eq!(dest[0], row(3, "a3"));
    assert_eq!(dest[1], row(4, "a4"));
    assert_eq!(store.search_page("a", 4, &mut dest), 0);
    assert_eq!(store.search_page("a", i64::MAX, &mut dest), 0);
    assert_eq!(store.search_page("a", -7, &mut dest), 4);
}

#[test]
fn a_page_is_no_longer_than_the_buffer() {
    let store = store_of(&["a1", "a2", "a3"]);
    let mut dest = buffer(2);
    assert_eq!(store.search_page("a", 0, &mut dest), 2);
    assert_eq!(dest, vec![row(1, "a1"), row(2, "a2")]);
    let mut none = buffer(0);
    assert_eq!(store.search_page("a", 0, &mut none), 0);
}

#[test]
fn what_is_not_written_stays() {
    let store = store_of(&["a1", "b", "a3"]);
    let mut dest = vec![row(9, "x"), row(8, "y"), row(7, "z")];
    assert_eq!(store.search_page("b", 0, &mut dest), 1);
    assert_eq!(dest, vec![row(2, "b"), row(8, "y"), row(7, "z")]);
}

#[test]
fn pages_put_together_are_the_whole_result() {
    let texts: Vec<String> = (0..23)
        .map(|i| if i % 3 == 0 { format!("skip {}", i) } else { format!("take {}", i) })
        .collect();
    let mut store = ValueStore::new();
    for t in &texts {
        store.create(t).unwrap();
    }
    let mut whole = buffer(30);
    let total = store.search_page("take", 0, &mut whole);
    whole.truncate(total);
    assert_eq!(total, 15);
    for n in [1usize, 2, 4, 15, 16] {
        let mut joined: Vec<(i64, String)> = Vec::new();
        let mut after = 0;
        let mut calls = 0;
        loop {
            let mut dest = buffer(n);
            let count = store.search_page("take", after, &mut dest);
            dest.truncate(count);
            calls += 1;
            if let Some(last) = dest.last() {
                after = last.0;
            }
            joined.extend(dest);
            if count < n {
                break;
            }
            assert!(calls <= 16);
        }
        assert_eq!(joined, whole);
        assert!(joined.windows(2).all(|w| w[0].0 < w[1].0));
    }
}

#[test]
fn looks_up_many_identities_at_once() {
    let store = store_of(&["a", "b", "c", "d"]);
    let mut dest = buffer(4);
    assert_eq!(store.get_bulk(&vec![3, 1], &mut dest), 2);
    assert_eq!(dest[0], row(1, "a"));
    assert_eq!(dest[1], row(3, "c"));
    assert_eq!(dest[2], row(0, ""));
}

#[test]
fn identities_that_are_not_there_are_passed_over() {
    let store = store_of(&["a", "b"]);
    let mut dest = buffer(3);
    assert_eq!(store.get_bulk(&vec![7, 2, 0, -1], &mut dest), 1);
    assert_eq!(dest[0], row(2, "b"));
    assert_eq!(store.get_bulk(&vec![], &mut dest), 0);
    assert_eq!(store.get_bulk(&vec![5, 6], &mut dest), 0);
}

#[test]
fn an_identity_asked_for_twice_is_given_once() {
    let store = store_of(&["a", "b"]);
    let mut dest = buffer(3);
    assert_eq!(store.get_bulk(&vec![2, 2, 2], &mut dest), 1);
    assert_eq!(dest[0], row(2, "b"));
    assert_eq!(dest[1], row(0, ""));
}

#[test]
fn a_bulk_lookup_is_no_longer_than_the_buffer() {
    let store = store_of(&["a", "b", "c"]);
    let mut dest = buffer(2);
    assert_eq!(store.get_bulk(&vec![1, 2, 3], &mut dest), 2);
    assert_eq!(dest, vec![row(1, "a"), row(2, "b")]);
}

#[test]
fn tells_whether_an_identity_is_among_others() {
    assert!(among(&vec![3, 1, 2], 1));
    assert!(!among(&vec![3, 1, 2], 4));
    assert!(!among(&vec![], 0));
}

#[test]
fn rows_are_put_back_under_their_identities() {
    let mut store = ValueStore::new();
    store.put(2, "run").unwrap();
    store.put(5, "walk").unwrap();
    assert_eq!(store.get(2).unwrap(), "run");
    assert_eq!(store.get(5).unwrap(), "walk");
    assert_eq!(store.get(1).unwrap_err().kind, StoreFailure::NotFound);
    assert_eq!(store.create("swim").unwrap(), 6);
    assert_eq!(store.create("run").unwrap(), 2);
}

#[test]
fn a_row_that_repeats_an_identity_or_a_text_is_refused() {
    let mut store = ValueStore::new();
    store.put(3, "run").unwrap();
    for (id, text) in [(3, "walk"), (2, "walk"), (0, "walk"), (-4, "walk"), (4, "run")] {
        let e = store.put(id, text).unwrap_err();
        assert_eq!(e.kind, StoreFailure::DuplicateKey);
        assert_eq!(e.msg, "duplicate key");
    }
    assert_eq!(store.len(), 1);
    assert!(ValueStore::new().put(0, "zero").is_err());
    assert!(ValueStore::new().put(1, "one").is_ok());
}

#[test]
fn a_store_whose_identities_are_used_up_takes_no_new_text() {
    let mut store = ValueStore::new();
    store.put(i64::MAX, "last").unwrap();
    let e = store.create("one more").unwrap_err();
    assert_eq!(e.kind, StoreFailure::StorageUnavailable);
    assert_eq!(e.msg, "storage unavailable");
    assert_eq!(store.len(), 1);
    assert_eq!(store.create("last").unwrap(), i64::MAX);
}
