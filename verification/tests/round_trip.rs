use opennic_search::error::SubmitError;
use opennic_search::queue::{add_url, create_db, get_urls};
use opennic_search::store::SubmissionStore;

#[test]
fn round_trip_through_the_queue() {
    let mut store = SubmissionStore::new();
    create_db(&mut store);
    let first = add_url(&mut store, "http://Example.com:80/a", 0x0A000001, Some(0), 1_700_000_000);
    assert_eq!(first, Ok("http://example.com".to_string()));
    let second = add_url(&mut store, "http://example.com/b", 0x0A000002, Some(0), 1_700_000_000);
    assert_eq!(second, Err(SubmitError::DuplicateUrl));
    assert_eq!(get_urls(&mut store), vec!["http://example.com".to_string()]);
    assert_eq!(get_urls(&mut store), Vec::<String>::new());
}

#[test]
fn create_db_is_idempotent() {
    let mut store = SubmissionStore::new();
    assert!(!store.is_provisioned());
    create_db(&mut store);
    assert!(store.is_provisioned());
    add_url(&mut store, "https://a.example/", 1, None, 10).unwrap();
    create_db(&mut store);
    assert!(store.is_provisioned());
    assert_eq!(store.len(), 1);
    assert_eq!(store.next_id(), 2);
}

#[test]
fn first_use_makes_the_table() {
    let mut store = SubmissionStore::new();
    assert_eq!(add_url(&mut store, "https://a.example/", 1, None, 10), Ok("https://a.example".to_string()));
    assert!(store.is_provisioned());

    let mut other = SubmissionStore::new();
    assert_eq!(get_urls(&mut other), Vec::<String>::new());
    assert!(other.is_provisioned());
}

#[test]
fn missing_window_means_no_limit() {
    let mut store = SubmissionStore::new();
    assert!(add_url(&mut store, "https://a.example/", 7, None, 100).is_ok());
    assert!(add_url(&mut store, "https://b.example/", 7, None, 100).is_ok());
    assert!(add_url(&mut store, "https://c.example/", 7, Some(0), 100).is_ok());
    assert_eq!(store.len(), 3);
}

#[test]
fn drain_of_empty_store_is_empty() {
    let mut store = SubmissionStore::new();
    create_db(&mut store);
    assert_eq!(get_urls(&mut store), Vec::<String>::new());
    assert_eq!(store.len(), 0);
    assert_eq!(get_urls(&mut store), Vec::<String>::new());
}

#[test]
fn drain_answers_oldest_first_and_empties() {
    let mut store = SubmissionStore::new();
    add_url(&mut store, "https://c.example/x", 1, None, 5).unwrap();
    add_url(&mut store, "https://a.example/y", 2, None, 6).unwrap();
    add_url(&mut store, "http://b.example:8080/z", 3, None, 7).unwrap();
    assert_eq!(
        store.drain(),
        vec![
            "https://c.example".to_string(),
            "https://a.example".to_string(),
            "http://b.example:8080".to_string()
        ]
    );
    assert_eq!(store.len(), 0);
    assert_eq!(store.drain(), Vec::<String>::new());
}

#[test]
fn drained_origin_can_be_queued_again_under_a_new_id() {
    let mut store = SubmissionStore::new();
    add_url(&mut store, "https://a.example/", 1, None, 5).unwrap();
    let before = store.list_all();
    assert_eq!(before[0].id, 1);
    store.drain();
    add_url(&mut store, "https://a.example/", 1, None, 6).unwrap();
    let after = store.list_all();
    assert_eq!(after.len(), 1);
    assert_eq!(after[0].id, 2);
    assert_eq!(store.next_id(), 3);
}
