use opennic_search::error::{RateLimitExceeded, SubmitError};
use opennic_search::limiter::rate_limit;
use opennic_search::origin::{normalize, MAX_URL_BYTES};
use opennic_search::store::{Submission, SubmissionStore};

fn limited(wait_time: u64) -> SubmitError {
    SubmitError::RateLimited(RateLimitExceeded { wait_time })
}

#[test]
fn normalize_drops_path_query_and_fragment() {
    let expected = Ok("https://example.org".to_string());
    assert_eq!(normalize("https://example.org"), expected);
    assert_eq!(normalize("https://example.org/"), expected);
    assert_eq!(normalize("https://example.org/a/b/c"), expected);
    assert_eq!(normalize("https://example.org/a?x=1&y=2"), expected);
    assert_eq!(normalize("https://example.org/a?x=1#frag"), expected);
    assert_eq!(normalize("https://example.org#frag"), expected);
}

#[test]
fn normalize_lowercases_and_drops_default_ports() {
    assert_eq!(normalize("HTTP://Example.COM:80/a"), Ok("http://example.com".to_string()));
    assert_eq!(normalize("https://Example.com:443/"), Ok("https://example.com".to_string()));
    assert_eq!(normalize("http://example.com:8080/a"), Ok("http://example.com:8080".to_string()));
    assert_eq!(normalize("https://example.com:80/"), Ok("https://example.com:80".to_string()));
    assert_eq!(normalize("ftp://files.example.com/pub"), Ok("ftp://files.example.com".to_string()));
    assert_eq!(normalize("http://127.0.0.1:3000/x"), Ok("http://127.0.0.1:3000".to_string()));
}

#[test]
fn normalize_is_not_the_identity() {
    let raw = "http://Example.com:80/a";
    assert_ne!(normalize(raw), Ok(raw.to_string()));
}

#[test]
fn normalize_refuses_what_is_no_absolute_url() {
    assert_eq!(normalize(""), Err(SubmitError::InvalidUrl));
    assert_eq!(normalize("example.com"), Err(SubmitError::InvalidUrl));
    assert_eq!(normalize("/just/a/path"), Err(SubmitError::InvalidUrl));
    assert_eq!(normalize("not a url"), Err(SubmitError::InvalidUrl));
    assert_eq!(normalize("http://"), Err(SubmitError::InvalidUrl));
    assert_eq!(normalize("http://example.com:99999/"), Err(SubmitError::InvalidUrl));
}

#[test]
fn invalid_url_leaves_the_store_untouched() {
    let mut store = SubmissionStore::new();
    assert_eq!(store.submit("", 1, 3600, 10), Err(SubmitError::InvalidUrl));
    assert_eq!(store.submit("example.com", 1, 3600, 10), Err(SubmitError::InvalidUrl));
    assert_eq!(store.submit("not a url", 1, 0, 10), Err(SubmitError::InvalidUrl));
    assert!(!store.is_provisioned());
    assert_eq!(store.len(), 0);
    assert_eq!(store.next_id(), 1);

    store.submit("https://a.example/", 1, 0, 10).unwrap();
    let before = store.list_all();
    assert_eq!(store.submit("no scheme", 2, 0, 11), Err(SubmitError::InvalidUrl));
    assert_eq!(store.list_all(), before);
    assert_eq!(store.next_id(), 2);
}

#[test]
fn invalid_url_comes_before_the_rate_limit() {
    let mut store = SubmissionStore::new();
    store.submit("https://a.example/", 1, 3600, 10).unwrap();
    assert_eq!(store.submit("nonsense", 1, 3600, 11), Err(SubmitError::InvalidUrl));
}

#[test]
fn first_submission_passes_any_window() {
    let mut store = SubmissionStore::new();
    assert_eq!(store.submit("https://a.example/", 1, 1, 0), Ok("https://a.example".to_string()));
    assert_eq!(store.submit("https://b.example/", 2, 3600, 0), Ok("https://b.example".to_string()));
    assert_eq!(
        store.submit("https://c.example/", 3, u64::MAX, 0),
        Ok("https://c.example".to_string())
    );
    assert_eq!(store.len(), 3);
}

#[test]
fn second_submission_within_window_is_rate_limited() {
    let mut store = SubmissionStore::new();
    store.submit("https://a.example/", 9, 3600, 1000).unwrap();
    assert_eq!(store.submit("https://b.example/", 9, 3600, 1000), Err(limited(3600)));
    assert_eq!(store.submit("https://b.example/", 9, 3600, 1001), Err(limited(3599)));
    assert_eq!(store.submit("https://b.example/", 9, 3600, 4599), Err(limited(1)));
    assert_eq!(store.len(), 1);
    assert_eq!(store.next_id(), 2);
    assert_eq!(store.submit("https://b.example/", 9, 3600, 4600), Ok("https://b.example".to_string()));
    assert_eq!(store.len(), 2);
}

#[test]
fn rate_limit_is_per_submitter() {
    let mut store = SubmissionStore::new();
    store.submit("https://a.example/", 1, 3600, 1000).unwrap();
    assert_eq!(store.submit("https://b.example/", 2, 3600, 1001), Ok("https://b.example".to_string()));
    assert_eq!(store.submit("https://c.example/", 1, 3600, 1002), Err(limited(3598)));
}

#[test]
fn rate_limit_goes_by_the_latest_row_of_the_submitter() {
    let mut store = SubmissionStore::new();
    store.submit("https://a.example/", 1, 0, 500).unwrap();
    store.submit("https://b.example/", 1, 0, 900).unwrap();
    store.submit("https://c.example/", 1, 0, 700).unwrap();
    assert_eq!(store.last_submitted_at(1), Some(900));
    assert_eq!(store.last_submitted_at(2), None);
    assert_eq!(store.check(1, 100, 950), Err(limited(50)));
    assert_eq!(store.check(1, 100, 1000), Ok(()));
    assert_eq!(store.check(2, 100, 950), Ok(()));
}

#[test]
fn clock_that_reads_earlier_counts_as_no_time_passed() {
    assert_eq!(rate_limit(Some(1000), 60, 990), Err(limited(60)));
    assert_eq!(rate_limit(Some(1000), 0, 990), Ok(()));
}

#[test]
fn rate_limit_formula() {
    assert_eq!(rate_limit(None, 3600, 0), Ok(()));
    assert_eq!(rate_limit(Some(100), 0, 100), Ok(()));
    assert_eq!(rate_limit(Some(100), 3600, 100), Err(limited(3600)));
    assert_eq!(rate_limit(Some(100), 3600, 160), Err(limited(3540)));
    assert_eq!(rate_limit(Some(100), 3600, 3699), Err(limited(1)));
    assert_eq!(rate_limit(Some(100), 3600, 3700), Ok(()));
    assert_eq!(rate_limit(Some(0), u64::MAX, u64::MAX - 1), Err(limited(1)));
    assert_eq!(rate_limit(Some(0), u64::MAX, u64::MAX), Ok(()));
}

#[test]
fn same_origin_is_refused_the_second_time() {
    let mut store = SubmissionStore::new();
    store.submit("https://a.example/one", 1, 0, 10).unwrap();
    assert_eq!(store.submit("https://a.example/two", 2, 0, 10), Err(SubmitError::DuplicateUrl));
    assert_eq!(store.submit("https://A.example:443/", 3, 3600, 99999), Err(SubmitError::DuplicateUrl));
    assert_eq!(store.submit("https://a.example/one", 1, 0, 11), Err(SubmitError::DuplicateUrl));
    assert_eq!(store.len(), 1);
    assert_eq!(store.next_id(), 2);
}

#[test]
fn rate_limit_is_judged_before_the_duplicate() {
    let mut store = SubmissionStore::new();
    store.submit("https://a.example/", 1, 3600, 10).unwrap();
    assert_eq!(store.submit("https://a.example/", 1, 3600, 11), Err(limited(3599)));
}

#[test]
fn insert_assigns_ascending_ids_and_refuses_duplicates() {
    let mut store = SubmissionStore::new();
    assert_eq!(store.insert("https://a.example".to_string(), 1, 10), Ok(1));
    assert_eq!(store.insert("https://b.example".to_string(), 1, 10), Ok(2));
    assert_eq!(store.insert("https://a.example".to_string(), 2, 11), Err(SubmitError::DuplicateUrl));
    assert_eq!(store.insert("https://c.example".to_string(), 2, 12), Ok(3));
    assert!(store.holds(&"https://b.example".to_string()));
    assert!(!store.holds(&"https://d.example".to_string()));
    assert_eq!(
        store.list_all(),
        vec![
            Submission { id: 1, origin: "https://a.example".to_string(), submitter_id: 1, submitted_at: 10 },
            Submission { id: 2, origin: "https://b.example".to_string(), submitter_id: 1, submitted_at: 10 },
            Submission { id: 3, origin: "https://c.example".to_string(), submitter_id: 2, submitted_at: 12 },
        ]
    );
}

#[test]
fn clear_all_keeps_the_id_counter() {
    let mut store = SubmissionStore::new();
    store.insert("https://a.example".to_string(), 1, 10).unwrap();
    store.clear_all();
    assert_eq!(store.len(), 0);
    assert!(store.is_provisioned());
    assert_eq!(store.insert("https://a.example".to_string(), 1, 11), Ok(2));
}

#[test]
fn exhausted_ids_give_storage_error() {
    let mut store = SubmissionStore::restore(Vec::new(), u64::MAX).unwrap();
    assert_eq!(store.submit("https://a.example/", 1, 0, 10), Err(SubmitError::StorageError));
    assert_eq!(store.len(), 0);
    let mut last = SubmissionStore::restore(Vec::new(), u64::MAX - 1).unwrap();
    assert_eq!(last.insert("https://a.example".to_string(), 1, 10), Ok(u64::MAX - 1));
    assert_eq!(last.insert("https://b.example".to_string(), 1, 10), Err(SubmitError::StorageError));
}

#[test]
fn restore_takes_good_rows_and_refuses_bad_ones() {
    let row = |id: u64, origin: &str| Submission {
        id,
        origin: origin.to_string(),
        submitter_id: 4,
        submitted_at: 100,
    };
    let good = vec![row(2, "https://a.example"), row(5, "https://b.example")];
    let mut store = SubmissionStore::restore(good.clone(), 9).unwrap();
    assert!(store.is_provisioned());
    assert_eq!(store.list_all(), good);
    assert_eq!(store.next_id(), 9);
    assert_eq!(store.submit("https://a.example/x", 1, 0, 200), Err(SubmitError::DuplicateUrl));
    assert_eq!(store.submit("https://c.example/x", 4, 60, 130), Err(limited(30)));

    let twice = vec![row(1, "https://a.example"), row(2, "https://a.example")];
    assert!(matches!(SubmissionStore::restore(twice, 9), Err(SubmitError::StorageError)));
    let unordered = vec![row(2, "https://a.example"), row(1, "https://b.example")];
    assert!(matches!(SubmissionStore::restore(unordered, 9), Err(SubmitError::StorageError)));
    let same_id = vec![row(2, "https://a.example"), row(2, "https://b.example")];
    assert!(matches!(SubmissionStore::restore(same_id, 9), Err(SubmitError::StorageError)));
    let too_high = vec![row(9, "https://a.example")];
    assert!(matches!(SubmissionStore::restore(too_high, 9), Err(SubmitError::StorageError)));
}

#[test]
fn submit_origin_takes_the_origin_as_given() {
    let mut store = SubmissionStore::new();
    assert_eq!(store.submit_origin(None, 1, 0, 10), Err(SubmitError::InvalidUrl));
    assert_eq!(
        store.submit_origin(Some("https://a.example".to_string()), 1, 60, 10),
        Ok("https://a.example".to_string())
    );
    assert_eq!(store.submit_origin(Some("https://b.example".to_string()), 1, 60, 20), Err(limited(50)));
    assert_eq!(
        store.submit_origin(Some("https://a.example".to_string()), 2, 60, 20),
        Err(SubmitError::DuplicateUrl)
    );
}

#[test]
fn urls_without_an_origin_of_scheme_host_and_port_are_refused() {
    assert_eq!(normalize("mailto:a@b.c"), Err(SubmitError::InvalidUrl));
    assert_eq!(normalize("data:text/plain,hello"), Err(SubmitError::InvalidUrl));
    assert_eq!(normalize("file:///x"), Err(SubmitError::InvalidUrl));
    assert_eq!(normalize("localhost:3000"), Err(SubmitError::InvalidUrl));
    assert_eq!(normalize("example.com:8080/a"), Err(SubmitError::InvalidUrl));
    assert_eq!(normalize("foo://host/path"), Err(SubmitError::InvalidUrl));
    assert_eq!(normalize("blob:nonsense"), Err(SubmitError::InvalidUrl));
    assert_eq!(
        normalize("blob:https://Example.org/some-id"),
        Ok("https://example.org".to_string())
    );

    let mut store = SubmissionStore::new();
    assert_eq!(store.submit("mailto:a@b.c", 1, 0, 10), Err(SubmitError::InvalidUrl));
    assert_eq!(store.submit("file:///x", 2, 0, 10), Err(SubmitError::InvalidUrl));
    assert!(!store.is_provisioned());
    assert_eq!(store.len(), 0);
}

#[test]
fn texts_longer_than_the_limit_are_refused() {
    let head = "https://example.org/";
    let fits = format!("{}{}", head, "a".repeat(MAX_URL_BYTES - head.len()));
    assert_eq!(fits.len(), MAX_URL_BYTES);
    assert_eq!(normalize(&fits), Ok("https://example.org".to_string()));
    let too_long = format!("{}a", fits);
    assert_eq!(normalize(&too_long), Err(SubmitError::InvalidUrl));
    let nested = format!("{}https://example.org/", "blob:".repeat(100_000));
    assert_eq!(normalize(&nested), Err(SubmitError::InvalidUrl));
    let mut store = SubmissionStore::new();
    assert_eq!(store.submit(&too_long, 1, 0, 10), Err(SubmitError::InvalidUrl));
    assert!(!store.is_provisioned());
}
