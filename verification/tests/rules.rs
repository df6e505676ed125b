use rust_url::asn::is_rsa;
use rust_url::upload::{
    active_version, after_response, etag, find_store, metadata_key, store_key, KVStore, Outcome,
    ServiceVersion, RETRY_REQUESTS,
};

#[test]
fn is_rsa_knows_rsa_encryption() {
    assert!(is_rsa(&[1, 2, 840, 113549, 1, 1, 1]));
    assert!(!is_rsa(&[1, 2, 840, 113549, 1, 1]));
    assert!(!is_rsa(&[1, 2, 840, 113549, 1, 1, 11]));
    assert!(!is_rsa(&[1, 2, 840, 10045, 2, 1]));
    assert!(!is_rsa(&[1, 2, 840, 113549, 1, 1, 1, 0]));
    assert!(!is_rsa(&[]));
}

#[test]
fn response_200_ends_the_upload() {
    assert_eq!(after_response(0, 200), Outcome::Done);
    assert_eq!(after_response(5, 200), Outcome::Done);
    assert_eq!(after_response(usize::MAX, 200), Outcome::Done);
}

#[test]
fn failures_are_retried_five_times() {
    assert_eq!(RETRY_REQUESTS, 5);
    assert_eq!(after_response(0, 500), Outcome::Retry { failures: 1 });
    assert_eq!(after_response(4, 404), Outcome::Retry { failures: 5 });
    assert_eq!(after_response(5, 500), Outcome::GiveUp);
    assert_eq!(after_response(usize::MAX, 201), Outcome::GiveUp);
}

#[test]
fn a_run_of_failures_gives_up_at_the_sixth() {
    let mut failures = 0;
    let mut requests = 0;
    loop {
        requests += 1;
        match after_response(failures, 503) {
            Outcome::Retry { failures: n } => failures = n,
            Outcome::GiveUp => break,
            Outcome::Done => panic!("a failure cannot end the upload"),
        }
    }
    assert_eq!(requests, 6);
}

fn store(id: &str, name: &str) -> KVStore {
    KVStore { id: id.to_string(), name: name.to_string() }
}

#[test]
fn find_store_takes_the_first_of_the_name() {
    let stores = vec![store("1", "a"), store("2", "b"), store("3", "b")];
    assert_eq!(find_store(&stores, "b"), Some("2".to_string()));
    assert_eq!(find_store(&stores, "a"), Some("1".to_string()));
    assert_eq!(find_store(&stores, "c"), None);
    assert_eq!(find_store(&Vec::new(), "a"), None);
}

#[test]
fn active_version_takes_the_first_active() {
    let v = |number, active| ServiceVersion { number, active };
    assert_eq!(active_version(&vec![v(1, false), v(2, true), v(3, true)]), Some(2));
    assert_eq!(active_version(&vec![v(1, false)]), None);
    assert_eq!(active_version(&Vec::new()), None);
}

#[test]
fn keys_and_tags() {
    assert_eq!(store_key("img/a.png"), "/img/a.png");
    assert_eq!(store_key(""), "/");
    assert_eq!(metadata_key("/img/a.png"), "/img/a.png__metadata__");
    assert_eq!(etag("abc="), "W/\"abc=\"");
}
