use balatro_mod_index::error::IndexError;
use balatro_mod_index::lfs::fetch::{fetch_jobs, payloads, store_fetched};
use balatro_mod_index::lfs::{Blob, Pointer};
use bytes::Bytes;

fn blob(n: usize, url: Option<&str>) -> Blob {
    let mut blob = Blob::new(Pointer { oid: format!("oid-{n}"), size: n });
    blob.url = url.map(str::to_string);
    blob
}

fn bytes_of(text: &str) -> Result<Bytes, IndexError> {
    Ok(Bytes::from(text.as_bytes().to_vec()))
}

#[test]
fn new_blob_was_not_fetched_yet() {
    let fresh = Blob::new(Pointer { oid: "aa".to_string(), size: 3 });
    assert_eq!(fresh.pointer, Pointer { oid: "aa".to_string(), size: 3 });
    assert_eq!(fresh.url, None);
    assert_eq!(fresh.data, Err(IndexError::NotYetFetched));
    let copy = fresh.clone();
    assert_eq!(copy.pointer, fresh.pointer);
    assert_eq!(copy.data, fresh.data);
}

#[test]
fn blobs_without_a_url_are_not_downloaded() {
    let blobs = vec![blob(0, None), blob(1, Some("u1")), blob(2, None), blob(3, Some("u3"))];
    let jobs = fetch_jobs(&blobs);
    let seen: Vec<(usize, &str, &str)> = jobs.iter().map(|j| (j.index, j.url, j.oid)).collect();
    assert_eq!(seen, vec![(1, "u1", "oid-1"), (3, "u3", "oid-3")]);
    assert!(fetch_jobs(&vec![blob(0, None)]).is_empty());
    assert!(fetch_jobs(&Vec::new()).is_empty());
}

#[test]
fn outcomes_go_to_the_blobs_with_a_url_in_order() {
    let mut blobs = vec![blob(0, None), blob(1, Some("u1")), blob(2, None), blob(3, Some("u3"))];
    store_fetched(&mut blobs, false, vec![bytes_of("one"), bytes_of("three")]);
    assert_eq!(blobs[0].data, Err(IndexError::NotYetFetched));
    assert_eq!(blobs[1].data, bytes_of("one"));
    assert_eq!(blobs[2].data, Err(IndexError::NotYetFetched));
    assert_eq!(blobs[3].data, bytes_of("three"));
    assert_eq!(blobs[1].url, Some("u1".to_string()));
}

#[test]
fn failed_download_leaves_the_others_alone() {
    let mut blobs = vec![blob(0, Some("u0")), blob(1, Some("u1")), blob(2, Some("u2"))];
    store_fetched(&mut blobs, false, vec![bytes_of("zero"), Err(IndexError::Transport), bytes_of("two")]);
    assert_eq!(blobs[0].data, bytes_of("zero"));
    assert_eq!(blobs[1].data, Err(IndexError::Transport));
    assert_eq!(blobs[2].data, bytes_of("two"));
}

#[test]
fn payload_is_kept_over_a_later_failure_unless_refreshed() {
    let mut blobs = vec![blob(0, Some("u0"))];
    store_fetched(&mut blobs, false, vec![bytes_of("first")]);
    store_fetched(&mut blobs, false, vec![Err(IndexError::Transport)]);
    assert_eq!(blobs[0].data, bytes_of("first"));
    store_fetched(&mut blobs, false, vec![bytes_of("second")]);
    assert_eq!(blobs[0].data, bytes_of("second"));
    store_fetched(&mut blobs, true, vec![Err(IndexError::Transport)]);
    assert_eq!(blobs[0].data, Err(IndexError::Transport));
    store_fetched(&mut blobs, false, vec![Err(IndexError::Schema(balatro_mod_index::error::SchemaError::NotJson))]);
    assert_eq!(blobs[0].data, Err(IndexError::Schema(balatro_mod_index::error::SchemaError::NotJson)));
}

#[test]
fn record_takes_one_outcome() {
    let mut one = blob(0, Some("u0"));
    one.record(Err(IndexError::Transport), false);
    assert_eq!(one.data, Err(IndexError::Transport));
    one.record(bytes_of("x"), false);
    one.record(Err(IndexError::Transport), false);
    assert_eq!(one.data, bytes_of("x"));
    one.record(bytes_of("y"), true);
    assert_eq!(one.data, bytes_of("y"));
}

#[test]
fn outcomes_that_are_too_few_or_too_many_change_no_more_than_they_can() {
    let mut blobs = vec![blob(0, Some("u0")), blob(1, Some("u1"))];
    store_fetched(&mut blobs, false, vec![bytes_of("zero")]);
    assert_eq!(blobs[0].data, bytes_of("zero"));
    assert_eq!(blobs[1].data, Err(IndexError::NotYetFetched));
    store_fetched(&mut blobs, false, vec![bytes_of("a"), bytes_of("b"), bytes_of("c")]);
    assert_eq!(blobs[0].data, bytes_of("a"));
    assert_eq!(blobs[1].data, bytes_of("b"));
    store_fetched(&mut blobs, false, Vec::new());
    assert_eq!(blobs[1].data, bytes_of("b"));
}

#[test]
fn payloads_leave_out_the_downloads_that_failed() {
    let blobs = vec![blob(0, Some("u0")), blob(1, None), blob(2, Some("u2")), blob(3, Some("u3"))];
    let jobs = fetch_jobs(&blobs);
    let outcomes = vec![bytes_of("zero"), Err(IndexError::Transport), bytes_of("three")];
    let got = payloads(&jobs, &outcomes);
    assert_eq!(
        got,
        vec![
            ("oid-0".to_string(), Bytes::from_static(b"zero")),
            ("oid-3".to_string(), Bytes::from_static(b"three")),
        ]
    );
    assert!(payloads(&jobs, &Vec::new()).is_empty());
    assert_eq!(payloads(&jobs, &vec![bytes_of("only")]).len(), 1);
}
