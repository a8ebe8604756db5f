use arcp::error::ErrorCode;
use arcp::ids::ArtifactId;
use arcp::runtime::artifacts::ArtifactStore;
use arcp::time::UtcTime;

#[test]
fn fetch_gives_back_what_put_stored() {
    let mut store = ArtifactStore::new();
    let id = ArtifactId::new();
    let now = UtcTime { secs: 100, nanos: 7 };
    let r = store.put(id.clone(), "text/plain".into(), "aGVsbG8=".into(), Some("abc".into()), Some(60), now);
    assert_eq!(r.artifact_id, id);
    assert_eq!(r.uri, format!("arcp://artifacts/{}", id.as_str()));
    assert_eq!(r.media_type, "text/plain");
    assert_eq!(r.size, 8);
    assert_eq!(r.sha256.as_deref(), Some("abc"));
    assert_eq!(r.expires_at, Some(UtcTime { secs: 160, nanos: 7 }));
    let (data, media) = store.fetch(&id).expect("stored");
    assert_eq!(data, "aGVsbG8=");
    assert_eq!(media, "text/plain");
}

#[test]
fn a_second_put_replaces_and_release_forgets() {
    let mut store = ArtifactStore::new();
    let id = ArtifactId::new();
    let other = ArtifactId::new();
    let now = UtcTime { secs: 0, nanos: 0 };
    store.put(id.clone(), "a/b".into(), "one".into(), None, None, now);
    store.put(other.clone(), "c/d".into(), "two".into(), None, None, now);
    let r = store.put(id.clone(), "e/f".into(), "three".into(), None, None, now);
    assert_eq!(r.expires_at, None);
    assert_eq!(store.fetch(&id).unwrap(), ("three".to_owned(), "e/f".to_owned()));
    store.release(&id);
    let err = store.fetch(&id).unwrap_err();
    assert_eq!(err.code(), ErrorCode::NotFound);
    assert_eq!(err.message(), format!("NOT_FOUND: no such artifact: {}", id.as_str()));
    assert_eq!(store.fetch(&other).unwrap(), ("two".to_owned(), "c/d".to_owned()));
}
