use arc::artifact::{artifact_file_name, ArtifactIndex, ArtifactInfo, StoredData, FILE_BACKING_THRESHOLD};

fn info(id: &str, size: usize, file: bool) -> ArtifactInfo {
    ArtifactInfo {
        id: id.to_string(),
        name: format!("{id} artifact"),
        size_bytes: size,
        stored_at: "2026-01-01T00:00:00Z".to_string(),
        is_file_backed: file,
    }
}

#[test]
fn record_then_lookup_gives_data() {
    let mut index = ArtifactIndex::new(false);
    index.record(info("art1", 15, false), StoredData::InMemory("{\"result\":\"ok\"}".to_string()));
    assert!(index.has("art1"));
    match index.lookup("art1") {
        Ok(StoredData::InMemory(t)) => assert_eq!(t, "{\"result\":\"ok\"}"),
        _ => panic!("expected in-memory data"),
    }
}

#[test]
fn lookup_missing_is_error() {
    let index = ArtifactIndex::new(false);
    assert_eq!(index.lookup("missing").err(), Some("artifact not found: missing".to_string()));
}

#[test]
fn record_same_id_replaces() {
    let mut index = ArtifactIndex::new(false);
    index.record(info("a", 1, false), StoredData::InMemory("1".to_string()));
    index.record(info("b", 1, false), StoredData::InMemory("2".to_string()));
    index.record(info("a", 1, false), StoredData::InMemory("3".to_string()));
    assert_eq!(index.list().len(), 2);
    assert!(matches!(index.lookup("a"), Ok(StoredData::InMemory(t)) if t == "3"));
}

#[test]
fn remove_and_clear() {
    let mut index = ArtifactIndex::new(true);
    index.record(info("r", 1, false), StoredData::InMemory("1".to_string()));
    index.record(info("big", 200_000, true), StoredData::FileBacked("/tmp/artifacts/big.json".to_string()));
    assert!(matches!(index.remove("r"), Some(StoredData::InMemory(_))));
    assert!(!index.has("r"));
    assert!(index.remove("r").is_none());
    let gone = index.clear();
    assert_eq!(gone.len(), 1);
    assert!(index.list().is_empty());
}

#[test]
fn file_backing_needs_size_and_directory() {
    let with_dir = ArtifactIndex::new(true);
    let without_dir = ArtifactIndex::new(false);
    assert!(with_dir.goes_to_file(FILE_BACKING_THRESHOLD + 1));
    assert!(!with_dir.goes_to_file(FILE_BACKING_THRESHOLD));
    assert!(!without_dir.goes_to_file(FILE_BACKING_THRESHOLD + 1));
    assert_eq!(artifact_file_name("big"), "big.json");
}

#[test]
fn artifact_text_round_trips_through_value() {
    let v: serde_json::Value = serde_json::from_str(r#"{"a":[1,2],"b":"x"}"#).unwrap();
    let text = arc::artifact::artifact_json_text(&v);
    assert_eq!(text, r#"{"a":[1,2],"b":"x"}"#);
    assert_eq!(arc::artifact::artifact_value("art1", &text).unwrap(), v);
}

#[test]
fn artifact_value_error_names_the_artifact() {
    let e = arc::artifact::artifact_value("art1", "not json").unwrap_err();
    assert!(e.starts_with("failed to deserialize file-backed artifact art1: "));
}
