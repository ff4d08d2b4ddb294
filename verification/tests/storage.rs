use ferrotick::storage::{json_stem_of, OptimizationStorage};

#[test]
fn run_ids_are_sorted_json_stems() {
    let storage = OptimizationStorage::new("/tmp/runs");
    assert_eq!(storage.base_dir(), "/tmp/runs");
    let names: Vec<String> = ["run-2.json", "notes.txt", "run-1.json", ".json", "a.b.json", "run-10.json"]
        .iter()
        .map(|s| s.to_string())
        .collect();
    assert_eq!(storage.run_ids(&names), vec!["a.b", "run-1", "run-10", "run-2"]);
}

#[test]
fn run_file_names() {
    assert_eq!(OptimizationStorage::run_file_name("test-run-1"), "test-run-1.json");
    assert_eq!(json_stem_of("x.json").as_deref(), Some("x"));
    assert_eq!(json_stem_of("x.JSON"), None);
    assert_eq!(json_stem_of("json"), None);
    assert_eq!(json_stem_of("..json").as_deref(), Some("."));
}
