use termdash::registry::{new_level_id, save_current, select_level_files, select_world_files, CurrentLevel, Levels};

fn strings(items: &[&str]) -> Vec<String> {
    items.iter().map(|s| s.to_string()).collect()
}

#[test]
fn level_files_are_filtered_and_sorted() {
    let entries = strings(&[
        "w/b.json",
        "w/_default_level.json",
        "w/a.json",
        "w/readme.txt",
        "w/c.json.bak",
        "w/B.json",
    ]);
    assert_eq!(select_level_files(&entries), strings(&["w/B.json", "w/a.json", "w/b.json"]));
}

#[test]
fn no_level_files_is_an_error() {
    let empty: Result<Levels<u32>, String> = Levels::from_loaded(vec![], vec![], "w".to_string());
    assert_eq!(empty.err(), Some("no levels were found".to_string()));
}

#[test]
fn registry_bookkeeping() {
    let mut levels =
        Levels::from_loaded(vec![10u32, 20], strings(&["w/a.json", "w/b.json"]), "w".to_string())
            .unwrap();
    assert_eq!(levels.len(), 2);
    assert_eq!(levels.get(1), Some(&20));
    assert_eq!(levels.get(2), None);
    assert_eq!(levels.path(0), Ok("w/a.json".to_string()));
    assert_eq!(levels.path(5), Err("missing level path".to_string()));
    let path = levels.new_level_path("new_1");
    assert_eq!(path, "w/new_1.json");
    assert_eq!(levels.register(30, path), 2);
    assert_eq!(levels.store(25, 1), "w/b.json");
    assert_eq!(levels.as_slice(), &[10, 25, 30]);
    *levels.get_mut(0) = 11;
    levels.forget(1);
    assert_eq!(levels.as_slice(), &[11, 30]);
    assert_eq!(levels.path(1), Ok("w/new_1.json".to_string()));
}

#[test]
fn new_level_ids() {
    assert_eq!(new_level_id("default", "1700000000000"), "default_1700000000000");
}

#[test]
fn current_level_lookup_and_save() {
    let mut levels =
        Levels::from_loaded(vec![1u32, 2], strings(&["w/a.json", "w/b.json"]), "w".to_string())
            .unwrap();
    let mut current: CurrentLevel<u32> = CurrentLevel::default();
    assert_eq!(current.get_from(&levels), None);
    assert_eq!(save_current(&current, &mut levels), Err("no level is loaded".to_string()));
    current.set_loaded(1, 2);
    assert_eq!(current.get_from(&levels), Some(&2));
    assert_eq!(save_current(&current, &mut levels), Ok("w/b.json".to_string()));
    current.set_loaded(9, 0);
    assert_eq!(save_current(&current, &mut levels), Err("no current level".to_string()));
    current.clear();
    assert_eq!(current.index, None);
}

#[test]
fn template_lives_with_levels() {
    let levels: Levels<u32> = Levels::from_loaded(vec![1], strings(&["w/a.json"]), "w".to_string()).unwrap();
    assert_eq!(levels.template_path(), "w/_default_level.json");
}

#[test]
fn world_files_keep_templates() {
    let entries = strings(&["w/b.json", "w/_x.json", "w/a.txt", "w/a.json"]);
    assert_eq!(select_world_files(&entries), strings(&["w/_x.json", "w/a.json", "w/b.json"]));
}

#[test]
fn level_files_without_extension_or_name() {
    let entries = strings(&["w/json", "w/.json", "w/x.JSON", "w/c.json"]);
    assert_eq!(select_level_files(&entries), strings(&["w/c.json"]));
}
