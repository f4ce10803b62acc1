use usi_engine_host::engine_storage::{
    builtin_default_options, declares_engine_binary, default_display_name, default_is_favorite, EngineConfig,
    EngineStorage, StorageError,
};
use usi_engine_host::option_map::OptionMap;

fn config(id: &str, path: &str) -> EngineConfig {
    EngineConfig::with_identity(
        id.to_string(),
        "2024-01-01T00:00:00+00:00".to_string(),
        format!("Engine {}", id),
        path.to_string(),
        None,
        false,
    )
}

fn store(ids: &[(&str, &str)]) -> EngineStorage {
    let mut s = EngineStorage::default();
    for (id, path) in ids {
        s.add_engine(config(id, path)).unwrap();
    }
    s
}

#[test]
fn default_store_is_empty() {
    let s = EngineStorage::default();
    assert_eq!(s.version, "1.0");
    assert!(s.get_all_engines().is_empty());
    assert_eq!(default_display_name(), "");
    assert!(!default_is_favorite());
}

#[test]
fn new_record_is_enabled_and_named() {
    let c = EngineConfig::new("Alpha".to_string(), "/e/alpha".to_string(), None, false);
    assert_eq!(c.display_name, "Alpha");
    assert!(c.enabled);
    assert!(!c.is_favorite);
    assert!(c.last_used.is_none());
    assert!(!c.id.is_empty());
    assert!(!c.created_at.is_empty());
    let d = EngineConfig::new("Alpha".to_string(), "/e/alpha".to_string(), None, false);
    assert_ne!(c.id, d.id);
}

#[test]
fn adding_returns_id_and_refuses_same_path() {
    let mut s = EngineStorage::default();
    assert_eq!(s.add_engine(config("a", "/e/a")).unwrap(), "a");
    assert_eq!(s.add_engine(config("b", "/e/a")), Err(StorageError::DuplicatePath));
    assert_eq!(s.get_all_engines().len(), 1);
}

#[test]
fn removing_unknown_engine_fails() {
    let mut s = store(&[("a", "/e/a"), ("b", "/e/b")]);
    assert_eq!(s.remove_engine("zzz"), Err(StorageError::NotFound));
    assert_eq!(s.remove_engine("a"), Ok(()));
    assert_eq!(s.get_all_engines().len(), 1);
    assert_eq!(s.get_all_engines()[0].id, "b");
    assert!(s.get_engine("a").is_none());
}

#[test]
fn builtin_engine_cannot_be_removed() {
    let mut s = store(&[("a", "/e/a")]);
    let mut b = config("b", "/e/b");
    b.is_builtin = true;
    s.add_engine(b).unwrap();
    assert!(s.has_builtin_engine());
    assert_eq!(s.remove_configured_engine("b"), Err(StorageError::BuiltinProtected));
    assert_eq!(s.remove_configured_engine("a"), Ok(()));
    assert_eq!(s.remove_configured_engine("a"), Err(StorageError::NotFound));
}

#[test]
fn field_updates_reach_only_their_engine() {
    let mut s = store(&[("a", "/e/a"), ("b", "/e/b")]);
    s.set_engine_enabled("b", false).unwrap();
    s.update_display_name("a", "Renamed".to_string()).unwrap();
    assert!(s.get_engine("a").unwrap().enabled);
    assert!(!s.get_engine("b").unwrap().enabled);
    assert_eq!(s.get_engine("a").unwrap().display_name, "Renamed");
    assert_eq!(s.get_engine("b").unwrap().display_name, "Engine b");
    assert_eq!(s.set_engine_enabled("x", true), Err(StorageError::NotFound));
    assert_eq!(s.update_display_name("x", String::new()), Err(StorageError::NotFound));
    s.get_engine_mut("b").unwrap().name = "Changed".to_string();
    assert_eq!(s.get_engine("b").unwrap().name, "Changed");
    assert!(s.get_engine_mut("x").is_none());
}

#[test]
fn saved_options_round_trip() {
    let mut s = store(&[("a", "/e/a")]);
    assert!(s.get_engine_options("a").is_none());
    let mut m = OptionMap::new();
    m.insert("USI_Hash".to_string(), "256".to_string());
    m.insert("Threads".to_string(), "4".to_string());
    m.insert("USI_Hash".to_string(), "512".to_string());
    assert_eq!(m.len(), 2);
    s.save_engine_options("a", m).unwrap();
    let got = s.get_engine_options("a").unwrap();
    assert_eq!(got.get("USI_Hash").map(|v| v.as_str()), Some("512"));
    assert_eq!(got.get("Threads").map(|v| v.as_str()), Some("4"));
    assert_eq!(got.get("Ponder"), None);
    let (n, v) = got.entry(0);
    assert_eq!((n.as_str(), v.as_str()), ("USI_Hash", "512"));
    assert_eq!(s.save_engine_options("x", OptionMap::new()), Err(StorageError::NotFound));
}

#[test]
fn favorite_is_unique() {
    let mut s = store(&[("a", "/e/a"), ("b", "/e/b"), ("c", "/e/c")]);
    s.set_favorite_engine("a").unwrap();
    s.set_favorite_engine("c").unwrap();
    let favs: Vec<&str> =
        s.get_all_engines().iter().filter(|e| e.is_favorite).map(|e| e.id.as_str()).collect();
    assert_eq!(favs, vec!["c"]);
    assert_eq!(s.set_favorite_engine("x"), Err(StorageError::NotFound));
}

#[test]
fn clone_copies_under_new_identity() {
    let mut s = store(&[("a", "/e/a")]);
    s.set_last_used("a", "yesterday".to_string()).unwrap();
    s.engines[0].is_builtin = true;
    let id = s
        .clone_engine_as("a", "Copy".to_string(), "a2".to_string(), "today".to_string())
        .unwrap();
    assert_eq!(id, "a2");
    let c = s.get_engine("a2").unwrap();
    assert_eq!(c.display_name, "Copy");
    assert_eq!(c.path, "/e/a");
    assert!(!c.is_builtin);
    assert!(c.last_used.is_none());
    assert_eq!(c.created_at, "today");
    let fresh = s.clone_engine("a", "Copy 2".to_string()).unwrap();
    assert_ne!(fresh, "a");
    assert_eq!(s.get_all_engines().len(), 3);
    assert_eq!(s.clone_engine("x", "n".to_string()), Err(StorageError::NotFound));
}

#[test]
fn last_used_is_recorded() {
    let mut s = store(&[("a", "/e/a")]);
    s.update_last_used("a").unwrap();
    assert!(s.get_engine("a").unwrap().last_used.is_some());
    assert_eq!(s.update_last_used("x"), Err(StorageError::NotFound));
}

#[test]
fn migration_fills_names_and_picks_single_favorite() {
    let mut s = store(&[("a", "/e/a")]);
    s.engines[0].display_name = String::new();
    assert!(s.migrate());
    assert_eq!(s.engines[0].display_name, "Engine a");
    assert!(s.engines[0].is_favorite);
    assert!(!s.migrate());
}

#[test]
fn migration_prefers_builtin_as_favorite() {
    let mut s = store(&[("a", "/e/a"), ("b", "/e/b")]);
    s.engines[1].is_builtin = true;
    assert!(s.migrate());
    assert!(!s.engines[0].is_favorite);
    assert!(s.engines[1].is_favorite);
    let mut t = store(&[("a", "/e/a"), ("b", "/e/b")]);
    assert!(!t.migrate());
    assert!(t.engines.iter().all(|e| !e.is_favorite));
}

#[test]
fn builtin_defaults_are_listed() {
    let m = builtin_default_options();
    assert_eq!(m.len(), 9);
    assert_eq!(m.get("MaxDepth").map(|v| v.as_str()), Some("0"));
    assert_eq!(m.get("TimeCheckFrequency").map(|v| v.as_str()), Some("1024"));
    assert_eq!(m.get("TimeAllocationStrategy").map(|v| v.as_str()), Some("Adaptive"));
    assert_eq!(m.get("AspirationWindowSize").map(|v| v.as_str()), Some("25"));
    assert_eq!(m.get("EnablePositionTypeTracking").map(|v| v.as_str()), Some("true"));
}

#[test]
fn builtin_refresh_points_and_fills_defaults() {
    let mut s = store(&[("a", "/e/a")]);
    assert_eq!(s.refresh_builtin_engine("/new".to_string(), None), None);
    let b = EngineConfig::new_builtin("/old/engine".to_string(), None);
    assert_eq!(b.name, "Built-in Engine");
    assert!(b.is_builtin);
    assert_eq!(b.saved_options.as_ref().unwrap().len(), 9);
    s.add_engine(b).unwrap();
    s.engines[1].saved_options = None;
    assert_eq!(s.refresh_builtin_engine("/new/engine".to_string(), None), Some(0));
    assert_eq!(s.engines[1].path, "/new/engine");
    assert_eq!(s.engines[1].saved_options.as_ref().unwrap().len(), 9);
    assert_eq!(s.engines[0].path, "/e/a");
}

#[test]
fn manifest_with_engine_binary_is_recognized() {
    let yes = "[package]\nname = \"x\"\n\n[[bin]]\nname = \"usi-engine\"\npath = \"src/main.rs\"\n";
    assert!(declares_engine_binary(yes));
    let windows = "[[bin]]\r\npath = \"a\"\r\nname = 'usi-engine'\r\n";
    assert!(declares_engine_binary(windows));
    let far = "[[bin]]\na\nb\nc\nd\nname = \"usi-engine\"\n";
    assert!(!declares_engine_binary(far));
    let near = "  [[bin]]  \na\nb\nc\nname = \"usi-engine\"";
    assert!(declares_engine_binary(near));
    assert!(!declares_engine_binary("name = \"usi-engine\"\n[[bin]]\n"));
    assert!(!declares_engine_binary(""));
    assert!(!declares_engine_binary("[[bin]]\nname = \"other\"\n"));
}
