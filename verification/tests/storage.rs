use peas::markdown::FrontmatterFormat;
use peas::cache::PeaCache;
use peas::config::{IdMode, PeasConfig, PeasSettings, TuiSettings};
use peas::model::{Pea, PeaStatus, PeaType, Timestamp};
use peas::error::PeasError;
use peas::storage::{check_not_stale, filename_with_slug, sort_by_created, stale_error, PeaRepository};

fn config(prefix: &str, id_length: usize, id_mode: IdMode) -> PeasConfig {
    PeasConfig {
        peas: PeasSettings {
            path: None,
            prefix: prefix.to_string(),
            id_length,
            id_mode,
            default_status: "todo".to_string(),
            default_type: "task".to_string(),
            frontmatter: "toml".to_string(),
        },
        tui: TuiSettings::default(),
    }
}

fn setup_test_repo() -> PeaRepository {
    PeaRepository::new(&config("test-", 5, IdMode::Random), "/tmp/project")
}

fn setup_sequential_repo() -> PeaRepository {
    PeaRepository::new(&config("peas-", 5, IdMode::Sequential), "/tmp/project")
}

/// Generates an id as the store does, threading the counter file's content.
fn next_id(repo: &PeaRepository, counter: &mut Option<String>) -> String {
    let (id, n) = repo.generate_id(counter.as_deref());
    if let Some(n) = n {
        *counter = Some(n.to_string());
    }
    id
}

#[test]
fn test_generate_random_id() {
    let repo = setup_test_repo();
    let mut counter = None;

    let id1 = next_id(&repo, &mut counter);
    let id2 = next_id(&repo, &mut counter);

    assert!(id1.starts_with("test-"));
    assert!(id2.starts_with("test-"));
    assert_eq!(id1.len(), 10);
    assert_ne!(id1, id2);
}

#[test]
fn test_generate_sequential_id() {
    let repo = setup_sequential_repo();
    let mut counter = None;

    let id1 = next_id(&repo, &mut counter);
    let id2 = next_id(&repo, &mut counter);
    let id3 = next_id(&repo, &mut counter);

    assert_eq!(id1, "peas-00001");
    assert_eq!(id2, "peas-00002");
    assert_eq!(id3, "peas-00003");
}

#[test]
fn test_sequential_id_persists_across_repos() {
    let cfg = config("peas-", 5, IdMode::Sequential);
    let mut counter = None;

    let repo1 = PeaRepository::new(&cfg, "/tmp/project");
    let id1 = next_id(&repo1, &mut counter);
    let id2 = next_id(&repo1, &mut counter);
    assert_eq!(id1, "peas-00001");
    assert_eq!(id2, "peas-00002");

    let repo2 = PeaRepository::new(&cfg, "/tmp/project");
    let id3 = next_id(&repo2, &mut counter);
    let id4 = next_id(&repo2, &mut counter);
    assert_eq!(id3, "peas-00003");
    assert_eq!(id4, "peas-00004");
}

#[test]
fn test_sequential_id_respects_length() {
    let repo = PeaRepository::new(&config("t-", 3, IdMode::Sequential), "/tmp/project");
    let id = repo.generate_id(None).0;
    assert_eq!(id, "t-001");
}

#[test]
fn sequential_counter_reads_trimmed_and_bad_content() {
    let repo = setup_sequential_repo();
    assert_eq!(repo.generate_id(Some(" 41\n")).0, "peas-00042");
    assert_eq!(repo.generate_id(Some("garbage")).0, "peas-00001");
    assert_eq!(repo.generate_sequential_suffix(Some("123456")).1, "123457");
}

fn stamped(id: &str, secs: i64) -> Pea {
    let mut p = Pea::new(id.to_string(), "Original Title".to_string(), PeaType::Task);
    p.updated = Timestamp { secs, nanos: 0 };
    p.created = Timestamp { secs, nanos: 0 };
    p
}

#[test]
fn test_concurrent_edit_detection_rejects_stale_update() {
    let stored = stamped("test-12345", 200);
    let mut mine = stamped("test-12345", 100);
    mine.title = "Modified by Instance 2".to_string();
    let result = check_not_stale(&mine, &stored);
    assert!(result.is_err());
    let err_msg = result.unwrap_err().to_string();
    assert!(err_msg.contains("Concurrent modification detected"));
    assert!(err_msg.contains("test-12345"));
    assert!(err_msg.contains("reload and try again"));
}

#[test]
fn test_concurrent_edit_detection_allows_reload() {
    let stored = stamped("test-67890", 300);
    let mut reloaded = stored.clone();
    reloaded.title = "Modified by Instance 2 after reload".to_string();
    assert!(check_not_stale(&reloaded, &stored).is_ok());
}

#[test]
fn test_no_false_positive_on_same_timestamp() {
    let stored = stamped("test-abcde", 5);
    let mut mine = stored.clone();
    mine.status = PeaStatus::InProgress;
    assert!(check_not_stale(&mine, &stored).is_ok());
}

#[test]
fn test_cache_get_by_id_o1_lookup() {
    let mut cache = PeaCache::new();
    let pea = Pea::new("test-cache".to_string(), "Cached Pea".to_string(), PeaType::Task);
    cache.update_pea(&pea);
    assert_eq!(cache.get_by_id("test-cache").unwrap().title, "Cached Pea");
    assert_eq!(cache.get_by_id("test-cache").unwrap().id, pea.id);
}

#[test]
fn test_cache_update_maintains_consistency() {
    let mut cache = PeaCache::new();
    let mut pea = Pea::new("test-update".to_string(), "Original Title".to_string(), PeaType::Task);
    cache.set_list(vec![pea.clone()]);
    pea.title = "Updated Title".to_string();
    cache.update_pea(&pea);
    assert_eq!(cache.get_by_id("test-update").unwrap().title, "Updated Title");
    let list = cache.get_list().unwrap();
    let found = list.iter().find(|p| p.id == "test-update").unwrap();
    assert_eq!(found.title, "Updated Title");
}

#[test]
fn test_cache_delete_removes_from_cache() {
    let mut cache = PeaCache::new();
    let pea = Pea::new("test-delete".to_string(), "To Delete".to_string(), PeaType::Task);
    cache.set_list(vec![pea.clone()]);
    assert!(cache.get_by_id("test-delete").is_some());
    cache.remove_pea("test-delete");
    assert!(cache.get_by_id("test-delete").is_none());
    assert!(!cache.get_list().unwrap().iter().any(|p| p.id == "test-delete"));
}

#[test]
fn test_cache_invalidate_clears_all() {
    let mut cache = PeaCache::new();
    let peas: Vec<Pea> = (0..3)
        .map(|i| Pea::new(format!("test-inv-{}", i), format!("Pea {}", i), PeaType::Task))
        .collect();
    cache.set_list(peas);
    assert_eq!(cache.get_list().unwrap().len(), 3);
    cache.invalidate();
    assert!(cache.get_list().is_none());
    assert!(cache.get_by_id("test-inv-0").is_none());
}

#[test]
fn cache_new_pea_drops_list() {
    let mut cache = PeaCache::new();
    cache.set_list(vec![Pea::new("a-1".to_string(), "A".to_string(), PeaType::Task)]);
    cache.update_pea(&Pea::new("a-2".to_string(), "B".to_string(), PeaType::Task));
    assert!(cache.get_list().is_none());
    assert_eq!(cache.get_by_id("a-2").unwrap().title, "B");
}

#[test]
fn cache_set_list_keeps_last_duplicate() {
    let mut cache = PeaCache::new();
    let a = Pea::new("d-1".to_string(), "first".to_string(), PeaType::Task);
    let b = Pea::new("d-1".to_string(), "second".to_string(), PeaType::Task);
    cache.set_list(vec![a, b]);
    assert_eq!(cache.get_by_id("d-1").unwrap().title, "second");
}

#[test]
fn filenames_and_lookup() {
    let repo = setup_test_repo();
    assert_eq!(repo.generate_filename("test-1", "Hello, World!"), "test-1--hello-world.md");
    let long = "a".repeat(80);
    assert_eq!(repo.generate_filename("test-2", &long), format!("test-2--{}.md", "a".repeat(50)));
    let names = vec!["other.md".to_string(), "test-abc--x.md".to_string()];
    assert_eq!(repo.find_file_by_id(&names, "abc").unwrap(), 1);
    assert_eq!(repo.find_file_by_id(&names, "test-abc").unwrap(), 1);
    assert_eq!(repo.find_file_by_id(&names, "zzz").unwrap_err().to_string(), "Pea not found: zzz");
    assert!(repo.is_pea_file("test-abc--x.md"));
    assert!(!repo.is_pea_file("other.md"));
}

#[test]
fn listing_sorted_by_creation_stable() {
    let a = stamped("p-a", 30);
    let b = stamped("p-b", 10);
    let c = stamped("p-c", 30);
    let d = stamped("p-d", -5);
    let sorted = sort_by_created(vec![a, b, c, d]);
    let ids: Vec<&str> = sorted.iter().map(|p| p.id.as_str()).collect();
    assert_eq!(ids, vec!["p-d", "p-b", "p-a", "p-c"]);
}

#[test]
fn written_file_is_found_unless_shadowed() {
    let repo = setup_test_repo();
    let name = repo.generate_filename("test-abc1", "Some Title");
    assert!(repo.is_pea_file(&name));
    let names = vec!["other.md".to_string(), name.clone()];
    assert_eq!(repo.find_file_by_id(&names, "test-abc1").unwrap(), 1);
    let shadowed = vec!["test-abc12--longer.md".to_string(), name];
    assert_eq!(repo.find_file_by_id(&shadowed, "test-abc1").unwrap(), 0);
}

#[test]
fn stale_message_shows_both_times() {
    let stored = stamped("test-1", 200);
    let mine = stamped("test-1", 100);
    let msg = check_not_stale(&mine, &stored).unwrap_err().to_string();
    assert_eq!(
        msg,
        "Storage error: Concurrent modification detected for pea 'test-1'. The file was modified by another process.\nYour version was updated at: 1970-01-01 00:01:40 UTC\nCurrent version was updated at: 1970-01-01 00:03:20 UTC\nPlease reload and try again."
    );
    let mut odd = stamped("test-1", 100);
    odd.updated = Timestamp { secs: i64::MAX, nanos: 1 };
    let msg = check_not_stale(&odd, &stored).unwrap_err().to_string();
    assert!(msg.contains("Your version was updated at: 9223372036854775807.000000001\n"));
}

#[test]
fn file_names_from_slugs_and_stale_errors() {
    assert_eq!(filename_with_slug("p-1", "my-title"), "p-1--my-title.md");
    assert_eq!(filename_with_slug("p-2", ""), "p-2--.md");
    let long = "x".repeat(51);
    assert_eq!(filename_with_slug("p-3", &long), format!("p-3--{}.md", "x".repeat(50)));
    match stale_error("p-1", "then", "now") {
        PeasError::Storage(m) => assert_eq!(
            m,
            "Concurrent modification detected for pea 'p-1'. The file was modified by another process.\nYour version was updated at: then\nCurrent version was updated at: now\nPlease reload and try again."
        ),
        other => panic!("unexpected {:?}", other),
    }
}

#[test]
fn test_cache_list_caching() {
    let mut cache = PeaCache::new();
    let peas: Vec<Pea> = (0..3)
        .map(|i| {
            let mut pea = Pea::new(format!("test-{}", i), format!("Pea {}", i), PeaType::Task);
            pea.body = format!("Body {}", i);
            pea
        })
        .collect();
    assert!(cache.get_list().is_none());
    cache.set_list(peas);
    let list1 = cache.get_list().unwrap().clone();
    assert_eq!(list1.len(), 3);
    let list2 = cache.get_list().unwrap();
    assert_eq!(list2.len(), 3);
    assert_eq!(&list1, list2);
    for (i, pea) in list2.iter().enumerate().take(3) {
        assert_eq!(pea.title, format!("Pea {}", i));
    }
}

#[test]
fn test_cache_exists_check() {
    let mut cache = PeaCache::new();
    let pea = Pea::new("test-exists".to_string(), "Exists Pea".to_string(), PeaType::Task);
    cache.update_pea(&pea);
    assert!(cache.get_by_id("test-exists").is_some());
    let _cached = cache.get_by_id("test-exists").unwrap();
    assert!(cache.get_by_id("test-exists").is_some());
    assert!(cache.get_by_id("test-nonexistent").is_none());
}

#[test]
fn test_cache_archive_removes_from_active_cache() {
    let mut active = PeaCache::new();
    let pea = Pea::new("test-archive".to_string(), "To Archive".to_string(), PeaType::Task);
    active.set_list(vec![pea.clone()]);
    let _loaded = active.get_by_id("test-archive").unwrap();
    assert!(active.get_list().unwrap().iter().any(|p| p.id == "test-archive"));
    // archiving takes the ticket out of the active cache ...
    active.remove_pea("test-archive");
    assert!(!active.get_list().unwrap().iter().any(|p| p.id == "test-archive"));
    assert!(active.get_by_id("test-archive").is_none());
    // ... and the archive's listing holds it
    let mut archived = PeaCache::new();
    archived.set_list(vec![pea]);
    assert!(archived.get_list().unwrap().iter().any(|p| p.id == "test-archive"));
}

#[test]
fn frontmatter_setting_names_the_format() {
    let with = |f: &str| PeasSettings { frontmatter: f.to_string(), ..PeasSettings::default() }.frontmatter_format();
    assert_eq!(with("toml"), FrontmatterFormat::Toml);
    assert_eq!(with("json"), FrontmatterFormat::Json);
    assert_eq!(with("yaml"), FrontmatterFormat::Yaml);
    assert_eq!(with("other"), FrontmatterFormat::Yaml);
}

#[test]
fn rewrite_keeps_the_file_format() {
    let repo = setup_test_repo();
    assert_eq!(repo.rewrite_format("---\ntitle: x\n---\n"), FrontmatterFormat::Yaml);
    assert_eq!(repo.rewrite_format("{\n  \"id\": 1\n}\n"), FrontmatterFormat::Json);
    assert_eq!(repo.rewrite_format("no frame"), FrontmatterFormat::Toml);
}

#[test]
fn error_messages_of_outside_failures() {
    assert_eq!(PeasError::Io("denied".to_string()).message(), "IO error: denied");
    assert_eq!(PeasError::Yaml("bad".to_string()).message(), "YAML error: bad");
    assert_eq!(PeasError::Json("eof".to_string()).to_string(), "JSON error: eof");
}
