use peas::config::{ConfigSyntax, FsProbe, PeasConfig};
use peas::error::PeasError;
use peas::graphql::{self, apply_update_input, pea_from_input, project_stats, select_peas, CreatePeaInput, PeaFilter, UpdatePeaInput};
use peas::memory::{list_memories, search_memories, MemoryRepository};
use peas::model::{Memory, Pea, PeaStatus, PeaType, Timestamp};
use peas::cli::{ListParams, PeaPriorityArg, PeaStatusArg, PeaTypeArg};
use peas::model::PeaPriority;
use peas::query::{filter_peas, list_criteria, paginate, text_search, Criteria};
use peas::roadmap::{first_line, roadmap, status_icon};
use peas::suggest::{suggest, Suggestion};

fn s(x: &str) -> String {
    x.to_string()
}

fn pea(id: &str, t: PeaType) -> Pea {
    Pea::new(s(id), s(id), t)
}

fn none_criteria() -> Criteria {
    Criteria { pea_type: None, status: None, priority: None, parent: None, tag: None, is_open: None, updated_before: None }
}

#[test]
fn criteria_filtering() {
    let mut a = pea("a-1", PeaType::Bug);
    a.tags = vec![s("ui")];
    let mut b = pea("a-2", PeaType::Bug);
    b.status = PeaStatus::Completed;
    let c = pea("a-3", PeaType::Task);
    let mut crit = none_criteria();
    crit.pea_type = Some(PeaType::Bug);
    let r = filter_peas(vec![a.clone(), b.clone(), c.clone()], &crit);
    assert_eq!(r.iter().map(|p| p.id.as_str()).collect::<Vec<_>>(), vec!["a-1", "a-2"]);
    let mut crit = none_criteria();
    crit.is_open = Some(true);
    crit.tag = Some(s("ui"));
    let r = filter_peas(vec![a.clone(), b.clone(), c.clone()], &crit);
    assert_eq!(r.len(), 1);
    let mut crit = none_criteria();
    crit.updated_before = Some(Timestamp { secs: 0, nanos: 0 });
    assert!(filter_peas(vec![a, b, c], &crit).is_empty());
}

#[test]
fn search_and_paging() {
    let mut a = pea("s-1", PeaType::Task);
    a.title = s("Login FAILS");
    let mut b = pea("s-2", PeaType::Task);
    b.body = s("login is slow");
    let c = pea("s-3", PeaType::Task);
    let hits = text_search(vec![a.clone(), b.clone(), c.clone()], "login", 50);
    assert_eq!(hits.len(), 2);
    let one = text_search(vec![a.clone(), b.clone(), c.clone()], "LOGIN", 1);
    assert_eq!(one[0].id, "s-1");
    let page = paginate(vec![a.clone(), b.clone(), c.clone()], 1, 5);
    assert_eq!(page.iter().map(|p| p.id.as_str()).collect::<Vec<_>>(), vec!["s-2", "s-3"]);
    assert!(paginate(vec![a, b, c], 9, 5).is_empty());
}

#[test]
fn graphql_selection_and_stats() {
    let peas = vec![pea("g-1", PeaType::Bug), pea("g-2", PeaType::Task), pea("g-3", PeaType::Bug)];
    let filter = PeaFilter { pea_type: Some(graphql::PeaType::Bug), status: None, priority: None, parent: None, tag: None, is_open: None };
    let (nodes, total) = select_peas(peas.clone(), Some(&filter), Some(1), Some(1));
    assert_eq!(total, 2);
    assert_eq!(nodes.len(), 1);
    assert_eq!(nodes[0].id, "g-3");
    let (all, total) = select_peas(peas.clone(), None, None, None);
    assert_eq!((all.len(), total), (3, 3));
    let stats = project_stats(&peas);
    assert_eq!(stats.total, 3);
    assert_eq!(stats.by_type.bug, 2);
    assert_eq!(stats.by_type.task, 1);
    assert_eq!(stats.by_status.todo, 3);
}

#[test]
fn graphql_mutation_logic() {
    let input = CreatePeaInput {
        title: s("From API"),
        pea_type: None,
        status: Some(graphql::PeaStatus::Draft),
        priority: None,
        body: None,
        parent: Some(s("g-0")),
        blocking: Some(vec![]),
        tags: Some(vec![s("api")]),
    };
    let p = pea_from_input(s("g-9"), input, &peas::config::PeasSettings::default());
    assert_eq!(p.pea_type, PeaType::Task);
    assert_eq!(p.status, PeaStatus::Draft);
    assert_eq!(p.parent, Some(s("g-0")));
    assert_eq!(p.tags, vec![s("api")]);
    let at = Timestamp { secs: 99, nanos: 1 };
    let upd = UpdatePeaInput {
        id: s("g-9"),
        title: None,
        pea_type: Some(graphql::PeaType::Epic),
        status: None,
        priority: None,
        body: None,
        parent: Some(s("")),
        blocking: None,
        add_tags: Some(vec![s("x"), s("api")]),
        remove_tags: Some(vec![s("api")]),
    };
    let q = apply_update_input(p, upd, at);
    assert_eq!(q.pea_type, PeaType::Epic);
    assert_eq!(q.parent, None);
    assert_eq!(q.tags, vec![s("x")]);
    assert_eq!(q.updated, at);
}

#[test]
fn memory_listing_and_search() {
    let mut m1 = Memory::new(s("alpha"));
    m1.updated = Timestamp { secs: 5, nanos: 0 };
    m1.tags = vec![s("db")];
    let mut m2 = Memory::new(s("beta"));
    m2.updated = Timestamp { secs: 9, nanos: 0 };
    m2.content = s("Uses Postgres");
    let mut m3 = Memory::new(s("gamma"));
    m3.updated = Timestamp { secs: 5, nanos: 0 };
    m3.tags = vec![s("db")];
    let listed = list_memories(vec![m1.clone(), m2.clone(), m3.clone()], None);
    assert_eq!(listed.iter().map(|m| m.key.as_str()).collect::<Vec<_>>(), vec!["beta", "alpha", "gamma"]);
    let tagged = list_memories(vec![m1.clone(), m2.clone(), m3.clone()], Some("db"));
    assert_eq!(tagged.iter().map(|m| m.key.as_str()).collect::<Vec<_>>(), vec!["alpha", "gamma"]);
    let found = search_memories(vec![m1, m2, m3], "POSTGRES");
    assert_eq!(found.len(), 1);
    assert_eq!(found[0].key, "beta");
}

#[test]
fn memory_keys() {
    let repo = MemoryRepository::new(&PeasConfig::default(), "/p");
    assert!(repo.validate_key("notes").is_ok());
    assert_eq!(repo.validate_key("").unwrap_err(), PeasError::Validation(s("Key cannot be empty")));
    assert_eq!(
        repo.validate_key("a/b").unwrap_err(),
        PeasError::Validation(s("Key contains invalid characters for filenames"))
    );
    assert_eq!(repo.validate_key("a..b").unwrap_err(), PeasError::Validation(s("Key cannot contain '..'")));
    assert_eq!(repo.get_file_path("notes"), "/p/.peas/memory/notes.md");
}

#[test]
fn config_paths_and_search() {
    let cfg = PeasConfig::default();
    assert_eq!(cfg.data_path("/w"), "/w/.peas");
    assert_eq!(cfg.archive_path("/w"), "/w/.peas/archive");
    assert_eq!(cfg.peas.prefix, "peas-");
    assert_eq!(cfg.peas.id_length, 5);
    let probe = FsProbe { dirs: vec![s("/w/.peas")], files: vec![s("/w/.peas/config.yml"), s("/.peas.toml")] };
    assert_eq!(PeasConfig::find_config_file("/w/sub", &probe).unwrap(), (s("/w/.peas/config.yml"), false));
    assert_eq!(PeasConfig::find_config_file("/x/y", &probe).unwrap(), (s("/.peas.toml"), true));
    assert_eq!(PeasConfig::find_config_file("/w", &probe).unwrap(), (s("/w/.peas/config.yml"), false));
    let nothing = FsProbe { dirs: vec![], files: vec![] };
    assert_eq!(PeasConfig::find_config_file("/a/b", &nothing).unwrap_err(), PeasError::NotInitialized);
}

#[test]
fn roadmap_structure() {
    let m = pea("m-1", PeaType::Milestone);
    let mut e = pea("e-1", PeaType::Epic);
    e.parent = Some(s("m-1"));
    let mut t = pea("t-1", PeaType::Task);
    t.parent = Some(s("e-1"));
    t.status = PeaStatus::InProgress;
    let r = roadmap(&vec![t.clone(), e, m]);
    assert_eq!(r.len(), 1);
    assert_eq!(r[0].milestone, 2);
    assert_eq!(r[0].epics[0].epic, 1);
    assert_eq!(r[0].epics[0].tasks, vec![0]);
    assert_eq!(status_icon(t.status), "[-]");
    assert_eq!(first_line("line one\nline two"), "line one");
    assert_eq!(first_line(""), "");
}

#[test]
fn suggestion_prefers_unblocked_high_priority() {
    let mut a = pea("x-1", PeaType::Task);
    a.priority = peas::model::PeaPriority::High;
    let b = pea("x-2", PeaType::Task);
    match suggest(&vec![b, a], 1) {
        Suggestion::Ranked(items) => {
            assert_eq!(items.len(), 1);
            assert_eq!(items[0].index, 1);
        }
        other => panic!("unexpected {:?}", other),
    }
    assert!(matches!(suggest(&vec![], 3), Suggestion::Nothing));
}

#[test]
fn suggestion_skips_tickets_an_open_ticket_blocks() {
    let mut a = pea("x-1", PeaType::Task);
    a.blocking = vec![s("x-2")];
    let b = pea("x-2", PeaType::Task);
    match suggest(&vec![a.clone(), b.clone()], 2) {
        Suggestion::Ranked(items) => {
            assert_eq!(items.len(), 1);
            assert_eq!(items[0].index, 0);
            assert_eq!(items[0].blocks_count, 1);
            assert_eq!(items[0].reason, "Blocking 1 ticket(s)");
        }
        other => panic!("unexpected {:?}", other),
    }
    let mut done = a;
    done.status = peas::model::PeaStatus::Completed;
    match suggest(&vec![done, b], 2) {
        Suggestion::Ranked(items) => {
            assert_eq!(items.len(), 1);
            assert_eq!(items[0].index, 1);
            assert_eq!(items[0].reason, "Next in queue");
        }
        other => panic!("unexpected {:?}", other),
    }
}

#[test]
fn list_filters_by_given_params() {
    let params = ListParams {
        pea_type: Some(PeaTypeArg::Bug),
        status: Some(PeaStatusArg::InProgress),
        priority: Some(PeaPriorityArg::High),
        parent: Some(s("p-1")),
        tag: Some(s("ui")),
        archived: false,
        json: false,
    };
    let c = list_criteria(&params);
    assert_eq!(c.pea_type, Some(PeaType::Bug));
    assert_eq!(c.status, Some(PeaStatus::InProgress));
    assert_eq!(c.priority, Some(PeaPriority::High));
    assert_eq!(c.parent.as_deref(), Some("p-1"));
    assert_eq!(c.tag.as_deref(), Some("ui"));
    assert_eq!(c.is_open, None);
    let mut hit = pea("p-2", PeaType::Bug);
    hit.status = PeaStatus::InProgress;
    hit.priority = PeaPriority::High;
    hit.parent = Some(s("p-1"));
    hit.tags = vec![s("ui")];
    let mut miss = hit.clone();
    miss.id = s("p-3");
    miss.tags = vec![];
    let r = filter_peas(vec![hit, miss], &c);
    assert_eq!(r.len(), 1);
    assert_eq!(r[0].id, "p-2");
    let open = ListParams { pea_type: None, status: None, priority: None, parent: None, tag: None, archived: true, json: true };
    let all = filter_peas(vec![pea("q-1", PeaType::Task), pea("q-2", PeaType::Epic)], &list_criteria(&open));
    assert_eq!(all.len(), 2);
}

#[test]
fn raw_time_text() {
    assert_eq!(Timestamp { secs: -12, nanos: 5 }.raw_text(), "-12.000000005");
    assert_eq!(Timestamp { secs: 3, nanos: 120 }.raw_text(), "3.000000120");
    assert_eq!(Timestamp { secs: i64::MIN, nanos: 0 }.raw_text(), "-9223372036854775808.000000000");
    let mut p = pea("t-1", PeaType::Task);
    p.created = Timestamp { secs: 0, nanos: 0 };
    p.updated = Timestamp { secs: i64::MAX, nanos: 7 };
    let shown = graphql::show_pea(p);
    assert_eq!(shown.created, "1970-01-01T00:00:00+00:00");
    assert_eq!(shown.updated, "9223372036854775807.000000007");
}

#[test]
fn config_file_syntax_and_root() {
    assert_eq!(PeasConfig::syntax_of_file("/w/.peas/config.toml"), ConfigSyntax::Toml);
    assert_eq!(PeasConfig::syntax_of_file("/w/.peas.json"), ConfigSyntax::Json);
    assert_eq!(PeasConfig::syntax_of_file("/w/.peas/config.yml"), ConfigSyntax::Yaml);
    assert_eq!(PeasConfig::syntax_of_file("/w/config"), ConfigSyntax::Yaml);
    assert_eq!(PeasConfig::project_root("/w/.peas/config.toml", false).unwrap(), "/w");
    assert_eq!(PeasConfig::project_root("/w/.peas.yml", true).unwrap(), "/w");
    assert_eq!(
        PeasConfig::project_root("/", true).unwrap_err(),
        PeasError::Config(s("Config file has no parent directory"))
    );
}
