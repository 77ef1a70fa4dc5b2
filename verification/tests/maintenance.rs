use peas::archive::{collect_descendants, cutoff_before, Period};
use peas::beans::{beans_document, beans_fields, beans_filename, beans_to_pea, extract_beans_id, split_beans, BeansFields};
use peas::config::{IdMode, SCHEMA_URL};
use peas::doctor::{
    add_schema_directive, check_counter, check_frame, check_integrity, fix_malformed_array, id_styles,
    inspect_config, pea_issues, summarize_format, CounterVerdict, FormatIssue, FrameVerdict,
};
use peas::json::{migrate_json, migrate_json_config, JsonValue};
use peas::migrate::{migrate_config_content, migrate_plan, migrate_toml_config, migrate_yaml_config, MigratePlan, Migration};
use peas::model::{Pea, PeaPriority, PeaStatus, PeaType, Timestamp};
use peas::rename::{check_new_suffix, rename_ids, rewrite_references, rewrite_undo};

fn s(x: &str) -> String {
    x.to_string()
}

fn pea(id: &str) -> Pea {
    Pea::new(s(id), s("T"), PeaType::Task)
}

#[test]
fn malformed_array_fix() {
    let fm = "id = \"peas-1\"\nblocking = [\"peas-a, peas-b,peas-c\"]\n";
    assert_eq!(
        fix_malformed_array(fm, "blocking"),
        Some(s("id = \"peas-1\"\nblocking = [\"peas-a\", \"peas-b\", \"peas-c\"]\n"))
    );
    assert_eq!(fix_malformed_array("tags = [\"a\", \"b\"]", "tags"), None);
    assert_eq!(fix_malformed_array("tags = [\"a\"]", "tags"), None);
    assert_eq!(fix_malformed_array("nothing here", "tags"), None);
}

#[test]
fn frame_check_reports_and_repairs() {
    match check_frame("x.md", "no frontmatter", false) {
        FrameVerdict::Broken(i) => assert_eq!(i.message, "Missing frontmatter delimiters"),
        _ => panic!(),
    }
    match check_frame("x.md", "+++\nid = 1\n", false) {
        FrameVerdict::Broken(i) => assert_eq!(i.message, "Malformed frontmatter structure"),
        _ => panic!(),
    }
    let doc = "+++\ntags = [\"a,b\"]\n+++\nbody";
    match check_frame("x.md", doc, false) {
        FrameVerdict::Framed { issues, repaired } => {
            assert_eq!(issues.len(), 1);
            assert!(issues[0].fixable);
            assert_eq!(
                issues[0].message,
                "Malformed tags array: contains comma-separated string instead of array elements"
            );
            assert!(repaired.is_none());
        }
        _ => panic!(),
    }
    match check_frame("x.md", doc, true) {
        FrameVerdict::Framed { issues, repaired } => {
            assert!(issues.is_empty());
            assert_eq!(repaired, Some(s("+++\ntags = [\"a\", \"b\"]\n+++\nbody")));
        }
        _ => panic!(),
    }
}

#[test]
fn field_issues_of_a_ticket() {
    let mut p = pea("nodash");
    p.title = s("");
    p.parent = Some(s("bad"));
    p.blocking = vec![s(""), s("a,b"), s("peas-ok")];
    let issues = pea_issues("f.md", &p);
    let msgs: Vec<(&str, bool)> = issues.iter().map(|i| (i.message.as_str(), i.fixable)).collect();
    assert_eq!(
        msgs,
        vec![
            ("ID 'nodash' missing prefix separator", false),
            ("Empty ticket title", false),
            ("Parent 'bad' has invalid ID format", false),
            ("Empty blocking reference", false),
            ("Blocking 'a,b' appears to be comma-separated (should be array)", true),
        ]
    );
}

#[test]
fn format_summary_lines() {
    let issues = vec![
        FormatIssue { filename: s("a.md"), message: s("Empty ticket title"), fixable: false },
        FormatIssue { filename: s("b.md"), message: s("Malformed tags array"), fixable: true },
    ];
    let sum = summarize_format(3, &issues, 0, false);
    assert!(!sum.passed);
    assert_eq!(sum.headline, "2 format issues (1 auto-fixable with --fix)");
    assert_eq!(sum.details, vec![s("a.md: Empty ticket title"), s("b.md: Malformed tags array [fixable]")]);
    let only_fixable = vec![FormatIssue { filename: s("b.md"), message: s("Malformed tags array"), fixable: true }];
    let fixed = summarize_format(3, &only_fixable, 1, true);
    assert!(fixed.passed);
    assert_eq!(fixed.headline, "Fixed 1 issues, all 3 tickets now well-formed");
    let clean = summarize_format(4, &vec![], 0, false);
    assert_eq!(clean.headline, "All 4 tickets are well-formed");
}

#[test]
fn integrity_finds_duplicates_and_orphans() {
    let mut a = pea("p-1");
    a.parent = Some(s("p-9"));
    a.blocking = vec![s("p-2"), s("p-8")];
    let b = pea("p-2");
    let c = pea("p-1");
    let r = check_integrity(&vec![a, b, c]);
    assert_eq!(r.duplicates, vec![s("p-1")]);
    assert_eq!(r.orphan_parents, vec![(s("p-1"), s("p-9"))]);
    assert_eq!(r.orphan_blocking, vec![(s("p-1"), s("p-8"))]);
    assert!(r.any_parent && r.any_blocking);
}

#[test]
fn id_style_classification() {
    let st = id_styles(&vec![pea("peas-00042"), pea("peas-a1b2c"), pea("x-7"), pea("plain")]);
    assert_eq!(st.sequential, vec![s("peas-00042"), s("x-7")]);
    assert_eq!(st.random, vec![s("peas-a1b2c"), s("plain")]);
}

#[test]
fn counter_check() {
    let names = vec![s("peas-00042--title.md"), s("peas-abcde--x.md"), s("peas-00007--y.md")];
    assert!(matches!(check_counter("40\n", &names), CounterVerdict::Behind { counter: 40, highest: 42 }));
    assert!(matches!(check_counter("42", &names), CounterVerdict::InSync { counter: 42, highest: 42 }));
    assert!(matches!(check_counter("junk", &names), CounterVerdict::Behind { counter: 0, highest: 42 }));
    assert!(matches!(check_counter("3", &vec![s("peas-abc--t.md")]), CounterVerdict::NoSequential));
}

#[test]
fn config_inspection() {
    let c = format!("#:schema {}\n[peas]\npath = \".peas\"\n", SCHEMA_URL);
    let f = inspect_config(&c);
    assert!(f.has_schema && f.latest_schema && f.deprecated_path);
    let g = inspect_config("[peas]\nprefix = \"x-\"\n");
    assert!(!g.has_schema && !g.latest_schema && !g.deprecated_path);
    assert_eq!(add_schema_directive("a = 1"), format!("#:schema {}\n\na = 1", SCHEMA_URL));
}

#[test]
fn migrate_toml_and_yaml() {
    let toml = "[peas]\npath = \".peas\"\n# the path above\nprefix = \"p-\"\n\n\n\nid_length = 4";
    assert_eq!(
        migrate_toml_config(toml),
        format!("#:schema {}\n\n[peas]\nprefix = \"p-\"\n\nid_length = 4", SCHEMA_URL)
    );
    let with_schema = "#:schema old\n[peas]\n";
    assert_eq!(migrate_toml_config(with_schema), format!("#:schema {}\n[peas]", SCHEMA_URL));
    let yaml = "peas:\n  path: .peas\n  prefix: p-";
    assert_eq!(
        migrate_yaml_config(yaml),
        format!("# yaml-language-server: $schema={}\n\npeas:\n  prefix: p-", SCHEMA_URL)
    );
    assert!(matches!(migrate_config_content("{}", Some("json")), Migration::Json));
    match migrate_config_content("x", Some("ini")) {
        Migration::Text(t) => assert_eq!(t, "x"),
        _ => panic!(),
    }
}

#[test]
fn migrate_plans() {
    assert!(matches!(migrate_plan(false, &vec![false, false, false, false]), MigratePlan::NoConfig));
    assert!(matches!(migrate_plan(false, &vec![false, true, true, false]), MigratePlan::Migrate(1)));
    match migrate_plan(true, &vec![true, false, false, true]) {
        MigratePlan::AlreadyMigrated(v) => assert_eq!(v, vec![0, 3]),
        _ => panic!(),
    }
}

#[test]
fn rename_checks() {
    let ids = rename_ids("peas-", "peas-abc12", "xyz99");
    assert_eq!(ids.old_id, "peas-abc12");
    assert_eq!(ids.new_id, "peas-xyz99");
    assert_eq!(ids.new_suffix, "xyz99");
    assert_eq!(check_new_suffix("xyz99", 5, IdMode::Random, false), Ok(vec![]));
    assert_eq!(
        check_new_suffix("ab", 5, IdMode::Random, false),
        Err(s("Suffix length 2 does not match configured id_length 5. Use --force to override."))
    );
    assert_eq!(
        check_new_suffix("abcde", 5, IdMode::Sequential, false),
        Err(s("Suffix 'abcde' contains non-digits but id_mode is 'sequential'. Use --force to override."))
    );
    assert_eq!(
        check_new_suffix("12", 5, IdMode::Random, true),
        Ok(vec![
            s("Suffix '12' is all digits (unusual for random mode)"),
            s("Suffix length 2 differs from configured id_length 5"),
        ])
    );
}

#[test]
fn rename_rewrites_references() {
    let mut child = pea("p-2");
    child.parent = Some(s("p-1"));
    let mut blocker = pea("p-3");
    blocker.blocking = vec![s("p-1"), s("p-2"), s("p-1")];
    let renamed = pea("p-1");
    let unrelated = pea("p-4");
    let r = rewrite_references(&vec![renamed, child, blocker, unrelated], "p-1", "p-9");
    assert_eq!(r.parents, 1);
    assert_eq!(r.blocking, 1);
    assert_eq!(r.to_save.len(), 2);
    assert_eq!(r.to_save[0].parent, Some(s("p-9")));
    assert_eq!(r.to_save[1].blocking, vec![s("p-9"), s("p-2"), s("p-9")]);
    assert_eq!(
        rewrite_undo("id p-1 at p-1--t.md", "p-1", "p-9", "p-1--t.md", "p-9--t.md"),
        Some(s("id p-9 at p-9--t.md"))
    );
    assert_eq!(rewrite_undo("nothing", "p-1", "p-9", "a", "b"), None);
}

#[test]
fn descendants_in_walk_order() {
    let root = pea("r-0");
    let mut a = pea("r-1");
    a.parent = Some(s("r-0"));
    let mut b = pea("r-2");
    b.parent = Some(s("r-0"));
    let mut c = pea("r-3");
    c.parent = Some(s("r-1"));
    let all = vec![root, a, b, c];
    assert_eq!(collect_descendants(&all, "r-0", 100), Some(vec![1, 2, 3]));
    let mut x = pea("c-1");
    x.parent = Some(s("c-2"));
    let mut y = pea("c-2");
    y.parent = Some(s("c-1"));
    assert_eq!(collect_descendants(&vec![x, y], "c-1", 50), None);
}

#[test]
fn cutoff_moves_back_whole_days() {
    let now = Timestamp { secs: 1_000_000, nanos: 5 };
    assert_eq!(cutoff_before(now, Period { days: 2 }), Some(Timestamp { secs: 1_000_000 - 172_800, nanos: 5 }));
}

#[test]
fn beans_import_pieces() {
    let content = "---\n# peas-test1\ntitle: Test Bean\nstatus: todo\n---\n\nThis is the body content.";
    let parts = split_beans(content, "peas-test1--test-bean.md").unwrap();
    assert_eq!(parts.id, "peas-test1");
    assert_eq!(parts.yaml, "title: Test Bean\nstatus: todo");
    assert_eq!(parts.body, "This is the body content.");
    assert_eq!(extract_beans_id("title: x", "peas-abc--title.md.md").unwrap(), "peas-abc");
    assert_eq!(
        extract_beans_id("title: x", "nodashes.md").unwrap_err().to_string(),
        "Parse error: Could not extract ID from file: nodashes.md"
    );
    assert!(split_beans("+++\nx\n+++", "a.md").is_err());
    let f = BeansFields {
        title: s("Child Task"),
        status: s("in-progress"),
        pea_type: s("nonsense"),
        priority: s("high"),
        created_at: Timestamp { secs: 10, nanos: 0 },
        updated_at: Timestamp { secs: 20, nanos: 0 },
        parent: Some(s("peas-parent")),
        tags: vec![],
        blocking: vec![s("peas-x")],
    };
    let p = beans_to_pea(s("peas-child"), f, s(""));
    assert_eq!(p.parent, Some(s("peas-parent")));
    assert_eq!(p.status, PeaStatus::InProgress);
    assert_eq!(p.pea_type, PeaType::Task);
    assert_eq!(p.priority, PeaPriority::High);
    assert_eq!(p.created, Timestamp { secs: 10, nanos: 0 });
    assert_eq!(p.blocking, vec![s("peas-x")]);
}

#[test]
fn beans_export_pieces() {
    let mut p = Pea::new(s("peas-export"), s("Export Test"), PeaType::Task);
    let doc = beans_document(&p, "title: Export Test\nstatus: todo\n");
    assert!(doc.starts_with("---\n# peas-export\n"));
    assert!(doc.contains("title: Export Test"));
    assert_eq!(doc, "---\n# peas-export\ntitle: Export Test\nstatus: todo\n---\n");
    p.body = s("Body");
    assert_eq!(beans_document(&p, "x: 1\n"), "---\n# peas-export\nx: 1\n---\n\nBody\n");
    assert_eq!(beans_filename(&p), "peas-export--export-test.md");
}

#[test]
fn rename_prefix_is_optional() {
    let with = rename_ids("peas-", "peas-abc12", "peas-xyz99");
    let without = rename_ids("peas-", "abc12", "xyz99");
    assert_eq!(with.old_id, without.old_id);
    assert_eq!(with.new_id, without.new_id);
    assert_eq!(with.new_suffix, "xyz99");
    let doubled = rename_ids("peas-", "peas-peas-x", "y");
    assert_eq!(doubled.old_id, "peas-peas-x");
}

#[test]
fn beans_export_then_import() {
    let mut p = Pea::new(s("peas-rt1"), s("Round Trip"), PeaType::Bug);
    p.body = s("Line one\n\nLine two");
    let yaml = "title: Round Trip\nstatus: todo\ntype: bug\n";
    let doc = beans_document(&p, yaml);
    let parts = split_beans(&doc, "ignored.md").unwrap();
    assert_eq!(parts.id, "peas-rt1");
    assert_eq!(parts.yaml, "title: Round Trip\nstatus: todo\ntype: bug");
    assert_eq!(parts.body, "Line one\n\nLine two");
    p.body = s("");
    let parts = split_beans(&beans_document(&p, yaml), "ignored.md").unwrap();
    assert_eq!(parts.body, "");
    assert_eq!(parts.id, "peas-rt1");
}

#[test]
fn json_config_migration_sets_schema_and_drops_path() {
    let out = migrate_json_config("{\"peas\": {\"path\": \".peas\", \"prefix\": \"p-\"}, \"tui\": {\"use_type_emojis\": true}}").unwrap();
    let expected = format!(
        "{{\n  \"$schema\": \"{}\",\n  \"peas\": {{\n    \"prefix\": \"p-\"\n  }},\n  \"tui\": {{\n    \"use_type_emojis\": true\n  }}\n}}",
        SCHEMA_URL
    );
    assert_eq!(out, expected);
    // an existing schema is replaced
    let out = migrate_json_config("{\"$schema\": \"old\", \"peas\": {\"prefix\": \"q-\", \"id_length\": 4}}").unwrap();
    let v: serde_json::Value = serde_json::from_str(&out).unwrap();
    assert_eq!(v["$schema"], serde_json::Value::String(SCHEMA_URL.to_string()));
    assert_eq!(v["peas"]["id_length"], serde_json::Value::from(4));
    assert!(v["peas"].get("path").is_none());
    // a value that is not an object is kept
    assert_eq!(migrate_json_config("[1, 2.5]").unwrap(), "[\n  1,\n  2.5\n]");
    assert!(migrate_json_config("{not json").is_err());
}

#[test]
fn json_value_migration() {
    let peas = JsonValue::Object(vec![
        ("path".to_string(), JsonValue::Str("x".to_string())),
        ("prefix".to_string(), JsonValue::Str("p-".to_string())),
    ]);
    let v = JsonValue::Object(vec![("peas".to_string(), peas), ("n".to_string(), JsonValue::Number("3".to_string()))]);
    match migrate_json(v, "S") {
        JsonValue::Object(es) => {
            assert_eq!(es.len(), 3);
            assert_eq!(es[0].0, "peas");
            match &es[0].1 {
                JsonValue::Object(ps) => {
                    assert_eq!(ps.len(), 1);
                    assert_eq!(ps[0].0, "prefix");
                }
                other => panic!("unexpected {:?}", other),
            }
            assert_eq!(es[1].0, "n");
            assert_eq!(es[2].0, "$schema");
            assert!(matches!(&es[2].1, JsonValue::Str(s) if s == "S"));
        }
        other => panic!("unexpected {:?}", other),
    }
    assert!(matches!(migrate_json(JsonValue::Bool(true), "S"), JsonValue::Bool(true)));
}

#[test]
fn undo_rewrite_with_an_empty_id() {
    // an empty id occurs at every character boundary, as with `str::replace`
    assert_eq!(rewrite_undo("ab", "", "-", "zz", "y"), Some(s("-a-b-")));
    assert_eq!(rewrite_undo("", "", "x", "q", "r"), Some(s("x")));
    assert_eq!(rewrite_undo("a.md", "", "", ".md", ".txt"), Some(s("a.txt")));
}

fn yaml_text(m: &serde_yaml::Value, key: &str) -> Option<String> {
    m.get(key).and_then(|v| v.as_str()).map(|v| v.to_string())
}

fn yaml_time(m: &serde_yaml::Value, key: &str) -> Timestamp {
    let t = chrono::DateTime::parse_from_rfc3339(&yaml_text(m, key).unwrap()).unwrap();
    Timestamp { secs: t.timestamp(), nanos: t.timestamp_subsec_nanos() }
}

fn yaml_list(m: &serde_yaml::Value, key: &str) -> Vec<String> {
    match m.get(key).and_then(|v| v.as_sequence()) {
        Some(xs) => xs.iter().filter_map(|x| x.as_str().map(|x| x.to_string())).collect(),
        None => vec![],
    }
}

/// Reads a beans file as the import does: framing and id by the library,
/// the fields from the YAML.
fn parse_beans_file(content: &str, filename: &str) -> Result<Pea, peas::error::PeasError> {
    let parts = split_beans(content, filename)?;
    let m: serde_yaml::Value = serde_yaml::from_str(&parts.yaml).unwrap();
    let f = BeansFields {
        title: yaml_text(&m, "title").unwrap(),
        status: yaml_text(&m, "status").unwrap(),
        pea_type: yaml_text(&m, "type").unwrap(),
        priority: yaml_text(&m, "priority").unwrap_or_else(|| s("normal")),
        created_at: yaml_time(&m, "created_at"),
        updated_at: yaml_time(&m, "updated_at"),
        parent: yaml_text(&m, "parent"),
        tags: yaml_list(&m, "tags"),
        blocking: yaml_list(&m, "blocking"),
    };
    Ok(beans_to_pea(parts.id, f, parts.body))
}

#[test]
fn test_parse_beans_file() {
    let content = "---\n# peas-test1\ntitle: Test Bean\nstatus: todo\ntype: task\npriority: normal\ncreated_at: 2026-01-18T12:00:00Z\nupdated_at: 2026-01-18T12:00:00Z\n---\n\nThis is the body content.";
    let pea = parse_beans_file(content, "peas-test1--test-bean.md").unwrap();
    assert_eq!(pea.id, "peas-test1");
    assert_eq!(pea.title, "Test Bean");
    assert_eq!(pea.status, PeaStatus::Todo);
    assert_eq!(pea.pea_type, PeaType::Task);
    assert_eq!(pea.body, "This is the body content.");
}

#[test]
fn test_parse_beans_with_parent() {
    let content = "---\n# peas-child\ntitle: Child Task\nstatus: in-progress\ntype: task\npriority: high\ncreated_at: 2026-01-18T12:00:00Z\nupdated_at: 2026-01-18T12:00:00Z\nparent: peas-parent\n---\n";
    let pea = parse_beans_file(content, "peas-child--child-task.md").unwrap();
    assert_eq!(pea.parent, Some("peas-parent".to_string()));
}

/// Writes a beans file as the export does: the fields as YAML, the framing
/// by the library.
fn export_to_beans(pea: &Pea) -> String {
    let mut m = serde_yaml::Mapping::new();
    m.insert(serde_yaml::Value::from("title"), serde_yaml::Value::from(pea.title.as_str()));
    m.insert(serde_yaml::Value::from("status"), serde_yaml::Value::from(pea.status.as_str()));
    m.insert(serde_yaml::Value::from("type"), serde_yaml::Value::from(pea.pea_type.as_str()));
    m.insert(serde_yaml::Value::from("priority"), serde_yaml::Value::from(pea.priority.as_str()));
    let yaml = serde_yaml::to_string(&serde_yaml::Value::Mapping(m)).unwrap();
    beans_document(pea, &yaml)
}

#[test]
fn test_export_to_beans() {
    let pea = Pea::new("peas-export".to_string(), "Export Test".to_string(), PeaType::Task);
    let output = export_to_beans(&pea);
    assert!(output.starts_with("---\n# peas-export\n"));
    assert!(output.contains("title: Export Test"));
    assert!(output.contains("status: todo"));
}

#[test]
fn doctor_accepts_json_frontmatter() {
    match check_frame("a.md", "{\n  \"id\": \"a\"\n}\n\nBody\n", false) {
        FrameVerdict::Framed { issues, repaired } => {
            assert!(issues.is_empty());
            assert!(repaired.is_none());
        }
        other => panic!("unexpected {:?}", other),
    }
    match check_frame("b.md", "{ \"id\": \"a\" }", true) {
        FrameVerdict::Broken(i) => assert_eq!(i.message, "Malformed frontmatter structure"),
        other => panic!("unexpected {:?}", other),
    }
}

#[test]
fn toml_migration_twice_changes_nothing() {
    let once = migrate_toml_config("[peas]\npath = \".peas\"\n# the path of the data\n\n\nprefix = \"x-\"");
    assert!(!once.contains("path ="));
    assert!(!once.contains("\n\n\n"));
    assert_eq!(migrate_toml_config(&once), once);
    // a final empty line comes out as a final line break, which a second
    // migration drops
    let once = migrate_toml_config("x = 1\n\n");
    assert!(once.ends_with("x = 1\n"));
    assert_eq!(migrate_toml_config(&once), once.strip_suffix('\n').unwrap());
}

#[test]
fn beans_fields_read_back_as_the_ticket() {
    let mut p = Pea::new(s("peas-r1"), s("Round trip"), PeaType::Bug);
    p.status = PeaStatus::InProgress;
    p.priority = PeaPriority::Deferred;
    p.parent = Some(s("peas-top"));
    p.tags = vec![s("a"), s("b")];
    p.blocking = vec![s("peas-x")];
    p.body = s("Text");
    p.created = Timestamp { secs: 100, nanos: 7 };
    p.updated = Timestamp { secs: 200, nanos: 0 };
    let f = beans_fields(&p);
    assert_eq!(f.status, "in-progress");
    assert_eq!(f.pea_type, "bug");
    assert_eq!(f.priority, "deferred");
    let back = beans_to_pea(p.id.clone(), f, p.body.clone());
    assert_eq!(back, p);
}
