use peas::cli::{BulkAction, Cli, Commands, PeaPriorityArg, PeaStatusArg, PeaTypeArg, TemplateArg};
use peas::create::{apply_bulk_edit, build_pea, bulk_pea, bulk_titles, plan_bulk, BulkPlan, CreateRequest};
use peas::config::PeasSettings;
use peas::error::PeasError;
use peas::model::{Pea, PeaPriority, PeaStatus, PeaType};
use peas::update::{add_blocked_by, apply_update, remove_blocked_by, update_changes, UpdateRequest};

fn s(x: &str) -> String {
    x.to_string()
}

fn empty_request() -> UpdateRequest {
    UpdateRequest {
        title: None,
        pea_type: None,
        status: None,
        priority: None,
        body: None,
        parent: None,
        add_tag: vec![],
        remove_tag: vec![],
        add_blocks: vec![],
        remove_blocks: vec![],
        add_blocked_by: vec![],
        remove_blocked_by: vec![],
    }
}

fn sample() -> Pea {
    let mut p = Pea::new(s("peas-1"), s("Old"), PeaType::Task);
    p.tags = vec![s("a"), s("b")];
    p.blocking = vec![s("peas-2")];
    p.parent = Some(s("peas-0"));
    p
}

#[test]
fn update_applies_fields_and_lists() {
    let original = sample();
    let mut req = empty_request();
    req.title = Some(s("New"));
    req.status = Some(PeaStatus::Completed);
    req.parent = Some(s(""));
    req.add_tag = vec![s("b"), s("c"), s("c")];
    req.remove_tag = vec![s("a")];
    req.add_blocks = vec![s("peas-3")];
    req.remove_blocks = vec![s("peas-2")];
    let updated = apply_update(&original, &req);
    assert_eq!(updated.title, "New");
    assert_eq!(updated.status, PeaStatus::Completed);
    assert_eq!(updated.parent, None);
    assert_eq!(updated.tags, vec![s("b"), s("c")]);
    assert_eq!(updated.blocking, vec![s("peas-3")]);
    assert_eq!(original.title, "Old");
}

#[test]
fn update_change_list_for_dry_run() {
    let original = sample();
    let mut req = empty_request();
    req.title = Some(s("New"));
    req.priority = Some(PeaPriority::High);
    req.add_tag = vec![s("c")];
    req.body = Some(s("text"));
    let updated = apply_update(&original, &req);
    let changes = update_changes(&original, &updated, &vec![s("peas-9")], &vec![]);
    assert_eq!(
        changes,
        vec![
            s("title: 'Old' -> 'New'"),
            s("priority: normal -> high"),
            s("tags: [\"a\", \"b\"] -> [\"a\", \"b\", \"c\"]"),
            s("blocked-by: add peas-9 (will update peas-9)"),
            s("body: [changed]"),
        ]
    );
    let none = update_changes(&original, &original.clone(), &vec![], &vec![]);
    assert!(none.is_empty());
}

#[test]
fn update_parent_change_uses_debug_form() {
    let original = sample();
    let mut req = empty_request();
    req.parent = Some(s("peas-7"));
    let updated = apply_update(&original, &req);
    let changes = update_changes(&original, &updated, &vec![], &vec![s("peas-4")]);
    assert_eq!(
        changes,
        vec![
            s("parent: Some(\"peas-0\") -> Some(\"peas-7\")"),
            s("blocked-by: remove peas-4 (will update peas-4)"),
        ]
    );
}

#[test]
fn blocked_by_edits() {
    let mut blocker = sample();
    assert!(add_blocked_by(&mut blocker, "peas-5"));
    assert!(!add_blocked_by(&mut blocker, "peas-5"));
    assert_eq!(blocker.blocking, vec![s("peas-2"), s("peas-5")]);
    remove_blocked_by(&mut blocker, "peas-2");
    assert_eq!(blocker.blocking, vec![s("peas-5")]);
}

fn create_request() -> CreateRequest {
    CreateRequest {
        title: s("Crash on start"),
        pea_type: Some(PeaTypeArg::Task),
        status: None,
        priority: None,
        body: None,
        parent: None,
        blocking: vec![],
        tags: vec![],
        template: None,
    }
}

#[test]
fn create_plain() {
    let p = build_pea(s("peas-x"), create_request(), &PeasSettings::default());
    assert_eq!(p.id, "peas-x");
    assert_eq!(p.pea_type, PeaType::Task);
    assert_eq!(p.status, PeaStatus::Todo);
    assert_eq!(p.priority, PeaPriority::Normal);
    assert!(p.tags.is_empty());
    assert_eq!(p.body, "");
    assert_eq!(p.created, p.updated);
}

#[test]
fn create_with_template_and_overrides() {
    let mut req = create_request();
    req.template = Some(TemplateArg::Bug);
    req.pea_type = Some(PeaTypeArg::Epic);
    req.tags = vec![s("bug"), s("ui")];
    req.status = Some(PeaStatusArg::InProgress);
    let p = build_pea(s("peas-y"), req, &PeasSettings::default());
    assert_eq!(p.pea_type, PeaType::Bug);
    assert_eq!(p.priority, PeaPriority::High);
    assert_eq!(p.status, PeaStatus::InProgress);
    assert_eq!(p.tags, vec![s("bug"), s("ui")]);
    assert!(p.body.starts_with("## Description"));

    let mut req = create_request();
    req.template = Some(TemplateArg::Epic);
    req.body = Some(s("mine"));
    req.priority = Some(PeaPriorityArg::Low);
    req.parent = Some(s("peas-m"));
    req.blocking = vec![s("peas-b")];
    let p = build_pea(s("peas-z"), req, &PeasSettings::default());
    assert_eq!(p.status, PeaStatus::Draft);
    assert_eq!(p.priority, PeaPriority::Low);
    assert_eq!(p.body, "mine");
    assert_eq!(p.parent, Some(s("peas-m")));
    assert_eq!(p.blocking, vec![s("peas-b")]);
}

#[test]
fn create_uses_configured_defaults() {
    let mut cfg = PeasSettings::default();
    cfg.default_status = s("draft");
    cfg.default_type = s("bug");
    let mut req = create_request();
    req.pea_type = None;
    let p = build_pea(s("peas-c"), req, &cfg);
    assert_eq!(p.status, PeaStatus::Draft);
    assert_eq!(p.pea_type, PeaType::Bug);
    // explicit arguments win over the configuration
    let mut req = create_request();
    req.status = Some(PeaStatusArg::InProgress);
    let p = build_pea(s("peas-d"), req, &cfg);
    assert_eq!(p.status, PeaStatus::InProgress);
    assert_eq!(p.pea_type, PeaType::Task);
    // a value that names nothing falls back to todo and task
    cfg.default_status = s("later");
    cfg.default_type = s("thing");
    let mut req = create_request();
    req.pea_type = None;
    let p = build_pea(s("peas-e"), req, &cfg);
    assert_eq!(p.status, PeaStatus::Todo);
    assert_eq!(p.pea_type, PeaType::Task);
    let p = bulk_pea(s("peas-f"), s("T"), None, &None, &vec![], None, None, &PeasSettings { default_status: s("In-Progress"), default_type: s("chore"), ..PeasSettings::default() });
    assert_eq!(p.status, PeaStatus::InProgress);
    assert_eq!(p.pea_type, PeaType::Chore);
}

#[test]
fn template_settings_table() {
    let st = TemplateArg::Chore.settings();
    assert_eq!(st.pea_type, PeaType::Chore);
    assert_eq!(st.priority, Some(PeaPriority::Low));
    assert_eq!(st.status, None);
    assert_eq!(st.tags, vec![s("chore")]);
    assert_eq!(st.body_template, None);
    let st = TemplateArg::Milestone.settings();
    assert_eq!(st.status, Some(PeaStatus::Draft));
    assert!(st.tags.is_empty());
    assert_eq!(st.body_template, Some("## Description\n\n## Target Date\n\n## Key Deliverables\n- \n"));
}

#[test]
fn bulk_titles_trim_and_skip_blank() {
    assert_eq!(bulk_titles("  one \n\n two\r\n   \nthree"), vec![s("one"), s("two"), s("three")]);
    assert!(bulk_titles("\n \n").is_empty());
}

#[test]
fn bulk_created_pea() {
    let p = bulk_pea(s("peas-q"), s("T"), Some(PeaType::Bug), &Some(s("peas-p")), &vec![s("x")], None, Some(PeaPriority::Critical), &PeasSettings::default());
    assert_eq!(p.parent, Some(s("peas-p")));
    assert_eq!(p.tags, vec![s("x")]);
    assert_eq!(p.status, PeaStatus::Todo);
    assert_eq!(p.priority, PeaPriority::Critical);
}

#[test]
fn bulk_tag_skips_when_present() {
    let action = BulkAction::Tag { tag: s("a"), ids: vec![], json: false };
    let mut p = sample();
    assert_eq!(apply_bulk_edit(&mut p, &action), (false, Some(s("already has tag"))));
    let action = BulkAction::Tag { tag: s("z"), ids: vec![], json: false };
    assert_eq!(apply_bulk_edit(&mut p, &action), (true, None));
    assert_eq!(p.tags, vec![s("a"), s("b"), s("z")]);
    let mut q = sample();
    apply_bulk_edit(&mut q, &BulkAction::Done { ids: vec![], json: false });
    assert_eq!(q.status, PeaStatus::Completed);
}

#[test]
fn bulk_plan_aborts_on_any_load_error() {
    let action = BulkAction::Start { ids: vec![], json: false };
    let loaded = vec![Ok(sample()), Err(PeasError::NotFound(s("peas-404")))];
    match plan_bulk(loaded, &action) {
        BulkPlan::Aborted(errs) => {
            assert_eq!(errs.len(), 1);
            assert_eq!(errs[0].0, 1);
            assert_eq!(errs[0].1, PeasError::NotFound(s("peas-404")));
        }
        _ => panic!("expected an abort"),
    }
    let action = BulkAction::Tag { tag: s("a"), ids: vec![], json: false };
    let mut other = sample();
    other.id = s("peas-2");
    other.tags = vec![];
    match plan_bulk(vec![Ok(sample()), Ok(other)], &action) {
        BulkPlan::Apply { to_save, skipped } => {
            assert_eq!(to_save.len(), 1);
            assert_eq!(to_save[0].id, "peas-2");
            assert_eq!(skipped, vec![(s("peas-1"), s("already has tag"))]);
        }
        _ => panic!("expected a plan"),
    }
}

#[test]
fn commands_that_need_a_configuration() {
    assert!(!Commands::Init { prefix: s("p-"), id_length: 4 }.needs_config());
    assert!(!Commands::Doctor { fix: true }.needs_config());
    assert!(!Commands::Migrate { dry_run: false }.needs_config());
    assert!(Commands::Roadmap.needs_config());
    assert!(Commands::Show { id: s("p-1"), json: false }.needs_config());
    let cli = Cli { command: Commands::Prime, config: None, peas_path: None, verbose: false, log_file: None };
    assert!(cli.command.needs_config());
}

#[test]
fn names_parse_through_from_str() {
    assert_eq!("BUG".parse::<peas::model::PeaType>(), Ok(peas::model::PeaType::Bug));
    assert_eq!("In-Progress".parse::<peas::model::PeaStatus>(), Ok(peas::model::PeaStatus::InProgress));
    assert_eq!("p0".parse::<peas::model::PeaPriority>(), Ok(peas::model::PeaPriority::Critical));
    assert_eq!(
        "nope".parse::<peas::model::PeaType>().unwrap_err().to_string(),
        "Parse error: Invalid pea type: nope"
    );
    assert_eq!("Tags".parse::<peas::search::SearchField>(), Ok(peas::search::SearchField::Tag));
    assert_eq!("x".parse::<peas::search::SearchField>(), Err("Unknown field: x".to_string()));
}
