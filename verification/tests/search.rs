use peas::refs::{annotate_refs, present_groups, ticket_refs};
use peas::model::{Memory, Pea, PeaPriority, PeaStatus, PeaType};
use peas::search::{SearchField, SearchQuery};

fn create_test_pea() -> Pea {
    let mut pea = Pea::new(
        "test-123".to_string(),
        "Fix critical bug in parser".to_string(),
        PeaType::Bug,
    );
    pea.body = "The parser crashes on malformed input.\nNeed to add error handling.".to_string();
    pea.tags = vec!["bug".to_string(), "parser".to_string()];
    pea.status = PeaStatus::InProgress;
    pea.priority = PeaPriority::Critical;
    pea
}

#[test]
fn test_simple_search() {
    let pea = create_test_pea();

    let query = SearchQuery::parse("bug").unwrap();
    assert!(query.matches_pea(&pea));

    let query = SearchQuery::parse("parser").unwrap();
    assert!(query.matches_pea(&pea));

    let query = SearchQuery::parse("nonexistent").unwrap();
    assert!(!query.matches_pea(&pea));
}

#[test]
fn test_field_specific_search() {
    let pea = create_test_pea();

    let query = SearchQuery::parse("title:critical").unwrap();
    assert!(query.matches_pea(&pea));

    let query = SearchQuery::parse("title:parser").unwrap();
    assert!(query.matches_pea(&pea));

    let query = SearchQuery::parse("body:crashes").unwrap();
    assert!(query.matches_pea(&pea));

    let query = SearchQuery::parse("body:critical").unwrap();
    assert!(!query.matches_pea(&pea));

    let query = SearchQuery::parse("tag:parser").unwrap();
    assert!(query.matches_pea(&pea));

    let query = SearchQuery::parse("tag:urgent").unwrap();
    assert!(!query.matches_pea(&pea));
}

#[test]
fn test_regex_search() {
    let pea = create_test_pea();

    let query = SearchQuery::parse("regex:(bug|fix)").unwrap();
    assert!(query.matches_pea(&pea));

    let query = SearchQuery::parse("regex:par\\w+").unwrap();
    assert!(query.matches_pea(&pea));

    let result = SearchQuery::parse("regex:[invalid");
    assert!(result.is_err());
}

#[test]
fn test_combined_field_and_regex() {
    let pea = create_test_pea();

    let query = SearchQuery::parse("title:regex:.*critical.*").unwrap();
    assert!(query.matches_pea(&pea));

    let query = SearchQuery::parse("body:regex:crash\\w+").unwrap();
    assert!(query.matches_pea(&pea));
}

#[test]
fn test_search_status_priority_type() {
    let pea = create_test_pea();

    let query = SearchQuery::parse("status:progress").unwrap();
    assert!(query.matches_pea(&pea));

    let query = SearchQuery::parse("priority:critical").unwrap();
    assert!(query.matches_pea(&pea));

    let query = SearchQuery::parse("type:bug").unwrap();
    assert!(query.matches_pea(&pea));
}

#[test]
fn test_case_insensitive_simple_search() {
    let pea = create_test_pea();

    let query = SearchQuery::parse("CRITICAL").unwrap();
    assert!(query.matches_pea(&pea));

    let query = SearchQuery::parse("BUG").unwrap();
    assert!(query.matches_pea(&pea));
}

#[test]
fn test_case_insensitive_field_search() {
    let pea = create_test_pea();

    let query = SearchQuery::parse("title:CRITICAL").unwrap();
    assert!(query.matches_pea(&pea));

    let query = SearchQuery::parse("TITLE:critical").unwrap();
    assert!(query.matches_pea(&pea));
}

#[test]
fn unknown_field_is_a_simple_search() {
    let q = SearchQuery::parse("foo:bar").unwrap();
    match q {
        SearchQuery::Simple(s) => assert_eq!(s, "foo:bar"),
        _ => panic!("expected a simple query"),
    }
}

#[test]
fn field_names_parse() {
    assert_eq!(SearchField::parse("Title").unwrap(), SearchField::Title);
    assert!(SearchField::parse("colour").is_err());
}

#[test]
fn memory_search() {
    let mut m = Memory::new("api-notes".to_string());
    m.content = "Use the v2 endpoint".to_string();
    m.tags = vec!["backend".to_string()];
    assert!(SearchQuery::parse("V2").unwrap().matches_memory(&m));
    assert!(SearchQuery::parse("tag:back").unwrap().matches_memory(&m));
    assert!(!SearchQuery::parse("title:api").unwrap().matches_memory(&m));
}

#[test]
fn ticket_references_in_text() {
    let refs = ticket_refs("see peas-abc1 and peas-x9, then peas-abc1 again; not Peas-zz or peas-", "peas-");
    assert_eq!(refs, vec!["peas-abc1".to_string(), "peas-x9".to_string(), "peas-abc1".to_string()]);
    let dotted = ticket_refs("a.b-1 and axb-2", "a.b-");
    assert_eq!(dotted, vec!["a.b-1".to_string()]);
    assert!(ticket_refs("nothing here", "peas-").is_empty());
    assert_eq!(present_groups(vec![Some("x".to_string()), None, Some("y".to_string())]), vec!["x".to_string(), "y".to_string()]);
    let subs = vec![("peas-a".to_string(), "peas-a (A)".to_string()), ("".to_string(), "ignored".to_string())];
    assert_eq!(annotate_refs("peas-a then peas-a", &subs), "peas-a (A) then peas-a (A)");
    let twice = vec![("peas-a".to_string(), "[peas-a]".to_string()), ("peas-a".to_string(), "[peas-a]".to_string())];
    assert_eq!(annotate_refs("peas-a", &twice), "[[peas-a]]");
}
