use peas::error::PeasError;

fn s(x: &str) -> String {
    x.to_string()
}

#[test]
fn error_messages_by_variant() {
    assert_eq!(PeasError::Config(s("bad")).message(), "Configuration error: bad");
    assert_eq!(PeasError::NotFound(s("peas-1")).message(), "Pea not found: peas-1");
    assert_eq!(PeasError::InvalidId(s("x")).message(), "Invalid pea ID: x");
    assert_eq!(PeasError::Storage(s("disk")).message(), "Storage error: disk");
    assert_eq!(PeasError::Parse(s("yaml")).message(), "Parse error: yaml");
    assert_eq!(PeasError::Validation(s("key")).message(), "Validation error: key");
    assert_eq!(PeasError::NotInitialized.message(), "Project not initialized. Run 'peas init' first.");
    assert_eq!(PeasError::AlreadyInitialized(s("/p")).message(), "Project already initialized at /p");
    assert_eq!(PeasError::NotFound(s("a")).to_string(), PeasError::NotFound(s("a")).message());
}
