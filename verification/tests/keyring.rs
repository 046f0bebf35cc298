use typr_lib::settings::keyring::{KeyringBackend, KeyringError, MockBackend, SERVICE, USER};

#[test]
fn mock_get_returns_none_when_empty() {
    let m = MockBackend::new();
    assert_eq!(m.get().unwrap(), None);
}

#[test]
fn mock_set_then_get() {
    let mut m = MockBackend::new();
    m.set("sk-test-123").unwrap();
    assert_eq!(m.get().unwrap().as_deref(), Some("sk-test-123"));
}

#[test]
fn mock_delete_removes_secret() {
    let mut m = MockBackend::with_secret("sk-test-123");
    m.delete().unwrap();
    assert_eq!(m.get().unwrap(), None);
}

#[test]
fn mock_overwrites() {
    let mut m = MockBackend::with_secret("old");
    m.set("new").unwrap();
    assert_eq!(m.get().unwrap().as_deref(), Some("new"));
}

#[test]
fn service_user_constants_match_spec() {
    assert_eq!(SERVICE, "com.typr.app");
    assert_eq!(USER, "groq_api_key");
}

#[test]
fn keyring_error_messages() {
    assert_eq!(KeyringError::NotFound.to_string(), "keyring entry not found");
    assert_eq!(KeyringError::AccessDenied.to_string(), "keyring access denied");
    assert_eq!(
        KeyringError::Other("locked".into()).to_string(),
        "keyring backend failure: locked"
    );
}

#[test]
fn mock_default_is_empty() {
    let m = MockBackend::default();
    assert_eq!(m.peek(), None);
}
