use nigh::base_url::{BaseUrl, BaseUrlError};
use nigh::client::{Client, NewClientError};

#[test]
fn hierarchical_url_constructs_and_appends_path() {
    let base = BaseUrl::new("https://example.com/base").unwrap();
    assert_eq!(base.path(), "/base");
    let extended = base.and_path_segments(vec![
        "api".to_string(),
        "auth".to_string(),
        "login".to_string(),
    ]);
    assert_eq!(extended.path(), "/base/api/auth/login");
    assert_eq!(extended.as_str(), "https://example.com/base/api/auth/login");
}

#[test]
fn root_url_appends_without_double_slash() {
    let base = BaseUrl::new("https://example.com").unwrap();
    assert_eq!(base.path(), "/");
    let extended = base.and_path_segments(vec!["api".to_string()]);
    assert_eq!(extended.path(), "/api");
}

#[test]
fn non_hierarchical_url_cannot_be_base() {
    let r = BaseUrl::new("mailto:a@b.com");
    assert!(matches!(r, Err(BaseUrlError::CannotBeBase(_))));
}

#[test]
fn malformed_url_is_parse_failure() {
    let r = BaseUrl::new("not a url");
    assert!(matches!(r, Err(BaseUrlError::ParseBaseUrl)));
}

#[test]
fn construction_normalizes_the_serialization() {
    let base = BaseUrl::new("HTTPS://EXAMPLE.COM").unwrap();
    assert_eq!(base.as_str(), "https://example.com/");
    assert_eq!(base.into_string(), "https://example.com/");
}

#[test]
fn duplicate_keeps_the_serialization() {
    let base = BaseUrl::new("https://example.com/x").unwrap();
    let copy = base.duplicate();
    assert_eq!(copy.as_str(), base.as_str());
}

#[test]
fn client_parses_or_fails() {
    let c = Client::new("https://example.com").unwrap();
    assert_eq!(c.as_str(), "https://example.com/");
    let r = Client::new("::nonsense::");
    assert!(matches!(r, Err(NewClientError::ParseBaseUrl)));
}
