use nigh::login::{login_request_body, LoginError};
use nigh::protect::{NewProtectError, ProtectApi};
use nigh::session::{header_name_str, HeaderName};

fn client() -> ProtectApi {
    ProtectApi::new("https://example.com").unwrap()
}

#[test]
fn login_url_is_composed_from_base() {
    let api = client();
    assert_eq!(api.login_url(), "https://example.com/api/auth/login");
}

#[test]
fn login_success_stores_both_headers_verbatim() {
    let mut api = client();
    let r = api.login(200, Some("tok-123".to_string()), Some("SESSION=abc; Path=/".to_string()));
    assert!(r.is_ok());
    let pairs = api.session().header_pairs();
    assert_eq!(pairs.len(), 2);
    assert_eq!(pairs[0].0, "X-CSRF-Token");
    assert_eq!(pairs[0].1, "tok-123");
    assert_eq!(pairs[1].0, "Cookie");
    assert_eq!(pairs[1].1, "SESSION=abc; Path=/");
}

#[test]
fn login_missing_csrf_header_fails_and_keeps_prior_session() {
    let mut api = client();
    api.login(200, Some("old-token".to_string()), Some("old-cookie".to_string())).unwrap();
    let r = api.login(200, None, Some("new-cookie".to_string()));
    assert!(matches!(
        r,
        Err(LoginError::MissingOrInvalidHeaderResponse { header: HeaderName::CsrfToken })
    ));
    let pairs = api.session().header_pairs();
    assert_eq!(pairs[0].1, "old-token");
    assert_eq!(pairs[1].1, "old-cookie");
}

#[test]
fn login_missing_set_cookie_header_fails() {
    let mut api = client();
    let r = api.login(204, Some("tok".to_string()), None);
    assert!(matches!(
        r,
        Err(LoginError::MissingOrInvalidHeaderResponse { header: HeaderName::SetCookie })
    ));
    assert!(api.session().is_empty());
}

#[test]
fn login_non_success_status_fails_with_that_status() {
    let mut api = client();
    let r = api.login(401, Some("tok".to_string()), Some("cookie".to_string()));
    assert!(matches!(r, Err(LoginError::RequestFailed { status: 401 })));
    assert!(api.session().is_empty());
}

#[test]
fn clear_session_drops_credentials() {
    let mut api = client();
    api.login(200, Some("t".to_string()), Some("c".to_string())).unwrap();
    assert!(!api.session().is_empty());
    api.clear_session();
    assert!(api.session().is_empty());
    assert_eq!(api.session().header_pairs().len(), 0);
}

#[test]
fn login_body_is_the_exact_wire_json() {
    let body = login_request_body("alice", "secret");
    assert_eq!(
        body,
        "{\"username\":\"alice\",\"password\":\"secret\",\"rememberMe\":true,\"token\":\"\"}"
    );
}

#[test]
fn login_body_escapes_and_round_trips_through_json() {
    let pass = "p\"w\\x\n\t\u{1}end";
    let body = login_request_body("user \"q\"", pass);
    let v: serde_json::Value = serde_json::from_str(&body).unwrap();
    assert_eq!(v.get("username").unwrap().as_str().unwrap(), "user \"q\"");
    assert_eq!(v.get("password").unwrap().as_str().unwrap(), pass);
    assert_eq!(v.get("rememberMe").unwrap().as_bool().unwrap(), true);
    assert_eq!(v.get("token").unwrap().as_str().unwrap(), "");
}

#[test]
fn diagnostic_masks_the_password() {
    let api = client();
    let d = api.login_diagnostic("alice", "hunter2");
    assert!(!d.contains("hunter2"));
    assert!(d.contains("alice"));
    assert!(d.contains("https://example.com/api/auth/login"));
    assert!(d.ends_with(" pass=*******"));
}

#[test]
fn header_names_on_the_wire() {
    assert_eq!(header_name_str(HeaderName::CsrfToken), "X-CSRF-Token");
    assert_eq!(header_name_str(HeaderName::SetCookie), "Set-Cookie");
    assert_eq!(header_name_str(HeaderName::Cookie), "Cookie");
}

#[test]
fn client_construction_rejects_bad_hosts() {
    assert!(matches!(
        ProtectApi::new("mailto:a@b.com"),
        Err(NewProtectError::ProtectUrlCannotBeBase(_))
    ));
    assert!(matches!(ProtectApi::new("no url"), Err(NewProtectError::ParseBaseUrl)));
}
