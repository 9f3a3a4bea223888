use nigh::cameras::Camera;
use nigh::protect::{ProtectApi, ProtectError};
use nigh::{Config, Nigh};

fn client() -> ProtectApi {
    ProtectApi::new("https://example.com").unwrap()
}

#[test]
fn cameras_url_is_composed_from_base() {
    let api = client();
    assert_eq!(api.cameras_url(), "https://example.com/proxy/protect/api/cameras");
}

#[test]
fn one_camera_is_decoded() {
    let api = client();
    let body = "[{\"mac\":\"AA:BB\",\"host\":\"10.0.0.5\",\"name\":\"Front\"}]";
    let cams = api.list_cameras(200, body).unwrap();
    assert_eq!(cams.len(), 1);
    assert_eq!(
        cams[0],
        Camera {
            mac: "AA:BB".to_string(),
            host: "10.0.0.5".to_string(),
            name: "Front".to_string(),
        }
    );
}

#[test]
fn several_cameras_keep_response_order() {
    let api = client();
    let body = "[ {\"name\": \"A\", \"mac\": \"1\", \"host\": \"h1\"} ,\n  {\"host\": \"h2\", \"name\": \"B\", \"mac\": \"2\", \"firmware\": \"x\"} ]";
    let cams = api.list_cameras(200, body).unwrap();
    assert_eq!(cams.len(), 2);
    assert_eq!(cams[0].name, "A");
    assert_eq!(cams[1].mac, "2");
    assert_eq!(cams[1].host, "h2");
}

#[test]
fn non_string_extra_members_are_ignored() {
    let api = client();
    let body = "[{\"mac\":\"AA:BB\",\"host\":\"10.0.0.5\",\"name\":\"Front\",\"upSince\":5,\"connected\":true,\"channels\":[1,2],\"stats\":{\"rx\":0},\"lastSeen\":null}]";
    let cams = api.list_cameras(200, body).unwrap();
    assert_eq!(cams.len(), 1);
    assert_eq!(cams[0].mac, "AA:BB");
    assert_eq!(cams[0].host, "10.0.0.5");
    assert_eq!(cams[0].name, "Front");
}

#[test]
fn non_string_required_field_is_unexpected_shape() {
    let api = client();
    let r = api.list_cameras(200, "[{\"mac\":7,\"host\":\"10.0.0.5\",\"name\":\"Front\"}]");
    assert!(matches!(r, Err(ProtectError::UnexpectedResponseJson { .. })));
}

#[test]
fn empty_array_is_no_cameras() {
    let api = client();
    let cams = api.list_cameras(200, "[]").unwrap();
    assert!(cams.is_empty());
}

#[test]
fn object_body_is_unexpected_shape_not_request_failure() {
    let api = client();
    let r = api.list_cameras(200, "{\"mac\":\"AA:BB\"}");
    assert!(matches!(r, Err(ProtectError::UnexpectedResponseJson { .. })));
    assert!(!matches!(r, Err(ProtectError::RequestFailed { .. })));
}

#[test]
fn missing_field_is_unexpected_shape() {
    let api = client();
    let r = api.list_cameras(200, "[{\"mac\":\"AA:BB\",\"host\":\"10.0.0.5\"}]");
    assert!(matches!(r, Err(ProtectError::UnexpectedResponseJson { .. })));
}

#[test]
fn non_success_status_is_request_failure_with_url_and_status() {
    let api = client();
    let r = api.list_cameras(503, "irrelevant");
    match r {
        Err(ProtectError::RequestFailed { url, status }) => {
            assert_eq!(url, "https://example.com/proxy/protect/api/cameras");
            assert_eq!(status, 503);
        },
        other => panic!("expected a failed request, got {:?}", other),
    }
}

#[test]
fn nigh_builds_from_config_and_hands_out_parts() {
    let nigh = Nigh::new(Config {
        host: "https://example.com".to_string(),
        user: "alice".to_string(),
        pass: "secret".to_string(),
    })
    .unwrap();
    let (config, api) = nigh.into_parts();
    assert_eq!(config.user, "alice");
    assert_eq!(config.pass, "secret");
    assert_eq!(api.cameras_url(), "https://example.com/proxy/protect/api/cameras");
}

#[test]
fn nigh_rejects_a_bad_host() {
    let r = Nigh::new(Config {
        host: "mailto:a@b.com".to_string(),
        user: "u".to_string(),
        pass: "p".to_string(),
    });
    assert!(r.is_err());
}
