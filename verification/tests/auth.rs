use jumong_server::http_response::{classify_auth_response, AuthOutcome, AuthResponse};
use jumong_server::url::endpoint;

#[test]
fn status_201_with_body_grants_the_id() {
    let resp = AuthResponse { id: String::from("A"), timestamp: String::from("2024-01-01") };
    match classify_auth_response(201, Some(resp), String::new()) {
        AuthOutcome::Granted { id } => assert_eq!(id, b"A".to_vec()),
        other => panic!("expected Granted, got {other:?}"),
    }
}

#[test]
fn any_other_status_is_rejected_with_the_body() {
    match classify_auth_response(403, None, String::from("bad token")) {
        AuthOutcome::Rejected { body } => assert_eq!(body, "bad token"),
        other => panic!("expected Rejected, got {other:?}"),
    }
    let resp = AuthResponse { id: String::from("A"), timestamp: String::from("t") };
    match classify_auth_response(200, Some(resp), String::from("ok but not created")) {
        AuthOutcome::Rejected { body } => assert_eq!(body, "ok but not created"),
        other => panic!("expected Rejected, got {other:?}"),
    }
}

#[test]
fn status_201_without_parsed_body_is_a_transport_failure() {
    assert!(matches!(
        classify_auth_response(201, None, String::from("not json")),
        AuthOutcome::Failed { .. }
    ));
}

#[test]
fn endpoint_joins_origin_and_path() {
    assert_eq!(endpoint("https://api.test", "auth"), "https://api.test/auth");
    assert_eq!(endpoint("", "auth"), "/auth");
}
