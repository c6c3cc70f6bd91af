use fruit_client::models::Fruit;
use fruit_client::response::{resolve_fruit_response, ApiError, HttpOutcome};

fn scenario_body() -> Vec<u8> {
    br#"{"name":"apple","color":"red"}"#.to_vec()
}

#[test]
fn success_resolves_to_decoded_fruit() {
    let outcome = HttpOutcome::Response { status: 200, body: scenario_body() };
    assert_eq!(
        resolve_fruit_response(outcome),
        Ok(Fruit { name: b"apple".to_vec(), color: b"red".to_vec() })
    );
}

#[test]
fn whole_success_range_resolves() {
    for status in [200u16, 201, 204, 299] {
        let outcome = HttpOutcome::Response { status, body: scenario_body() };
        assert!(resolve_fruit_response(outcome).is_ok());
    }
}

#[test]
fn server_error_status_resolves_to_status_error() {
    let outcome = HttpOutcome::Response { status: 500, body: scenario_body() };
    assert_eq!(resolve_fruit_response(outcome), Err(ApiError::Status(500)));
}

#[test]
fn statuses_outside_success_range_resolve_to_status_error() {
    for status in [100u16, 199, 300, 301, 404] {
        let outcome = HttpOutcome::Response { status, body: scenario_body() };
        assert_eq!(resolve_fruit_response(outcome), Err(ApiError::Status(status)));
    }
}

#[test]
fn undecodable_success_resolves_to_decode_error() {
    let outcome = HttpOutcome::Response { status: 200, body: b"not a fruit".to_vec() };
    assert_eq!(resolve_fruit_response(outcome), Err(ApiError::Decode));
}

#[test]
fn transport_failure_resolves_to_transport_error() {
    let outcome = HttpOutcome::Failure { message: "connection refused".to_string() };
    assert_eq!(
        resolve_fruit_response(outcome),
        Err(ApiError::Transport("connection refused".to_string()))
    );
}
