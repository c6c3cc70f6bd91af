use std::sync::Arc;

use fruit_client::configuration::Configuration;
use fruit_client::default_api::{DefaultApi, DefaultApiClient};
use fruit_client::request::{request_url, Method, Request};

fn test_configuration() -> Configuration<()> {
    Configuration {
        base_path: "http://localhost".to_string(),
        user_agent: Some("fruit_client/0.1.0".to_string()),
        api_key: None,
        client: (),
    }
}

#[test]
fn get_fruit_issues_get_on_example() {
    let client = DefaultApiClient::new(Arc::new(test_configuration()));
    let req = client.get_fruit();
    assert_eq!(req.method, Method::Get);
    assert_eq!(req.path, "/example");
}

#[test]
fn get_fruit_sends_no_query_and_no_body() {
    let client = DefaultApiClient::new(Arc::new(test_configuration()));
    let req = client.get_fruit();
    assert!(req.query.is_empty());
    assert!(req.body.is_none());
}

#[test]
fn shared_configuration_yields_interchangeable_requests() {
    let configuration = Arc::new(test_configuration());
    let one = DefaultApiClient::new(Arc::clone(&configuration));
    let two = DefaultApiClient::new(Arc::clone(&configuration));
    let r1 = one.get_fruit();
    let r2 = two.get_fruit();
    assert_eq!(r1.method, r2.method);
    assert_eq!(r1.path, r2.path);
    assert_eq!(r1.query, r2.query);
    assert_eq!(r1.body, r2.body);
}

#[test]
fn request_new_has_no_query_and_no_body() {
    let req = Request::new(Method::Post, "/somewhere".to_string());
    assert_eq!(req.method, Method::Post);
    assert_eq!(req.path, "/somewhere");
    assert!(req.query.is_empty());
    assert!(req.body.is_none());
}

#[test]
fn request_url_joins_base_path_and_path() {
    let configuration = test_configuration();
    let client = DefaultApiClient::new(Arc::new(test_configuration()));
    let url = request_url(&configuration, &client.get_fruit());
    assert_eq!(url, "http://localhost/example");
}
