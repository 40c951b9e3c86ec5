use soracom_sdk::client::Client;
use soracom_sdk::error::ErrorKind;
use soracom_sdk::model::SubscriberRegistration;
use soracom_sdk::util::HTTPMethod;
use soracom_sdk::SORACOM_GLOBAL_API_ENDPOINT;

#[test]
fn it_works() {
    assert_eq!(2 + 2, 4);
}

#[test]
fn new_client_is_unauthenticated() {
    let client = Client::new();
    assert_eq!(client.endpoint, SORACOM_GLOBAL_API_ENDPOINT);
    assert!(client.credentials.is_none());
}

#[test]
fn auth_success_stores_credentials_and_list_attaches_them() {
    let mut client = Client::new();
    let req = client.auth_request("key-id", "key-secret").unwrap();
    assert_eq!(req.method, HTTPMethod::POST);
    assert_eq!(req.url, "https://g.api.soracom.io/v1/auth");
    assert_eq!(
        String::from_utf8(req.body.unwrap()).unwrap(),
        "{\"authKeyId\":\"key-id\",\"authKey\":\"key-secret\",\"tokenTimeoutSeconds\":60}"
    );

    // the mock transport answers 200 with a valid auth response
    let body = "{\"apiKey\":\"api-key-1\",\"operatorId\":\"OP1\",\"token\":\"tok-1\"}";
    client.auth_finish(200, body).unwrap();
    let creds = client.credentials.as_ref().unwrap();
    assert_eq!(creds.api_key, "api-key-1");
    assert_eq!(creds.token, "tok-1");

    // a subsequent listing carries the stored credentials in its headers
    let req = client.list_subscriber_request(None).unwrap();
    assert_eq!(req.method, HTTPMethod::GET);
    assert_eq!(req.url, "https://g.api.soracom.io/v1/subscribers");
    assert_eq!(req.headers.len(), 3);
    assert_eq!(
        req.headers[1],
        ("X-Soracom-API-Key".to_string(), "api-key-1".to_string())
    );
    assert_eq!(
        req.headers[2],
        ("X-Soracom-Token".to_string(), "tok-1".to_string())
    );
    assert!(req.body.is_none());
}

#[test]
fn auth_failure_leaves_client_unauthenticated() {
    let mut client = Client::new();
    let err = client.auth_finish(401, "denied").unwrap_err();
    assert_eq!(err.kind(), &ErrorKind::Http(401, "denied".to_string()));
    assert!(client.credentials.is_none());
}

#[test]
fn auth_bad_body_is_decode_error() {
    let mut client = Client::new();
    let err = client.auth_finish(200, "{\"nope\":1}").unwrap_err();
    assert!(matches!(err.kind(), ErrorKind::Decode(_)));
    assert!(client.credentials.is_none());
}

#[test]
fn auth_token_authenticates_directly() {
    let mut client = Client::with_endpoint("api-sandbox.soracom.io");
    client.auth_token("sandbox-key", "sandbox-token");
    let creds = client.credentials.as_ref().unwrap();
    assert_eq!(creds.api_key, "sandbox-key");
    assert_eq!(creds.token, "sandbox-token");
}

#[test]
fn list_request_carries_query_string() {
    let mut client = Client::new();
    client.auth_token("k", "t");
    let opt = soracom_sdk::option::ListSubscribersOptions {
        tag_name: Some("aaa".to_string()),
        ..Default::default()
    };
    let req = client.list_subscriber_request(Some(opt)).unwrap();
    assert_eq!(req.url, "https://g.api.soracom.io/v1/subscribers?tag_name=aaa");
}

#[test]
fn list_response_decodes_empty_array() {
    let client = Client::new();
    let subs = client.list_subscriber_response(200, "[]").unwrap();
    assert!(subs.is_empty());
}

#[test]
fn get_subscriber_request_escapes_imsi() {
    let mut client = Client::new();
    client.auth_token("k", "t");
    let req = client.get_subscriber_request("001/050").unwrap();
    assert_eq!(req.url, "https://g.api.soracom.io/v1/subscribers/001%2F050");
}

#[test]
fn get_subscriber_unknown_surfaces_http_404() {
    let client = Client::new();
    let err = client.get_subscriber_response(404, "not found").unwrap_err();
    assert_eq!(err.kind(), &ErrorKind::Http(404, "not found".to_string()));
}

#[test]
fn register_subscriber_request_and_responses() {
    let mut client = Client::new();
    client.auth_token("k", "t");
    let regi = SubscriberRegistration {
        imsi: "001050910800000".to_string(),
        registration_secret: "s3cr3t".to_string(),
    };
    let req = client.register_subscriber_request(&regi).unwrap();
    assert_eq!(req.method, HTTPMethod::POST);
    assert_eq!(
        req.url,
        "https://g.api.soracom.io/v1/subscribers/001050910800000/register"
    );
    assert_eq!(
        String::from_utf8(req.body.unwrap()).unwrap(),
        "{\"registrationSecret\":\"s3cr3t\"}"
    );
    assert!(client.register_subscriber_response(200, "ok").is_ok());
    let err = client.register_subscriber_response(400, "bad").unwrap_err();
    assert_eq!(err.kind(), &ErrorKind::Http(400, "bad".to_string()));
}

#[test]
fn invalid_endpoint_is_url_parse_error() {
    let client = Client::with_endpoint("not a host");
    let err = client.auth_request("k", "s").unwrap_err();
    assert!(matches!(err.kind(), ErrorKind::UrlParse(_)));
}

#[test]
fn error_message_carries_diagnostic_text() {
    let client = Client::new();
    let err = client.get_subscriber_response(500, "boom").unwrap_err();
    assert_eq!(err.message(), "boom");
}
