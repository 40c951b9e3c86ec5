use soracom_sdk::error::ErrorKind;
use soracom_sdk::sandbox::SandboxClient;
use soracom_sdk::sandbox::SandboxInitCredential;
use soracom_sdk::sandbox::SandboxToken;
use soracom_sdk::util::HTTPMethod;
use soracom_sdk::SORACOM_SANDBOX_API_ENDPOINT;

#[test]
fn new_sandbox_client_has_no_token() {
    let client = SandboxClient::new();
    assert_eq!(client.endpoint, SORACOM_SANDBOX_API_ENDPOINT);
    assert!(client.token.is_none());
}

#[test]
fn init_request_carries_credential_body() {
    let client = SandboxClient::new();
    let cred = SandboxInitCredential {
        email: "dev@example.com".to_string(),
        password: "hunter-two".to_string(),
        auth_key_id: "keyId-1".to_string(),
        auth_key: "secret-1".to_string(),
    };
    let req = client.init_request(&cred).unwrap();
    assert_eq!(req.method, HTTPMethod::POST);
    assert_eq!(req.url, "https://api-sandbox.soracom.io/v1/sandbox/init");
    assert_eq!(
        String::from_utf8(req.body.unwrap()).unwrap(),
        "{\"email\":\"dev@example.com\",\"password\":\"hunter-two\",\"authKeyId\":\"keyId-1\",\"authKey\":\"secret-1\"}"
    );
}

#[test]
fn init_finish_stores_token() {
    let mut client = SandboxClient::new();
    let body = "{\"operatorId\":\"OP123\",\"apiKey\":\"api-k\",\"token\":\"tok\"}";
    let token = client.init_finish(200, body).unwrap();
    assert_eq!(token.operator_id, "OP123");
    assert_eq!(token.api_key, "api-k");
    assert_eq!(token.token, "tok");
    assert_eq!(client.token.as_ref().unwrap().operator_id, "OP123");
}

#[test]
fn init_failure_leaves_client_uninitialized() {
    let mut client = SandboxClient::new();
    let err = client.init_finish(503, "unavailable").unwrap_err();
    assert_eq!(err.kind(), &ErrorKind::Http(503, "unavailable".to_string()));
    assert!(client.token.is_none());
}

#[test]
fn create_subscriber_flow_decodes_registration() {
    let client = SandboxClient::new();
    let req = client.create_subscriber_request().unwrap();
    assert_eq!(
        req.url,
        "https://api-sandbox.soracom.io/v1/sandbox/subscribers/create"
    );
    assert!(req.body.is_none());
    let body = "{\"imsi\":\"001050910800000\",\"registrationSecret\":\"s3cr3t\",\"msisdn\":\"991649918745\"}";
    let regi = client.create_subscriber_response(200, body).unwrap();
    assert_eq!(regi.imsi, "001050910800000");
    assert_eq!(regi.registration_secret, "s3cr3t");
}

#[test]
fn delete_operator_request_escapes_operator_id() {
    let client = SandboxClient::new();
    let token = SandboxToken {
        operator_id: "OP123".to_string(),
        api_key: "k".to_string(),
        token: "t".to_string(),
    };
    let req = client.delete_operator_request(&token).unwrap();
    assert_eq!(req.method, HTTPMethod::DELETE);
    assert_eq!(
        req.url,
        "https://api-sandbox.soracom.io/v1/sandbox/operators/OP123"
    );
}

#[test]
fn delete_operator_twice_surfaces_second_404() {
    let client = SandboxClient::new();
    // the mock transport answers 200 for the first deletion, 404 for the
    // second; the second outcome is surfaced, not panicked on, and the
    // caller may ignore it
    assert!(client.delete_operator_response(200, "").is_ok());
    let second = client.delete_operator_response(404, "already gone");
    let err = second.unwrap_err();
    assert_eq!(err.kind(), &ErrorKind::Http(404, "already gone".to_string()));
}
