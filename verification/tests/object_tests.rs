use soracom_sdk::error::ErrorKind;
use soracom_sdk::object::MyObject;
use soracom_sdk::util::HTTPMethod;

#[test]
fn my_object_keeps_record_and_target() {
    let mut myo = MyObject::new("rectod");
    assert_eq!(myo.record(), "rectod");
    assert!(myo.target.is_none());
    myo.set_target("https://postman-echo.com/get?foo1=bar1&foo2=bar2");
    assert_eq!(
        myo.target.as_deref(),
        Some("https://postman-echo.com/get?foo1=bar1&foo2=bar2")
    );
    assert_eq!(myo.record(), "rectod");
}

#[test]
fn get_request_is_a_plain_get() {
    let myo = MyObject::new("rectod");
    let req = myo.get_request("https://postman-echo.com/get?foo1=bar1", None);
    assert_eq!(req.method, HTTPMethod::GET);
    assert_eq!(req.url, "https://postman-echo.com/get?foo1=bar1");
    assert!(req.body.is_none());
}

#[test]
fn get_response_decodes_echo_payload() {
    let myo = MyObject::new("rectod");
    let body = "{\"args\":{\"foo1\":\"bar1\",\"foo2\":\"bar2\"},\"headers\":{\"host\":\"postman-echo.com\"},\"url\":\"https://postman-echo.com/get?foo1=bar1&foo2=bar2\"}";
    let resp = myo.get_response(200, body).unwrap();
    assert_eq!(
        resp.args,
        vec![
            ("foo1".to_string(), "bar1".to_string()),
            ("foo2".to_string(), "bar2".to_string()),
        ]
    );
    assert_eq!(resp.url, "https://postman-echo.com/get?foo1=bar1&foo2=bar2");
}

#[test]
fn get_response_surfaces_http_error() {
    let myo = MyObject::new("rectod");
    let err = myo.get_response(500, "oops").unwrap_err();
    assert_eq!(err.kind(), &ErrorKind::Http(500, "oops".to_string()));
}
