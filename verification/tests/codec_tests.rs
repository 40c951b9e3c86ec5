use soracom_sdk::codec::decode_auth_request;
use soracom_sdk::codec::decode_auth_response;
use soracom_sdk::codec::decode_subscriber;
use soracom_sdk::codec::decode_subscriber_list;
use soracom_sdk::codec::encode_auth_request;
use soracom_sdk::error::ErrorKind;
use soracom_sdk::model::AuthRequest;
use soracom_sdk::model::SubscriberRegistration;
use soracom_sdk::model::Timestamp;

const FIXTURE_LIST_1: &str = "[{\"imsi\":\"001050910800000\",\"msisdn\":\"991649918745\",\"ipAddress\":null,\"operatorId\":\"OP9920648489\",\"apn\":\"soracom.io\",\"type\":\"s1.standard\",\"groupId\":null,\"createdAt\":1586584405503,\"lastModifiedAt\":1586584405516,\"expiredAt\":null,\"registeredTime\":null,\"expiryAction\":null,\"terminationEnabled\":false,\"status\":\"ready\",\"tags\":{},\"sessionStatus\":null,\"imeiLock\":null,\"speedClass\":\"s1.standard\",\"moduleType\":\"trio\",\"plan\":1,\"iccid\":\"0012310019719419000\",\"serialNumber\":\"0011900089423197194\",\"subscription\":\"plan01s\",\"lastPortMappingCreatedTime\":null,\"createdTime\":1586584405503,\"expiryTime\":null,\"lastModifiedTime\":1586584405516}]";

const FIXTURE_LIST_2: &str = "[{\"imsi\":\"001050910800000\",\"msisdn\":\"991649918745\",\"ipAddress\":\"10.145.1.2\",\"operatorId\":\"OP9920648489\",\"apn\":\"soracom.io\",\"type\":\"s1.standard\",\"groupId\":\"1135dedb-ec7e-4e8c-ae43-8f2902aaae10\",\"createdAt\":1586584405503,\"lastModifiedAt\":1586584405516,\"expiredAt\":null,\"registeredTime\":null,\"expiryAction\":null,\"terminationEnabled\":false,\"status\":\"active\",\"tags\":{\"tagA\":\"valueA\"},\"sessionStatus\":{\"gtpcTeid\":0,\"lastUpdatedAt\":1586785804388,\"imei\":null,\"location\":null,\"ueIpAddress\":null,\"dnsServers\":null,\"online\":false},\"imeiLock\":null,\"speedClass\":\"s1.standard\",\"moduleType\":\"trio\",\"plan\":1,\"iccid\":\"0012310019719419000\",\"serialNumber\":\"0011900089423197194\",\"subscription\":\"plan01s\",\"lastPortMappingCreatedTime\":null,\"createdTime\":1586584405503,\"expiryTime\":null,\"lastModifiedTime\":1586584405516}]";

#[test]
fn parse() {
    let resbody = FIXTURE_LIST_1;
    let resbody: Vec<soracom_sdk::model::Subscriber> = decode_subscriber_list(resbody).unwrap();
    println!("{:?}", resbody);
    let resbody = FIXTURE_LIST_2;
    let resbody: Vec<soracom_sdk::model::Subscriber> = decode_subscriber_list(resbody).unwrap();
    println!("{:?}", resbody);
}

#[test]
fn fixture_fields_decode() {
    let subs = decode_subscriber_list(FIXTURE_LIST_1).unwrap();
    assert_eq!(subs.len(), 1);
    let s = &subs[0];
    assert_eq!(s.imsi, "001050910800000");
    assert_eq!(s.msisdn, "991649918745");
    assert_eq!(s.apn, "soracom.io");
    assert_eq!(s.created_at.millis, 1586584405503);
    assert_eq!(s.last_modified_at, Some(Timestamp { millis: 1586584405516 }));
    assert_eq!(s.expired_at, None);
    assert!(s.ip_address.is_none());
    assert!(s.group_id.is_none());
    assert!(s.session_status.is_none());
    assert!(s.imei_lock.is_none());
    assert_eq!(s.plan, 1);
    assert_eq!(s.status, "ready");
    assert!(!s.termination_enabled);
    assert!(s.tags.is_empty());
}

#[test]
fn fixture_session_status_decodes() {
    let subs = decode_subscriber_list(FIXTURE_LIST_2).unwrap();
    let s = &subs[0];
    assert_eq!(s.ip_address.as_deref(), Some("10.145.1.2"));
    assert_eq!(s.tags, vec![("tagA".to_string(), "valueA".to_string())]);
    let st = s.session_status.as_ref().unwrap();
    assert!(!st.online);
    assert_eq!(st.last_updated_at, Some(Timestamp { millis: 1586785804388 }));
    assert!(st.imei.is_none());
    assert!(st.dns_servers.is_none());
    assert!(st.cell.is_none());
}

#[test]
fn null_optional_fields_decode_to_absence() {
    let body = "{\"imsi\":\"1\",\"msisdn\":\"2\",\"ipAddress\":null,\"operatorId\":\"OP\",\"apn\":\"a\",\"groupId\":null,\"createdAt\":5,\"lastModifiedAt\":null,\"expiredAt\":null,\"expiryAction\":null,\"terminationEnabled\":true,\"status\":\"ready\",\"tags\":{},\"sessionStatus\":null,\"imeiLock\":null,\"speedClass\":\"s\",\"moduleType\":\"m\",\"plan\":0,\"iccid\":null,\"serialNumber\":\"sn\"}";
    let s = decode_subscriber(body).unwrap();
    assert_eq!(s.expired_at, None);
    assert_eq!(s.last_modified_at, None);
    assert!(s.session_status.is_none());
    assert!(s.iccid.is_none());
}

#[test]
fn missing_required_field_is_decode_error() {
    let body = "{\"msisdn\":\"2\"}";
    let e = decode_subscriber(body).unwrap_err();
    assert!(matches!(e.kind(), ErrorKind::Decode(_)));
}

#[test]
fn malformed_json_is_decode_error() {
    let e = decode_subscriber_list("[{").unwrap_err();
    assert!(matches!(e.kind(), ErrorKind::Decode(_)));
}

#[test]
fn auth_request_encodes_exactly() {
    let req = AuthRequest {
        auth_key_id: "keyId-000000000000001".to_string(),
        auth_key: "secret-key".to_string(),
        token_timeout_seconds: 60,
    };
    let out = encode_auth_request(&req);
    assert_eq!(
        String::from_utf8(out).unwrap(),
        "{\"authKeyId\":\"keyId-000000000000001\",\"authKey\":\"secret-key\",\"tokenTimeoutSeconds\":60}"
    );
}

#[test]
fn auth_request_round_trips() {
    let req = AuthRequest {
        auth_key_id: "keyId-abc".to_string(),
        auth_key: "secret xyz {with} [brackets]".to_string(),
        token_timeout_seconds: 4294967295,
    };
    let out = encode_auth_request(&req);
    let body = String::from_utf8(out).unwrap();
    let back = decode_auth_request(&body).unwrap();
    assert_eq!(back.auth_key_id, req.auth_key_id);
    assert_eq!(back.auth_key, req.auth_key);
    assert_eq!(back.token_timeout_seconds, req.token_timeout_seconds);
}

#[test]
fn auth_request_round_trips_with_escapes() {
    let req = AuthRequest {
        auth_key_id: "key\"with\"quotes".to_string(),
        auth_key: "back\\slash\nnewline\ttab\u{1}ctl \u{e9}t\u{e9}".to_string(),
        token_timeout_seconds: 60,
    };
    let out = encode_auth_request(&req);
    let body = String::from_utf8(out).unwrap();
    let back = decode_auth_request(&body).unwrap();
    assert_eq!(back.auth_key_id, req.auth_key_id);
    assert_eq!(back.auth_key, req.auth_key);
    assert_eq!(back.token_timeout_seconds, req.token_timeout_seconds);
}

#[test]
fn auth_request_escapes_exactly() {
    let req = AuthRequest {
        auth_key_id: "k\"1".to_string(),
        auth_key: "s\\2\n\u{1}".to_string(),
        token_timeout_seconds: 60,
    };
    let out = encode_auth_request(&req);
    assert_eq!(
        String::from_utf8(out).unwrap(),
        "{\"authKeyId\":\"k\\\"1\",\"authKey\":\"s\\\\2\\n\\u0001\",\"tokenTimeoutSeconds\":60}"
    );
}

#[test]
fn escaped_tag_values_decode() {
    let body = "{\"imsi\":\"1\",\"msisdn\":\"2\",\"operatorId\":\"OP\",\"apn\":\"a\",\"createdAt\":5,\"lastModifiedAt\":null,\"expiredAt\":null,\"terminationEnabled\":true,\"status\":\"line1\\nline2\",\"tags\":{\"quote\":\"say \\\"hi\\\"\"},\"sessionStatus\":null,\"imeiLock\":null,\"speedClass\":\"s\",\"moduleType\":\"m\",\"plan\":0,\"serialNumber\":\"sn\"}";
    let s = decode_subscriber(body).unwrap();
    assert_eq!(s.status, "line1\nline2");
    assert_eq!(s.tags, vec![("quote".to_string(), "say \"hi\"".to_string())]);
}

#[test]
fn auth_response_decodes() {
    let body = "{\"apiKey\":\"api-key-1\",\"operatorId\":\"OP1\",\"token\":\"tok-1\"}";
    let a = decode_auth_response(body).unwrap();
    assert_eq!(a.api_key, "api-key-1");
    assert_eq!(a.operator_id, "OP1");
    assert_eq!(a.token, "tok-1");
}

#[test]
fn registration_body_encodes_exactly() {
    let regi = SubscriberRegistration {
        imsi: "001050910800000".to_string(),
        registration_secret: "s3cr3t".to_string(),
    };
    let body = regi.fmt_registration_body();
    assert_eq!(
        String::from_utf8(body).unwrap(),
        "{\"registrationSecret\":\"s3cr3t\"}"
    );
}

#[test]
fn timestamp_millis_round_trip() {
    let t = Timestamp::from_epoch_millis(1586584405503);
    assert_eq!(t.unix_seconds(), 1586584405);
    assert_eq!(t.subsec_millis(), 503);
    assert_eq!(t.to_epoch_millis(), 1586584405503);
}

#[test]
fn timestamp_before_epoch_splits_with_floor() {
    let t = Timestamp::from_epoch_millis(-1);
    assert_eq!(t.unix_seconds(), -1);
    assert_eq!(t.subsec_millis(), 999);
    assert_eq!(t.to_epoch_millis(), -1);
    let u = Timestamp::from_epoch_millis(-1000);
    assert_eq!(u.unix_seconds(), -1);
    assert_eq!(u.subsec_millis(), 0);
}
