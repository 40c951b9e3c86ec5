use soracom_sdk::option::ListSubscribersOptions;
use soracom_sdk::option::QueryParams;
use soracom_sdk::option::TagValueMatchMode;

#[test]
fn list_subscriber() {
    let opt = ListSubscribersOptions {
        tag_name: Some("aaa".to_string()),
        ..Default::default()
    };

    println!("{:?}", opt.to_query_params())
}

#[test]
fn default_options_serialize_to_none() {
    let opt = ListSubscribersOptions::default();
    assert_eq!(opt.to_query_params(), None);
}

#[test]
fn tag_name_only_serializes_to_single_pair() {
    let opt = ListSubscribersOptions {
        tag_name: Some("aaa".to_string()),
        ..Default::default()
    };
    assert_eq!(opt.to_query_params(), Some("tag_name=aaa".to_string()));
}

#[test]
fn present_fields_join_in_declaration_order() {
    let opt = ListSubscribersOptions {
        tag_name: Some("env".to_string()),
        tag_value: Some("prod".to_string()),
        tag_value_match_mode: Some(TagValueMatchMode::Exact),
        limit: Some(10),
        ..Default::default()
    };
    assert_eq!(
        opt.to_query_params(),
        Some("tag_name=env&tag_value=prod&tag_value_match_mode=exact&limit=10".to_string())
    );
}

#[test]
fn unspecified_match_mode_encodes_as_empty_value() {
    let opt = ListSubscribersOptions {
        tag_value_match_mode: Some(TagValueMatchMode::Unspecified),
        ..Default::default()
    };
    assert_eq!(opt.to_query_params(), Some("tag_value_match_mode=".to_string()));
}

#[test]
fn prefix_match_mode_uses_lowercase_form() {
    let opt = ListSubscribersOptions {
        tag_value_match_mode: Some(TagValueMatchMode::Prefix),
        ..Default::default()
    };
    assert_eq!(opt.to_query_params(), Some("tag_value_match_mode=prefix".to_string()));
}

#[test]
fn values_are_percent_encoded() {
    let opt = ListSubscribersOptions {
        tag_value: Some("a b/c".to_string()),
        ..Default::default()
    };
    assert_eq!(opt.to_query_params(), Some("tag_value=a%20b%2Fc".to_string()));
}

#[test]
fn negative_limit_keeps_its_sign() {
    let opt = ListSubscribersOptions {
        limit: Some(-5),
        ..Default::default()
    };
    assert_eq!(opt.to_query_params(), Some("limit=-5".to_string()));
}

#[test]
fn default_match_mode_is_unspecified() {
    assert_eq!(TagValueMatchMode::default(), TagValueMatchMode::Unspecified);
    assert_eq!(TagValueMatchMode::Exact.wire_str(), "exact");
    assert_eq!(TagValueMatchMode::Unspecified.wire_str(), "");
}
