use acl_accounts::builder;
use acl_accounts::error::JsonKind;
use acl_accounts::AclAccountsMessage;
use acl_accounts::AclAccountsMessageAccountsValueKey;
use acl_accounts::AclAccountsMessageAccountsValueValue;
use acl_accounts::DecodeError;
use acl_accounts::Json;

fn example_text() -> &'static str {
    "{\"accounts\":{\"svc1\":{\"categories\":[\"read\",\"write\"]}}}"
}

#[test]
fn example_deserializes_and_reserializes_exactly() {
    let m = AclAccountsMessage::deserialize(example_text()).unwrap();
    assert_eq!(m.accounts.len(), 1);
    assert_eq!(m.accounts[0].0.as_str(), "svc1");
    let entries = &m.accounts[0].1;
    assert_eq!(entries.len(), 1);
    assert!(matches!(entries[0].0, AclAccountsMessageAccountsValueKey::Categories));
    match &entries[0].1 {
        AclAccountsMessageAccountsValueValue::Array(items) => {
            assert_eq!(items.len(), 2);
            assert_eq!(items[0].as_str(), "read");
            assert_eq!(items[1].as_str(), "write");
        }
        AclAccountsMessageAccountsValueValue::String(_) => panic!("expected the array alternative"),
    }
    assert_eq!(m.metadata.len(), 0);
    assert_eq!(m.serialize().as_str(), example_text());
}

#[test]
fn round_trip_keeps_every_field() {
    let entries = vec![
        (
            AclAccountsMessageAccountsValueKey::Keys,
            AclAccountsMessageAccountsValueValue::String(String::from("k1")),
        ),
        (
            AclAccountsMessageAccountsValueKey::Profile,
            AclAccountsMessageAccountsValueValue::Array(vec![
                String::from("p"),
                String::from("q"),
            ]),
        ),
    ];
    let accounts = vec![(String::from("alpha"), entries)];
    let metadata = vec![
        (String::from("x"), Json::Num(String::from("1"))),
        (
            String::from("tags"),
            Json::Arr(vec![Json::Str(String::from("a")), Json::Bool(true), Json::Null]),
        ),
    ];
    let m = AclAccountsMessage::builder()
        .accounts(accounts)
        .metadata(metadata)
        .build()
        .unwrap();
    let text = m.serialize();
    let back = AclAccountsMessage::deserialize(&text).unwrap();
    assert_eq!(back.accounts.len(), 1);
    assert_eq!(back.accounts[0].0.as_str(), "alpha");
    assert_eq!(back.accounts[0].1.len(), 2);
    assert!(matches!(back.accounts[0].1[0].0, AclAccountsMessageAccountsValueKey::Keys));
    assert!(matches!(back.accounts[0].1[1].0, AclAccountsMessageAccountsValueKey::Profile));
    // parsing sorts object keys (serde_json's map order), so "tags" now
    // precedes "x"; both survive with their values
    assert_eq!(back.metadata.len(), 2);
    assert_eq!(back.metadata[0].0.as_str(), "tags");
    assert_eq!(back.metadata[1].0.as_str(), "x");
    assert!(matches!(&back.metadata[1].1, Json::Num(s) if s.as_str() == "1"));
    // a second round trip reproduces its text exactly
    let text2 = back.serialize();
    let back2 = AclAccountsMessage::deserialize(&text2).unwrap();
    assert_eq!(back2.serialize(), text2);
}

#[test]
fn unknown_enum_key_is_rejected() {
    let text = "{\"accounts\":{\"svc\":{\"colour\":[\"read\"]}}}";
    let r = AclAccountsMessage::deserialize(text);
    assert_eq!(r.unwrap_err(), DecodeError::InvalidEnumValue);
}

#[test]
fn union_rejects_a_number() {
    let text = "{\"accounts\":{\"svc\":{\"keys\":5}}}";
    let r = AclAccountsMessage::deserialize(text);
    assert_eq!(r.unwrap_err(), DecodeError::NoMatchingVariant(JsonKind::NumKind));
}

#[test]
fn union_rejects_an_object() {
    let text = "{\"accounts\":{\"svc\":{\"keys\":{\"a\":1}}}}";
    let r = AclAccountsMessage::deserialize(text);
    assert_eq!(r.unwrap_err(), DecodeError::NoMatchingVariant(JsonKind::ObjKind));
}

#[test]
fn union_rejects_an_array_with_a_non_string() {
    let text = "{\"accounts\":{\"svc\":{\"keys\":[\"a\",3]}}}";
    let r = AclAccountsMessage::deserialize(text);
    assert_eq!(r.unwrap_err(), DecodeError::NoMatchingVariant(JsonKind::ArrKind));
}

#[test]
fn union_accepts_a_bare_string() {
    let text = "{\"accounts\":{\"svc\":{\"profile\":\"admin\"}}}";
    let m = AclAccountsMessage::deserialize(text).unwrap();
    match &m.accounts[0].1[0].1 {
        AclAccountsMessageAccountsValueValue::String(s) => assert_eq!(s.as_str(), "admin"),
        AclAccountsMessageAccountsValueValue::Array(_) => panic!("expected the string alternative"),
    }
    assert_eq!(m.serialize().as_str(), text);
}

#[test]
fn build_without_accounts_fails_naming_accounts() {
    let r = AclAccountsMessage::builder().build();
    let e = r.err().unwrap();
    assert_eq!(e.message().as_str(), "no value supplied for accounts");
}

#[test]
fn build_with_accounts_succeeds_with_empty_metadata() {
    let m = AclAccountsMessage::builder().accounts(Vec::new()).build().unwrap();
    assert_eq!(m.accounts.len(), 0);
    assert_eq!(m.metadata.len(), 0);
}

#[test]
fn empty_metadata_is_omitted_and_nonempty_is_kept() {
    let m = AclAccountsMessage::builder().accounts(Vec::new()).build().unwrap();
    let text = m.serialize();
    assert_eq!(text.as_str(), "{\"accounts\":{}}");
    let with = AclAccountsMessage::builder()
        .accounts(Vec::new())
        .metadata(vec![(String::from("x"), Json::Num(String::from("1")))])
        .build()
        .unwrap();
    let text2 = with.serialize();
    assert_eq!(text2.as_str(), "{\"accounts\":{},\"metadata\":{\"x\":1}}");
    let back = AclAccountsMessage::deserialize(&text2).unwrap();
    assert_eq!(back.metadata.len(), 1);
    assert_eq!(back.metadata[0].0.as_str(), "x");
}

#[test]
fn missing_accounts_field_is_a_deserialize_error() {
    assert_eq!(
        AclAccountsMessage::deserialize("{}").unwrap_err(),
        DecodeError::MissingRequiredField
    );
    assert_eq!(
        AclAccountsMessage::deserialize("{\"metadata\":{}}").unwrap_err(),
        DecodeError::MissingRequiredField
    );
}

#[test]
fn shape_errors_at_the_top_level() {
    assert_eq!(AclAccountsMessage::deserialize("[1,2]").unwrap_err(), DecodeError::TypeMismatch);
    assert_eq!(
        AclAccountsMessage::deserialize("{\"accounts\":3}").unwrap_err(),
        DecodeError::TypeMismatch
    );
    assert_eq!(
        AclAccountsMessage::deserialize("{\"accounts\":{\"svc\":[]}}").unwrap_err(),
        DecodeError::TypeMismatch
    );
    assert_eq!(
        AclAccountsMessage::deserialize("{\"accounts\":{},\"metadata\":7}").unwrap_err(),
        DecodeError::TypeMismatch
    );
    assert_eq!(AclAccountsMessage::deserialize("not json").unwrap_err(), DecodeError::InvalidJson);
}

#[test]
fn enum_parse_and_format_agree() {
    let wires = ["categories", "keys", "channels", "commands", "profile"];
    for w in wires {
        let k = AclAccountsMessageAccountsValueKey::from_str(w).unwrap();
        assert_eq!(k.wire_str(), w);
    }
    let e = AclAccountsMessageAccountsValueKey::from_str("Categories").err().unwrap();
    assert_eq!(e.message().as_str(), "invalid value");
}

#[test]
fn enum_order_follows_declaration() {
    assert!(
        AclAccountsMessageAccountsValueKey::Categories < AclAccountsMessageAccountsValueKey::Keys
    );
    assert!(AclAccountsMessageAccountsValueKey::Keys < AclAccountsMessageAccountsValueKey::Channels);
    assert!(
        AclAccountsMessageAccountsValueKey::Channels < AclAccountsMessageAccountsValueKey::Commands
    );
    assert!(
        AclAccountsMessageAccountsValueKey::Commands < AclAccountsMessageAccountsValueKey::Profile
    );
}

#[test]
fn union_from_vec_builds_the_array_alternative() {
    let v = AclAccountsMessageAccountsValueValue::from(vec![String::from("a")]);
    match v {
        AclAccountsMessageAccountsValueValue::Array(items) => {
            assert_eq!(items.len(), 1);
            assert_eq!(items[0].as_str(), "a");
        }
        AclAccountsMessageAccountsValueValue::String(_) => panic!("expected the array alternative"),
    }
}

#[test]
fn builder_json_setters_record_conversion_errors() {
    let b = AclAccountsMessage::builder().accounts_json(&Json::Str(String::from("nope")));
    let e = b.build().err().unwrap();
    assert_eq!(
        e.message().as_str(),
        "error converting supplied value for accounts: value does not have the expected JSON type"
    );
    let b2 = AclAccountsMessage::builder()
        .accounts_json(&Json::Obj(Vec::new()))
        .metadata_json(&Json::Num(String::from("3")));
    let e2 = b2.build().err().unwrap();
    assert_eq!(
        e2.message().as_str(),
        "error converting supplied value for metadata: value does not have the expected JSON type"
    );
}

#[test]
fn builder_json_setters_accept_valid_values() {
    let accounts_json = Json::Obj(vec![(
        String::from("svc1"),
        Json::Obj(vec![(
            String::from("channels"),
            Json::Arr(vec![Json::Str(String::from("c1"))]),
        )]),
    )]);
    let m = AclAccountsMessage::builder().accounts_json(&accounts_json).build().unwrap();
    assert_eq!(m.accounts[0].0.as_str(), "svc1");
    assert!(matches!(m.accounts[0].1[0].0, AclAccountsMessageAccountsValueKey::Channels));
}

#[test]
fn builder_from_record_is_primed() {
    let m = AclAccountsMessage::builder().accounts(Vec::new()).build().unwrap();
    let again = builder::AclAccountsMessage::from(m).build().unwrap();
    assert_eq!(again.accounts.len(), 0);
}

#[test]
fn from_value_reads_a_parsed_tree() {
    let v: serde_json::Value = serde_json::from_str(example_text()).unwrap();
    let m = AclAccountsMessage::from_value(v).unwrap();
    assert_eq!(m.accounts[0].0.as_str(), "svc1");
    let out = m.to_value();
    let expect: serde_json::Value = serde_json::from_str(example_text()).unwrap();
    assert_eq!(out, expect);
}

#[test]
fn metadata_values_survive_nested_shapes() {
    let text = "{\"accounts\":{},\"metadata\":{\"a\":{\"b\":[1,2.5,null,{\"c\":false}]}}}";
    let m = AclAccountsMessage::deserialize(text).unwrap();
    let text2 = m.serialize();
    let v1: serde_json::Value = serde_json::from_str(text).unwrap();
    let v2: serde_json::Value = serde_json::from_str(&text2).unwrap();
    assert_eq!(v1, v2);
}

#[test]
fn conversion_error_carries_its_message() {
    let e = acl_accounts::ConversionError::from("boom");
    assert_eq!(e.message().as_str(), "boom");
    let e2 = acl_accounts::ConversionError::from(String::from("bang"));
    assert_eq!(e2.message().as_str(), "bang");
}

#[test]
fn record_copied_from_a_reference_is_equal() {
    let m = AclAccountsMessage::deserialize(example_text()).unwrap();
    let c = AclAccountsMessage::from(&m);
    assert_eq!(c.serialize(), m.serialize());
    let d = m.deep_clone();
    assert_eq!(d.serialize(), m.serialize());
}

#[test]
fn json_deep_clone_is_equal() {
    let j = Json::Obj(vec![
        (String::from("n"), Json::Num(String::from("-2.5"))),
        (String::from("l"), Json::Arr(vec![Json::Bool(false), Json::Null])),
    ]);
    let c = j.deep_clone();
    match (&j, &c) {
        (Json::Obj(a), Json::Obj(b)) => {
            assert_eq!(a.len(), b.len());
            assert_eq!(a[0].0, b[0].0);
            assert!(matches!(&b[0].1, Json::Num(s) if s.as_str() == "-2.5"));
        }
        _ => panic!("expected objects"),
    }
}
