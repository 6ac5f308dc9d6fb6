use coursesync::filter::{encode_filter, encode_query_body, Filter, FilterJoin, FilterMatch};
use coursesync::json::JsonValue;
use coursesync::notion::{
    decode_page, decode_payload, decode_value, encode_create_body, encode_payload,
    encode_properties, encode_update_body, kind_tag, Database, DateValue, PropertyValueInner,
    StatusSelectValue, TitleValue,
};
use coursesync::time::DateStamp;

fn key(k: &str, v: JsonValue) -> (String, JsonValue) {
    (k.to_string(), v)
}

fn jstr(s: &str) -> JsonValue {
    JsonValue::Str(s.to_string())
}

fn obj(entries: Vec<(String, JsonValue)>) -> JsonValue {
    JsonValue::Obj(entries)
}

fn from_serde(v: &serde_json::Value) -> JsonValue {
    match v {
        serde_json::Value::Null => JsonValue::Null,
        serde_json::Value::Bool(b) => JsonValue::Bool(*b),
        serde_json::Value::Number(n) => JsonValue::Int(n.as_i64().unwrap()),
        serde_json::Value::String(s) => JsonValue::Str(s.clone()),
        serde_json::Value::Array(xs) => JsonValue::Arr(xs.iter().map(from_serde).collect()),
        serde_json::Value::Object(m) => {
            JsonValue::Obj(m.iter().map(|(k, x)| (k.clone(), from_serde(x))).collect())
        }
    }
}

#[test]
fn test_filter_serialize() {
    let filter = Filter::Join(FilterJoin::And(vec![
        Filter::Match {
            property: "name".into(),
            inner: FilterMatch::Title {
                equals: "test name".into(),
            },
        },
        Filter::Match {
            property: "subject".into(),
            inner: FilterMatch::Select {
                equals: "my class".into(),
            },
        },
    ]));
    let body = encode_query_body(&filter);
    let expected = obj(vec![key(
        "filter",
        obj(vec![key(
            "and",
            JsonValue::Arr(vec![
                obj(vec![
                    key("property", jstr("name")),
                    key("title", obj(vec![key("equals", jstr("test name"))])),
                ]),
                obj(vec![
                    key("property", jstr("subject")),
                    key("select", obj(vec![key("equals", jstr("my class"))])),
                ]),
            ]),
        )]),
    )]);
    assert_eq!(body, expected);
}

#[test]
fn query_resp_deser() {
    let str = r#"
        [{
            "object": "page",
            "id": "lskdjfsldkfjslkjfdlskfjslkdf",
            "properties": {
                "status": {
                    "id": "AAAA",
                    "type": "status",
                    "status": {
                        "id": "lskdfjsdlkfjsdfldkjfldfjkl",
                        "name": "planned",
                        "color": "default"
                    }
                }
            }
        }]"#;
    let parsed: serde_json::Value = serde_json::from_str(str).unwrap();
    let values = match from_serde(&parsed) {
        JsonValue::Arr(xs) => xs,
        _ => panic!("expected an array of pages"),
    };
    let pages: Vec<_> = values.iter().map(|v| decode_page(v).unwrap()).collect();
    assert_eq!(pages.len(), 1);
    assert_eq!(pages[0].id, "lskdjfsldkfjslkjfdlskfjslkdf");
    assert_eq!(pages[0].properties.len(), 1);
    let (name, value) = &pages[0].properties[0];
    assert_eq!(name, "status");
    assert_eq!(value.id, "AAAA");
    assert_eq!(value.kind, "status");
    match &value.inner {
        PropertyValueInner::Status(Some(s)) => {
            assert_eq!(s.id, "lskdfjsdlkfjsdfldkjfldfjkl");
            assert_eq!(s.name, "planned");
            assert_eq!(s.color, "default");
        }
        other => panic!("unexpected payload: {:?}", other),
    }
}

#[test]
fn property_ser() {
    let props = vec![
        (
            "name".to_string(),
            PropertyValueInner::Title(vec![TitleValue::new("testing lsdkfjdslkf", None)]),
        ),
        (
            "subject".to_string(),
            PropertyValueInner::Select(Some(StatusSelectValue::new("subject 2"))),
        ),
    ];
    let encoded = obj(vec![key("properties", encode_properties(&props))]);
    let expected = obj(vec![key(
        "properties",
        obj(vec![
            key(
                "name",
                obj(vec![key(
                    "title",
                    JsonValue::Arr(vec![obj(vec![key(
                        "text",
                        obj(vec![
                            key("content", jstr("testing lsdkfjdslkf")),
                            key("link", JsonValue::Null),
                        ]),
                    )])]),
                )]),
            ),
            key(
                "subject",
                obj(vec![key(
                    "select",
                    obj(vec![key("name", jstr("subject 2"))]),
                )]),
            ),
        ]),
    )]);
    assert_eq!(encoded, expected);
}

#[test]
fn create_page_json() {
    let db = Database {
        id: "fake database id".into(),
        properties: Vec::new(),
    };
    let properties = vec![
        ("id".to_string(), PropertyValueInner::Number(Some(3333))),
        (
            "subject".to_string(),
            PropertyValueInner::Select(Some(StatusSelectValue::new("subject 2"))),
        ),
    ];
    let body = encode_create_body(db.id.as_str(), &properties);
    let expected = obj(vec![
        key(
            "parent",
            obj(vec![key("database_id", jstr("fake database id"))]),
        ),
        key(
            "properties",
            obj(vec![
                key("id", obj(vec![key("number", JsonValue::Int(3333))])),
                key(
                    "subject",
                    obj(vec![key(
                        "select",
                        obj(vec![key("name", jstr("subject 2"))]),
                    )]),
                ),
            ]),
        ),
    ]);
    assert_eq!(body, expected);
}

#[test]
fn update_page_json() {
    let properties = vec![
        (
            "name".to_string(),
            PropertyValueInner::Title(vec![TitleValue::new("test title", None)]),
        ),
        (
            "due".to_string(),
            PropertyValueInner::Date(Some(DateValue {
                start: DateStamp::from_seconds(1709288130),
                end: None,
            })),
        ),
    ];
    let body = encode_update_body(&properties);
    let expected = obj(vec![key(
        "properties",
        obj(vec![
            key(
                "name",
                obj(vec![key(
                    "title",
                    JsonValue::Arr(vec![obj(vec![key(
                        "text",
                        obj(vec![
                            key("content", jstr("test title")),
                            key("link", JsonValue::Null),
                        ]),
                    )])]),
                )]),
            ),
            key(
                "due",
                obj(vec![key(
                    "date",
                    obj(vec![
                        key("start", jstr("2024-03-01T10:15:30+00:00")),
                        key("end", JsonValue::Null),
                    ]),
                )]),
            ),
        ]),
    )]);
    assert_eq!(body, expected);
}

#[test]
fn number_round_trip() {
    let v = PropertyValueInner::Number(Some(42));
    let payload = encode_payload(&v);
    assert_eq!(decode_payload(kind_tag(&v), &payload), Some(v));
    let absent = PropertyValueInner::Number(None);
    let payload = encode_payload(&absent);
    assert_eq!(decode_payload(kind_tag(&absent), &payload), Some(absent));
}

#[test]
fn select_round_trip_keeps_the_name() {
    let v = PropertyValueInner::Select(Some(StatusSelectValue {
        id: "server id".into(),
        name: "CS101".into(),
        color: "red".into(),
    }));
    let payload = encode_payload(&v);
    let expected = PropertyValueInner::Select(Some(StatusSelectValue::new("CS101")));
    assert_eq!(decode_payload(kind_tag(&v), &payload), Some(expected));
}

#[test]
fn status_round_trip_keeps_the_name() {
    let v = PropertyValueInner::Status(Some(StatusSelectValue {
        id: "server id".into(),
        name: "planned".into(),
        color: "default".into(),
    }));
    let payload = encode_payload(&v);
    let expected = PropertyValueInner::Status(Some(StatusSelectValue::new("planned")));
    assert_eq!(decode_payload(kind_tag(&v), &payload), Some(expected));
}

#[test]
fn title_round_trip_blanks_plain_text() {
    let v = PropertyValueInner::Title(vec![TitleValue {
        text: coursesync::notion::TextValue {
            content: "HW1".into(),
            link: Some("https://example.test".into()),
        },
        plain_text: "HW1".into(),
    }]);
    let payload = encode_payload(&v);
    let expected = PropertyValueInner::Title(vec![TitleValue {
        text: coursesync::notion::TextValue {
            content: "HW1".into(),
            link: Some("https://example.test".into()),
        },
        plain_text: String::new(),
    }]);
    assert_eq!(decode_payload(kind_tag(&v), &payload), Some(expected));
}

#[test]
fn date_round_trip_keeps_the_instant() {
    let v = PropertyValueInner::Date(Some(DateValue {
        start: DateStamp::from_seconds(1709288130),
        end: Some(DateStamp::from_seconds(1709288160)),
    }));
    let payload = encode_payload(&v);
    assert_eq!(decode_payload(kind_tag(&v), &payload), Some(v));
}

#[test]
fn date_decode_parses_the_start_instant() {
    let payload = obj(vec![
        key("start", jstr("2024-03-01T10:15:30+00:00")),
        key("end", JsonValue::Null),
    ]);
    match decode_payload("date", &payload) {
        Some(PropertyValueInner::Date(Some(dv))) => {
            assert_eq!(dv.start.seconds, 1709288130);
            assert!(dv.end.is_none());
        }
        other => panic!("unexpected payload: {:?}", other),
    }
}

#[test]
fn date_decode_accepts_an_offset() {
    let payload = obj(vec![key("start", jstr("2024-03-01T05:15:30-05:00"))]);
    match decode_payload("date", &payload) {
        Some(PropertyValueInner::Date(Some(dv))) => {
            assert_eq!(dv.start.seconds, 1709288130);
        }
        other => panic!("unexpected payload: {:?}", other),
    }
}

#[test]
fn date_decode_rejects_malformed_text() {
    let payload = obj(vec![key("start", jstr("tomorrow"))]);
    assert_eq!(decode_payload("date", &payload), None);
}

#[test]
fn number_decode_rejects_out_of_range() {
    assert_eq!(decode_payload("number", &JsonValue::Int(-1)), None);
    assert_eq!(decode_payload("number", &JsonValue::Int(4294967296)), None);
}

#[test]
fn unknown_kind_tag_fails() {
    assert_eq!(decode_payload("banner", &JsonValue::Null), None);
}

#[test]
fn value_decode_requires_agreeing_tag() {
    let cell = obj(vec![
        key("id", jstr("AAAA")),
        key("type", jstr("number")),
        key("number", JsonValue::Int(7)),
    ]);
    let value = decode_value(&cell).unwrap();
    assert_eq!(value.inner, PropertyValueInner::Number(Some(7)));

    let disagreeing = obj(vec![
        key("id", jstr("AAAA")),
        key("type", jstr("number")),
        key("select", JsonValue::Null),
    ]);
    assert_eq!(decode_value(&disagreeing), None);
}

#[test]
fn value_decode_accepts_inactive_kinds() {
    let cell = obj(vec![
        key("id", jstr("AAAA")),
        key("type", jstr("checkbox")),
        key("checkbox", JsonValue::Bool(true)),
    ]);
    let value = decode_value(&cell).unwrap();
    assert_eq!(value.inner, PropertyValueInner::Checkbox {});
}

#[test]
fn select_null_reads_as_absent() {
    assert_eq!(
        decode_payload("select", &JsonValue::Null),
        Some(PropertyValueInner::Select(None))
    );
    assert_eq!(
        decode_payload("status", &JsonValue::Null),
        Some(PropertyValueInner::Status(None))
    );
}

#[test]
fn filter_for_one_subject() {
    let filter = Filter::Match {
        property: "subject".into(),
        inner: FilterMatch::Select {
            equals: "CS101".into(),
        },
    };
    let encoded = encode_filter(&filter);
    let expected = obj(vec![
        key("property", jstr("subject")),
        key("select", obj(vec![key("equals", jstr("CS101"))])),
    ]);
    assert_eq!(encoded, expected);
}

#[test]
fn date_filter_text_is_zero_padded() {
    let filter = Filter::Match {
        property: "due".into(),
        inner: FilterMatch::Date {
            equals: coursesync::filter::FilterDate {
                year: 2024,
                month: 3,
                day: 1,
            },
        },
    };
    let encoded = encode_filter(&filter);
    let expected = obj(vec![
        key("property", jstr("due")),
        key("date", obj(vec![key("equals", jstr("2024-03-01"))])),
    ]);
    assert_eq!(encoded, expected);
}

#[test]
fn create_body_wire_text() {
    let properties = vec![
        ("id".to_string(), PropertyValueInner::Number(Some(42))),
        (
            "subject".to_string(),
            PropertyValueInner::Select(Some(StatusSelectValue::new("CS101"))),
        ),
    ];
    let body = encode_create_body("fake database id", &properties);
    assert_eq!(
        coursesync::json::json_text(&body),
        r#"{"parent":{"database_id":"fake database id"},"properties":{"id":{"number":42},"subject":{"select":{"name":"CS101"}}}}"#
    );
}

#[test]
fn update_body_wire_text() {
    let properties = vec![
        (
            "name".to_string(),
            PropertyValueInner::Title(vec![TitleValue::new("HW1", None)]),
        ),
        (
            "due".to_string(),
            PropertyValueInner::Date(Some(DateValue {
                start: DateStamp::from_seconds(1709287200),
                end: None,
            })),
        ),
    ];
    let body = encode_update_body(&properties);
    let expected = r#"{"properties":{"name":{"title":[{"text":{"content":"HW1","link":null}}]},"due":{"date":{"start":"2024-03-01T10:00:00+00:00","end":null}}}}"#;
    assert_eq!(coursesync::json::json_text(&body), expected);
}

#[test]
fn wire_text_escapes_and_numbers() {
    let value = JsonValue::Obj(vec![
        ("empty".to_string(), JsonValue::Arr(vec![])),
        ("flag".to_string(), JsonValue::Bool(false)),
        ("negative".to_string(), JsonValue::Int(-120)),
        (
            "text".to_string(),
            JsonValue::Str("a \"quote\", a \\ and a\nbreak".to_string()),
        ),
        ("zero".to_string(), JsonValue::Int(0)),
    ]);
    let expected = r#"{"empty":[],"flag":false,"negative":-120,"text":"a \"quote\", a \\ and a\nbreak","zero":0}"#;
    assert_eq!(coursesync::json::json_text(&value), expected);
    // An independent JSON reader yields the same tree back; it returns the
    // entries sorted by key, which is the order used above.
    // The wire text round-trips through an independent JSON reader.
    let parsed: serde_json::Value =
        serde_json::from_str(&coursesync::json::json_text(&value)).unwrap();
    assert_eq!(from_serde(&parsed), value);
}

#[test]
fn fractional_numbers_pass_through_unread() {
    // A fractional number in a cell this system reads fails the read, as a
    // whole number is required there; one in an ignored payload does not.
    assert_eq!(
        decode_payload("number", &JsonValue::OtherNumber("3.5".to_string())),
        None
    );
    let cell = obj(vec![
        key("id", jstr("AAAA")),
        key("type", jstr("formula")),
        key(
            "formula",
            obj(vec![key("number", JsonValue::OtherNumber("3.5".to_string()))]),
        ),
    ]);
    let value = decode_value(&cell).unwrap();
    assert_eq!(value.inner, PropertyValueInner::Formula {});
    // The wire text keeps the number exactly as it came.
    assert_eq!(
        coursesync::json::json_text(&JsonValue::OtherNumber("3.5".to_string())),
        "3.5"
    );
}
