use coursesync::canvas::{Assignment, Course, Submission, WorkflowState};
use coursesync::json::JsonValue;
use coursesync::notion::{
    DateValue, Page, PropertyValue, PropertyValueInner, StatusSelectValue, TextValue, TitleValue,
};
use coursesync::reconcile::{
    correlation_id, needs_due_update, needs_name_update, needs_update, plan_course,
    update_properties, PlannedCall, UpdateTarget,
};
use coursesync::time::{floor_to_minute, DateStamp};

fn assignment(id: u32, name: &str, due_at: Option<i64>) -> Assignment {
    Assignment {
        id,
        name: name.to_string(),
        due_at,
        html_url: "https://canvas.test/assignment".to_string(),
        submission: None,
    }
}

fn cell(kind: &str, inner: PropertyValueInner) -> PropertyValue {
    PropertyValue {
        id: "prop id".to_string(),
        kind: kind.to_string(),
        inner,
    }
}

fn title_cell(content: &str) -> PropertyValue {
    cell(
        "title",
        PropertyValueInner::Title(vec![TitleValue {
            text: TextValue {
                content: content.to_string(),
                link: None,
            },
            plain_text: content.to_string(),
        }]),
    )
}

fn due_cell(seconds: i64) -> PropertyValue {
    cell(
        "date",
        PropertyValueInner::Date(Some(DateValue {
            start: DateStamp::from_seconds(seconds),
            end: None,
        })),
    )
}

fn id_cell(value: Option<u32>) -> PropertyValue {
    cell("number", PropertyValueInner::Number(value))
}

fn page(page_id: &str, id: Option<u32>, name: &str, due_seconds: i64) -> Page {
    Page {
        id: page_id.to_string(),
        properties: vec![
            ("id".to_string(), id_cell(id)),
            ("name".to_string(), title_cell(name)),
            ("due".to_string(), due_cell(due_seconds)),
        ],
    }
}

#[test]
fn minute_floor_discards_seconds() {
    assert_eq!(floor_to_minute(1709288130), 1709288100);
    assert_eq!(floor_to_minute(1709288100), 1709288100);
    assert_eq!(floor_to_minute(0), 0);
}

#[test]
fn truncated_due_is_not_drift() {
    // Due 2024-03-01T10:15:30Z against a destination value of
    // 2024-03-01T10:15:00Z: the seconds are discarded, so no drift.
    let a = assignment(42, "HW1", Some(1709288130));
    let p = page("page 1", Some(42), "HW1", 1709288100);
    assert!(!needs_due_update(&p, &a));
    assert!(!needs_update(&p, &a));
}

#[test]
fn rounded_up_due_is_drift() {
    // A destination value of 2024-03-01T10:16:00Z differs from the
    // truncated due and must be flagged.
    let a = assignment(42, "HW1", Some(1709288130));
    let p = page("page 1", Some(42), "HW1", 1709288160);
    assert!(needs_due_update(&p, &a));
    assert!(needs_update(&p, &a));
}

#[test]
fn changed_name_is_drift() {
    let a = assignment(42, "HW1 v2", Some(1709288130));
    let p = page("page 1", Some(42), "HW1", 1709288100);
    assert!(needs_name_update(&p, &a));
    assert!(!needs_due_update(&p, &a));
    assert!(needs_update(&p, &a));
}

#[test]
fn page_without_title_is_drift() {
    let a = assignment(42, "HW1", Some(1709288130));
    let p = Page {
        id: "page 1".to_string(),
        properties: vec![
            ("id".to_string(), id_cell(Some(42))),
            ("due".to_string(), due_cell(1709288100)),
        ],
    };
    assert!(needs_name_update(&p, &a));
}

#[test]
fn synced_assignment_makes_no_calls() {
    let a = assignment(42, "HW1", Some(1709288130));
    let p = page("page 1", Some(42), "HW1", 1709288100);
    let calls = plan_course(&vec![a], vec![p], "CS101");
    assert!(calls.is_empty());
}

#[test]
fn missing_due_date_never_mutates() {
    let a = assignment(42, "HW1", None);
    let p = page("page 1", Some(42), "something else entirely", 1709288160);
    let calls = plan_course(&vec![a], vec![p], "CS101");
    assert!(calls.is_empty());

    let calls = plan_course(&vec![assignment(42, "HW1", None)], vec![], "CS101");
    assert!(calls.is_empty());
}

#[test]
fn null_id_page_is_never_matched() {
    // The page matches the assignment in everything but carries a null id,
    // so it is left out of the index and a fresh page is created instead.
    let a = assignment(42, "HW1", Some(1709288130));
    let p = page("page 1", None, "HW1", 1709288100);
    assert_eq!(correlation_id(&p), None);
    let calls = plan_course(&vec![a], vec![p], "CS101");
    assert_eq!(calls.len(), 2);
    assert!(matches!(calls[0], PlannedCall::Create { .. }));
    assert!(matches!(
        calls[1],
        PlannedCall::Update {
            target: UpdateTarget::Created,
            ..
        }
    ));
}

#[test]
fn drifted_page_gets_one_update() {
    let a = assignment(42, "HW1 v2", Some(1709288130));
    let p = page("page 77", Some(42), "HW1", 1709288100);
    let calls = plan_course(&vec![a], vec![p], "CS101");
    assert_eq!(calls.len(), 1);
    match &calls[0] {
        PlannedCall::Update { target, properties } => {
            assert_eq!(*target, UpdateTarget::Existing("page 77".to_string()));
            assert_eq!(properties.len(), 2);
            assert_eq!(properties[0].0, "name");
            assert_eq!(properties[1].0, "due");
        }
        other => panic!("unexpected call: {:?}", other),
    }
}

#[test]
fn duplicate_id_later_page_wins() {
    let a = assignment(42, "HW1", Some(1709288130));
    let stale = page("early page", Some(42), "old name", 1709288160);
    let synced = page("late page", Some(42), "HW1", 1709288100);
    let calls = plan_course(&vec![a], vec![stale, synced], "CS101");
    assert!(calls.is_empty());

    let a = assignment(42, "HW1", Some(1709288130));
    let synced = page("early page", Some(42), "HW1", 1709288100);
    let stale = page("late page", Some(42), "old name", 1709288160);
    let calls = plan_course(&vec![a], vec![synced, stale], "CS101");
    assert_eq!(calls.len(), 1);
    match &calls[0] {
        PlannedCall::Update { target, .. } => {
            assert_eq!(*target, UpdateTarget::Existing("late page".to_string()));
        }
        other => panic!("unexpected call: {:?}", other),
    }
}

#[test]
fn end_to_end_single_assignment() {
    // One course aliased to subject CS101, one assignment due
    // 2024-03-01T10:00:00Z, and no existing pages: exactly one create with
    // the seed cells, then exactly one update with the name and due cells.
    let a = assignment(42, "HW1", Some(1709287200));
    let calls = plan_course(&vec![a], vec![], "CS101");
    assert_eq!(calls.len(), 2);

    let expected_seed = vec![
        (
            "id".to_string(),
            PropertyValueInner::Number(Some(42)),
        ),
        (
            "subject".to_string(),
            PropertyValueInner::Select(Some(StatusSelectValue::new("CS101"))),
        ),
    ];
    assert_eq!(
        calls[0],
        PlannedCall::Create {
            properties: expected_seed
        }
    );

    let expected_update = vec![
        (
            "name".to_string(),
            PropertyValueInner::Title(vec![TitleValue::new("HW1", None)]),
        ),
        (
            "due".to_string(),
            PropertyValueInner::Date(Some(DateValue {
                start: DateStamp {
                    seconds: 1709287200,
                    text: "2024-03-01T10:00:00+00:00".to_string(),
                },
                end: None,
            })),
        ),
    ];
    assert_eq!(
        calls[1],
        PlannedCall::Update {
            target: UpdateTarget::Created,
            properties: expected_update
        }
    );
}

#[test]
fn update_due_keeps_full_precision() {
    // The comparison truncates to the minute, but the written value keeps
    // the assignment's full due instant.
    let a = assignment(42, "HW1", Some(1709288130));
    let properties = update_properties(&a);
    match &properties[1].1 {
        PropertyValueInner::Date(Some(dv)) => {
            assert_eq!(dv.start.seconds, 1709288130);
            assert_eq!(dv.start.text, "2024-03-01T10:15:30+00:00");
            assert!(dv.end.is_none());
        }
        other => panic!("unexpected due cell: {:?}", other),
    }
}

#[test]
fn assignments_are_processed_in_order() {
    let first = assignment(1, "HW1", Some(1709287200));
    let second = assignment(2, "HW2", None);
    let third = assignment(3, "HW3", Some(1709288130));
    let synced_third = page("page 3", Some(3), "HW3", 1709288100);
    let calls = plan_course(&vec![first, second, third], vec![synced_third], "CS101");
    // The first assignment has no page: create then update. The second has
    // no due date, the third is in sync: nothing for either.
    assert_eq!(calls.len(), 2);
    assert!(matches!(calls[0], PlannedCall::Create { .. }));
    assert!(matches!(
        calls[1],
        PlannedCall::Update {
            target: UpdateTarget::Created,
            ..
        }
    ));
}

#[test]
fn course_and_submission_records() {
    let course = Course {
        id: 7,
        name: "Algorithms".to_string(),
        enrollment_term_id: 3,
    };
    assert_eq!(course.id, 7);
    let submission = Submission {
        id: 9,
        workflow_state: WorkflowState::Graded,
    };
    assert_eq!(submission.workflow_state, WorkflowState::Graded);
}

#[test]
fn canvas_decoding_defaults_and_failures() {
    // A course with no name and no term decodes with the defaults.
    let course_json = JsonValue::Obj(vec![("id".to_string(), JsonValue::Int(7))]);
    let course = coursesync::canvas::decode_course(&course_json).unwrap();
    assert_eq!(course.id, 7);
    assert_eq!(course.name, "");
    assert_eq!(course.enrollment_term_id, 0);

    // An assignment with a null due date has none; malformed due text
    // fails the read.
    let assignment_json = JsonValue::Obj(vec![
        ("id".to_string(), JsonValue::Int(42)),
        ("name".to_string(), JsonValue::Str("HW1".to_string())),
        ("due_at".to_string(), JsonValue::Null),
        (
            "html_url".to_string(),
            JsonValue::Str("https://canvas.test/42".to_string()),
        ),
    ]);
    let a = coursesync::canvas::decode_assignment(&assignment_json).unwrap();
    assert_eq!(a.due_at, None);

    let bad_due = JsonValue::Obj(vec![
        ("id".to_string(), JsonValue::Int(42)),
        ("name".to_string(), JsonValue::Str("HW1".to_string())),
        (
            "due_at".to_string(),
            JsonValue::Str("next week".to_string()),
        ),
        (
            "html_url".to_string(),
            JsonValue::Str("https://canvas.test/42".to_string()),
        ),
    ]);
    assert_eq!(coursesync::canvas::decode_assignment(&bad_due), None);

    let submission_json = JsonValue::Obj(vec![
        ("id".to_string(), JsonValue::Int(9)),
        (
            "workflow_state".to_string(),
            JsonValue::Str("pending_review".to_string()),
        ),
    ]);
    let s = coursesync::canvas::decode_submission(&submission_json).unwrap();
    assert_eq!(s.workflow_state, WorkflowState::PendingReview);

    let bad_state = JsonValue::Obj(vec![
        ("id".to_string(), JsonValue::Int(9)),
        (
            "workflow_state".to_string(),
            JsonValue::Str("lost".to_string()),
        ),
    ]);
    assert_eq!(coursesync::canvas::decode_submission(&bad_state), None);
}

#[test]
fn query_response_decoding() {
    let response = JsonValue::Obj(vec![
        ("results".to_string(), JsonValue::Arr(vec![])),
        ("has_more".to_string(), JsonValue::Bool(true)),
        ("next_cursor".to_string(), JsonValue::Null),
    ]);
    let (pages, has_more) = coursesync::notion::decode_query_response(&response).unwrap();
    assert!(pages.is_empty());
    assert!(has_more);

    let missing_results = JsonValue::Obj(vec![("has_more".to_string(), JsonValue::Bool(false))]);
    assert_eq!(
        coursesync::notion::decode_query_response(&missing_results),
        None
    );
}

#[test]
fn database_schema_decoding() {
    let schema = JsonValue::Obj(vec![
        (
            "id".to_string(),
            JsonValue::Str("db id".to_string()),
        ),
        (
            "properties".to_string(),
            JsonValue::Obj(vec![
                (
                    "subject".to_string(),
                    JsonValue::Obj(vec![
                        ("id".to_string(), JsonValue::Str("aa".to_string())),
                        (
                            "name".to_string(),
                            JsonValue::Str("subject".to_string()),
                        ),
                        ("type".to_string(), JsonValue::Str("select".to_string())),
                        (
                            "select".to_string(),
                            JsonValue::Obj(vec![(
                                "options".to_string(),
                                JsonValue::Arr(vec![JsonValue::Obj(vec![
                                    ("id".to_string(), JsonValue::Str("o1".to_string())),
                                    (
                                        "name".to_string(),
                                        JsonValue::Str("CS101".to_string()),
                                    ),
                                    (
                                        "color".to_string(),
                                        JsonValue::Str("red".to_string()),
                                    ),
                                ])]),
                            )]),
                        ),
                    ]),
                ),
                (
                    "name".to_string(),
                    JsonValue::Obj(vec![
                        ("id".to_string(), JsonValue::Str("bb".to_string())),
                        ("name".to_string(), JsonValue::Str("name".to_string())),
                        ("type".to_string(), JsonValue::Str("title".to_string())),
                        ("title".to_string(), JsonValue::Obj(vec![])),
                    ]),
                ),
            ]),
        ),
    ]);
    let db = coursesync::notion::decode_database(&schema).unwrap();
    assert_eq!(db.id, "db id");
    assert_eq!(db.properties.len(), 2);
    match &db.properties[0].1.inner {
        coursesync::notion::PropertyTypeInner::Select { options } => {
            assert_eq!(options.len(), 1);
            assert_eq!(options[0].name, "CS101");
            assert_eq!(options[0].description, None);
        }
        other => panic!("unexpected column kind: {:?}", other),
    }

    let unknown_kind = JsonValue::Obj(vec![
        ("id".to_string(), JsonValue::Str("db id".to_string())),
        (
            "properties".to_string(),
            JsonValue::Obj(vec![(
                "odd".to_string(),
                JsonValue::Obj(vec![
                    ("id".to_string(), JsonValue::Str("cc".to_string())),
                    ("name".to_string(), JsonValue::Str("odd".to_string())),
                    ("type".to_string(), JsonValue::Str("banner".to_string())),
                ]),
            )]),
        ),
    ]);
    assert_eq!(coursesync::notion::decode_database(&unknown_kind), None);
}
