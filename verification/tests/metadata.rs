use wikibase_rest_api::edit_metadata::EditMetadata;
use wikibase_rest_api::header_info::HeaderInfo;
use wikibase_rest_api::revision_match::RevisionMatch;
use wikibase_rest_api::statement_value::StatementValue;
use wikibase_rest_api::statement_value_content::{StatementValueContent, TimePrecision};
use wikibase_rest_api::json::{json_eq, JsonValue};

#[test]
fn test_edit_metadata() {
    let mut edit_metadata = EditMetadata::default();
    assert_eq!(edit_metadata.comment(), &None);
    assert!(!edit_metadata.bot());
    assert!(!edit_metadata.minor());
    assert!(edit_metadata.tags().is_empty());

    edit_metadata.set_comment(Some("Test".to_string()));
    assert_eq!(edit_metadata.comment(), &Some("Test".to_string()));

    edit_metadata.set_bot(true);
    assert!(edit_metadata.bot());

    edit_metadata.set_minor(true);
    assert!(edit_metadata.minor());

    edit_metadata.set_tags(vec!["Test".to_string()]);
    assert_eq!(edit_metadata.tags(), &["Test".to_string()]);
}

#[test]
fn test_set_revision_match() {
    let mut edit_metadata = EditMetadata::default();
    let mut revision_match = RevisionMatch::default();
    revision_match.set_modified_since_revisions(vec![1]);
    edit_metadata.set_revision_match(revision_match.clone());
    assert_eq!(edit_metadata.revision_match(), &revision_match);
}

#[test]
fn test_revision_match() {
    let mut revision_match = RevisionMatch::default();
    assert!(revision_match.modified_since_revisions().is_empty());
    assert_eq!(revision_match.modified_since_date(), &None);
    assert!(revision_match.unmodified_since_revisions().is_empty());
    assert_eq!(revision_match.unmodified_since_date(), &None);
    assert!(revision_match.if_match().is_empty());
    assert!(revision_match.if_none_match().is_empty());

    revision_match.set_modified_since_revisions(vec![1, 2, 3]);
    assert_eq!(revision_match.modified_since_revisions(), &[1, 2, 3]);

    revision_match.set_modified_since_date(Some("2021-01-01T00:00:00".to_string()));
    assert_eq!(
        revision_match.modified_since_date(),
        &Some("2021-01-01T00:00:00".to_string())
    );

    revision_match.set_unmodified_since_revisions(vec![4, 5, 6]);
    assert_eq!(revision_match.unmodified_since_revisions(), &[4, 5, 6]);

    revision_match.set_unmodified_since_date(Some("2021-01-02T00:00:00".to_string()));
    assert_eq!(
        revision_match.unmodified_since_date(),
        &Some("2021-01-02T00:00:00".to_string())
    );

    revision_match.set_if_match(vec!["1".to_string(), "2".to_string()]);
    assert_eq!(revision_match.if_match(), &["1".to_string(), "2".to_string()]);

    revision_match.set_if_none_match(vec!["3".to_string(), "4".to_string()]);
    assert_eq!(revision_match.if_none_match(), &["3".to_string(), "4".to_string()]);
}

#[test]
fn test_header_info() {
    let hi = HeaderInfo::new(Some(1234567890), Some("Wed, 21 Oct 2015 07:28:00 GMT".to_string()));
    assert_eq!(hi.revision_id(), Some(1234567890));
    assert_eq!(
        hi.last_modified(),
        &Some("Wed, 21 Oct 2015 07:28:00 GMT".to_string())
    );
    let default = HeaderInfo::default();
    assert_eq!(default.revision_id(), None);
    assert_eq!(default.last_modified(), &None);
}

#[test]
fn content_round_trip_string() {
    let c = StatementValueContent::String("Q42".to_string());
    let j = c.to_json();
    let back = StatementValueContent::from_json(&j).unwrap();
    assert!(json_eq(&back.to_json(), &j));
}

#[test]
fn content_round_trip_time() {
    let c = StatementValueContent::Time {
        time: "+2021-01-01T00:00:00Z".to_string(),
        precision: TimePrecision::Day,
        calendarmodel: "http://www.wikidata.org/entity/Q1985727".to_string(),
    };
    let j = c.to_json();
    let back = StatementValueContent::from_json(&j).unwrap();
    assert!(json_eq(&back.to_json(), &j));
    match back {
        StatementValueContent::Time { precision, .. } => {
            assert_eq!(precision, TimePrecision::Day)
        }
        other => panic!("unexpected content: {other:?}"),
    }
}

#[test]
fn content_round_trip_quantity() {
    let c = StatementValueContent::Quantity {
        amount: "42".to_string(),
        unit: "http://www.wikidata.org/entity/Q11573".to_string(),
    };
    let j = c.to_json();
    let back = StatementValueContent::from_json(&j).unwrap();
    assert!(json_eq(&back.to_json(), &j));
}

#[test]
fn content_round_trip_monolingual() {
    let c = StatementValueContent::new_monolingual_text("en", "foo");
    let j = c.to_json();
    let back = StatementValueContent::from_json(&j).unwrap();
    assert!(json_eq(&back.to_json(), &j));
}

#[test]
fn content_round_trip_location() {
    let c = StatementValueContent::Location {
        latitude: "37.786971".to_string(),
        longitude: "-122.399677".to_string(),
        precision: "0.0001".to_string(),
        globe: "http://www.wikidata.org/entity/Q2".to_string(),
    };
    let j = c.to_json();
    let back = StatementValueContent::from_json(&j).unwrap();
    assert!(json_eq(&back.to_json(), &j));
}

#[test]
fn value_round_trip_all_kinds() {
    for v in [
        StatementValue::new_string("Q5"),
        StatementValue::SomeValue,
        StatementValue::NoValue,
    ] {
        let j = v.to_json();
        let back = StatementValue::from_json(&j).unwrap();
        assert!(json_eq(&back.to_json(), &j));
    }
}

#[test]
fn value_rejects_unknown_kind() {
    let j = JsonValue::Object(vec![(
        "type".to_string(),
        JsonValue::Str("whatever".to_string()),
    )]);
    assert!(StatementValue::from_json(&j).is_err());
}

#[test]
fn content_rejects_unknown_shape() {
    let j = JsonValue::Object(vec![(
        "unrelated".to_string(),
        JsonValue::Str("x".to_string()),
    )]);
    assert!(StatementValueContent::from_json(&j).is_err());
}

#[test]
fn content_rejects_bad_precision() {
    let c = StatementValueContent::Time {
        time: "+2021-01-01T00:00:00Z".to_string(),
        precision: TimePrecision::Day,
        calendarmodel: "x".to_string(),
    };
    let mut j = c.to_json();
    if let JsonValue::Object(pairs) = &mut j {
        for p in pairs.iter_mut() {
            if p.0 == "precision" {
                p.1 = JsonValue::Num("99".to_string());
            }
        }
    }
    assert!(StatementValueContent::from_json(&j).is_err());
}

#[test]
fn merge_envelope_fills_missing_members() {
    let body = JsonValue::Object(vec![(
        "patch".to_string(),
        JsonValue::Array(vec![]),
    )]);
    let tags = vec!["t1".to_string(), "t2".to_string()];
    let comment = Some("hello".to_string());
    let merged = wikibase_rest_api::edit_metadata::merge_edit_envelope(body, &tags, true, &comment);
    match merged {
        JsonValue::Object(pairs) => {
            assert_eq!(pairs.len(), 4);
            assert_eq!(pairs[0].0, "patch");
            assert_eq!(pairs[1].0, "tags");
            assert!(json_eq(
                &pairs[1].1,
                &JsonValue::Array(vec![
                    JsonValue::Str("t1".to_string()),
                    JsonValue::Str("t2".to_string()),
                ])
            ));
            assert!(json_eq(&pairs[2].1, &JsonValue::Bool(true)));
            assert!(json_eq(&pairs[3].1, &JsonValue::Str("hello".to_string())));
        }
        _ => panic!("expected an object"),
    }
}

#[test]
fn merge_envelope_keeps_existing_members() {
    let body = JsonValue::Object(vec![(
        "comment".to_string(),
        JsonValue::Str("mine".to_string()),
    )]);
    let tags: Vec<String> = vec![];
    let merged =
        wikibase_rest_api::edit_metadata::merge_edit_envelope(body, &tags, false, &None);
    match merged {
        JsonValue::Object(pairs) => {
            // the present comment keeps its value; tags and bot are added
            assert_eq!(pairs[0].0, "comment");
            assert!(json_eq(&pairs[0].1, &JsonValue::Str("mine".to_string())));
            assert_eq!(pairs.len(), 3);
        }
        _ => panic!("expected an object"),
    }
}

#[test]
fn merge_envelope_leaves_non_object_alone() {
    let body = JsonValue::Str("x".to_string());
    let merged =
        wikibase_rest_api::edit_metadata::merge_edit_envelope(body, &vec![], false, &None);
    assert!(json_eq(&merged, &JsonValue::Str("x".to_string())));
}

#[test]
fn etag_revision_parses_quoted_number() {
    assert_eq!(wikibase_rest_api::header_info::revision_id_from_etag("\"12345\""), Some(12345));
    assert_eq!(wikibase_rest_api::header_info::revision_id_from_etag("12345"), Some(12345));
    assert_eq!(wikibase_rest_api::header_info::revision_id_from_etag("\"\""), None);
    assert_eq!(wikibase_rest_api::header_info::revision_id_from_etag("\"12a45\""), None);
    assert_eq!(wikibase_rest_api::header_info::revision_id_from_etag("\"18446744073709551615\""), Some(u64::MAX));
    assert_eq!(wikibase_rest_api::header_info::revision_id_from_etag("\"18446744073709551616\""), None);
}

#[test]
fn error_payload_from_json_defaults() {
    let j = JsonValue::Object(vec![
        ("code".to_string(), JsonValue::Str("bad".to_string())),
        ("message".to_string(), JsonValue::Str("oops".to_string())),
        (
            "context".to_string(),
            JsonValue::Object(vec![(
                "k".to_string(),
                JsonValue::Str("v".to_string()),
            )]),
        ),
    ]);
    let p = wikibase_rest_api::error::RestApiErrorPayload::from_json(&j);
    assert_eq!(p.code, "bad");
    assert_eq!(p.message, "oops");
    assert_eq!(p.context.len(), 1);
    assert_eq!(p.context[0].0, "k");
    let q = wikibase_rest_api::error::RestApiErrorPayload::from_json(&JsonValue::Object(vec![]));
    assert_eq!(q.code, "");
    assert_eq!(q.message, "");
    assert!(q.context.is_empty());
}
