use challonge::json::JsonValue;
use challonge::{Attachment, AttachmentIndex};

fn attachment_payload(id: u64, description: &str) -> JsonValue {
    JsonValue::Object(vec![(
        "match_attachment".to_string(),
        JsonValue::Object(vec![
            ("id".to_string(), JsonValue::UInt(id)),
            ("match_id".to_string(), JsonValue::UInt(65187924)),
            ("user_id".to_string(), JsonValue::UInt(979950)),
            (
                "description".to_string(),
                JsonValue::Str(description.to_string()),
            ),
            ("url".to_string(), JsonValue::Str(String::new())),
            ("original_file_name".to_string(), JsonValue::Null),
            (
                "created_at".to_string(),
                JsonValue::Str("2016-07-02T13:24:09.899-04:00".to_string()),
            ),
            (
                "updated_at".to_string(),
                JsonValue::Str("2016-07-02T13:24:09.899-04:00".to_string()),
            ),
            ("asset_file_name".to_string(), JsonValue::Null),
            ("asset_content_type".to_string(), JsonValue::Null),
            ("asset_file_size".to_string(), JsonValue::Null),
            ("asset_url".to_string(), JsonValue::Null),
        ]),
    )])
}

#[test]
fn test_attachment_parse() {
    let json = attachment_payload(165418, "discord");
    if let Ok(m) = Attachment::decode(json) {
        assert_eq!(m.id.0, 165418);
        assert_eq!(m.match_id.0, 65187924);
        assert_eq!(m.user_id, 979950);
        assert_eq!(m.description, Some("discord".to_owned()));
        assert_eq!(m.url, Some("".to_owned()));
        assert_eq!(m.original_file_name, None);
        assert_eq!(m.asset.file_name, None);
        assert_eq!(m.asset.content_type, None);
        assert_eq!(m.asset.file_size, None);
        assert_eq!(m.asset.url, None);
    } else {
        unreachable!();
    }
}

#[test]
fn test_index_parse() {
    let json = JsonValue::Array(vec![
        attachment_payload(165418, "discord"),
        attachment_payload(165417, "test description"),
    ]);
    if let Ok(i) = AttachmentIndex::decode(json) {
        assert_eq!(i.0.len(), 2);
    } else {
        unreachable!();
    }
}

#[test]
fn attachment_index_preserves_order() {
    let json = JsonValue::Array(vec![
        attachment_payload(165418, "first"),
        attachment_payload(165417, "second"),
    ]);
    let index = AttachmentIndex::decode(json).unwrap();
    assert_eq!(index.0.len(), 2);
    assert_eq!(index.0[0].id.0, 165418);
    assert_eq!(index.0[0].description, Some("first".to_owned()));
    assert_eq!(index.0[1].id.0, 165417);
    assert_eq!(index.0[1].description, Some("second".to_owned()));
}

#[test]
fn attachment_timestamps_decode() {
    let json = attachment_payload(1, "x");
    let attachment = Attachment::decode(json).unwrap();
    // 2016-07-02T13:24:09.899-04:00 is 17:24:09.899 UTC.
    assert_eq!(attachment.created_at.seconds, 1467480249);
    assert_eq!(attachment.created_at.nanos, 899_000_000);
    assert_eq!(attachment.created_at.offset_seconds, -4 * 3600);
    assert_eq!(attachment.updated_at, attachment.created_at);
}

#[test]
fn attachment_missing_key_is_decode_error() {
    let json = JsonValue::Object(vec![(
        "match_attachment".to_string(),
        JsonValue::Object(vec![("id".to_string(), JsonValue::UInt(1))]),
    )]);
    match Attachment::decode(json) {
        Err(challonge::error::Error::Decode(_, offending)) => match offending {
            JsonValue::Str(key) => assert_eq!(key, "match_id"),
            other => panic!("expected the missing key, got {:?}", other),
        },
        other => panic!("expected a decode error, got {:?}", other),
    }
}

#[test]
fn attachment_bad_id_rides_along() {
    let json = JsonValue::Object(vec![(
        "match_attachment".to_string(),
        JsonValue::Object(vec![("id".to_string(), JsonValue::Str("nope".to_string()))]),
    )]);
    match Attachment::decode(json) {
        Err(challonge::error::Error::Decode(_, JsonValue::Str(s))) => assert_eq!(s, "nope"),
        other => panic!("expected the offending value, got {:?}", other),
    }
}
