use challonge::json::JsonValue;
use challonge::Participant;

fn participant_payload() -> JsonValue {
    JsonValue::Object(vec![(
        "participant".to_string(),
        JsonValue::Object(vec![
            ("active".to_string(), JsonValue::Bool(true)),
            ("checked_in_at".to_string(), JsonValue::Null),
            (
                "created_at".to_string(),
                JsonValue::Str("2015-01-19T16:54:40-05:00".to_string()),
            ),
            ("final_rank".to_string(), JsonValue::Null),
            ("group_id".to_string(), JsonValue::Null),
            ("icon".to_string(), JsonValue::Null),
            ("id".to_string(), JsonValue::UInt(16543993)),
            ("invitation_id".to_string(), JsonValue::Null),
            ("invite_email".to_string(), JsonValue::Null),
            ("misc".to_string(), JsonValue::Null),
            (
                "name".to_string(),
                JsonValue::Str("Participant #1".to_string()),
            ),
            ("on_waiting_list".to_string(), JsonValue::Bool(false)),
            ("seed".to_string(), JsonValue::UInt(1)),
            ("tournament_id".to_string(), JsonValue::UInt(1086875)),
            (
                "updated_at".to_string(),
                JsonValue::Str("2015-01-19T16:54:40-05:00".to_string()),
            ),
            ("challonge_username".to_string(), JsonValue::Null),
            (
                "challonge_email_address_verified".to_string(),
                JsonValue::Null,
            ),
            ("removable".to_string(), JsonValue::Bool(true)),
            (
                "participatable_or_invitation_attached".to_string(),
                JsonValue::Bool(false),
            ),
            ("confirm_remove".to_string(), JsonValue::Bool(true)),
            ("invitation_pending".to_string(), JsonValue::Bool(false)),
            (
                "display_name_with_invitation_email_address".to_string(),
                JsonValue::Str("Participant #1".to_string()),
            ),
            ("email_hash".to_string(), JsonValue::Null),
            ("username".to_string(), JsonValue::Null),
            (
                "attached_participatable_portrait_url".to_string(),
                JsonValue::Null,
            ),
            ("can_check_in".to_string(), JsonValue::Bool(false)),
            ("checked_in".to_string(), JsonValue::Bool(false)),
            ("reactivatable".to_string(), JsonValue::Bool(false)),
        ]),
    )])
}

#[test]
fn participants_test_participant_parse() {
    let json = participant_payload();
    if let Ok(p) = Participant::decode(json) {
        assert_eq!(p.active, true);
        assert_eq!(p.checked_in_at, None);
        assert_eq!(p.final_rank, None);
        assert_eq!(p.group_id, None);
        assert!(p.icon.is_empty());
        assert_eq!(p.id.0, 16543993);
        assert_eq!(p.invitation_id, None);
        assert!(p.invite_email.is_empty());
        assert!(p.misc.is_empty());
        assert_eq!(p.name, "Participant #1");
        assert_eq!(p.on_waiting_list, false);
        assert_eq!(p.seed, 1);
        assert_eq!(p.tournament_id, 1086875);
        assert!(p.challonge_username.is_empty());
        assert!(p.challonge_email_address_verified.is_empty());
        assert_eq!(p.removable, true);
        assert_eq!(p.participatable_or_invitation_attached, false);
        assert_eq!(p.confirm_remove, true);
        assert_eq!(p.invitation_pending, false);
        assert_eq!(
            p.display_name_with_invitation_email_address,
            "Participant #1"
        );
        assert!(p.email_hash.is_empty());
        assert!(p.username.is_empty());
        assert!(p.attached_participatable_portrait_url.is_empty());
        assert_eq!(p.can_check_in, false);
        assert_eq!(p.checked_in, false);
        assert_eq!(p.reactivatable, false);
    } else {
        assert!(false);
    }
}

#[test]
fn participant_created_at_decodes() {
    let p = Participant::decode(participant_payload()).unwrap();
    // 2015-01-19T16:54:40-05:00 is 21:54:40 UTC.
    assert_eq!(p.created_at.seconds, 1421704480);
    assert_eq!(p.created_at.nanos, 0);
    assert_eq!(p.created_at.offset_seconds, -5 * 3600);
}

#[test]
fn participant_missing_wrapper_is_decode_error() {
    let json = JsonValue::Object(vec![(
        "someone".to_string(),
        JsonValue::Object(vec![("id".to_string(), JsonValue::UInt(1))]),
    )]);
    match Participant::decode(json) {
        Err(challonge::error::Error::Decode(_, JsonValue::Str(key))) => {
            assert_eq!(key, "participant");
        }
        other => panic!("expected the missing wrapper key, got {:?}", other),
    }
}
