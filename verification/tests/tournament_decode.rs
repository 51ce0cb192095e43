use challonge::json::JsonValue;
use challonge::tournament::Points;
use challonge::{Tournament, TournamentId, TournamentType};

fn str_field(key: &str, value: &str) -> (String, JsonValue) {
    (key.to_string(), JsonValue::Str(value.to_string()))
}

fn bool_field(key: &str, value: bool) -> (String, JsonValue) {
    (key.to_string(), JsonValue::Bool(value))
}

fn tournament_payload() -> JsonValue {
    JsonValue::Object(vec![(
        "tournament".to_string(),
        JsonValue::Object(vec![
            bool_field("accept_attachments", false),
            bool_field("allow_participant_match_reporting", true),
            bool_field("anonymous_voting", false),
            ("category".to_string(), JsonValue::Null),
            ("check_in_duration".to_string(), JsonValue::Null),
            ("completed_at".to_string(), JsonValue::Null),
            str_field("created_at", "2015-01-19T16:47:30-05:00"),
            bool_field("created_by_api", false),
            bool_field("credit_capped", false),
            str_field("description", "sample description"),
            ("game_id".to_string(), JsonValue::UInt(600)),
            bool_field("group_stages_enabled", false),
            bool_field("hide_forum", false),
            bool_field("hide_seeds", false),
            bool_field("hold_third_place_match", false),
            ("id".to_string(), JsonValue::UInt(1086875)),
            ("max_predictions_per_user".to_string(), JsonValue::UInt(1)),
            str_field("name", "Sample Tournament 1"),
            bool_field("notify_users_when_matches_open", true),
            bool_field("notify_users_when_the_tournament_ends", true),
            bool_field("open_signup", false),
            ("participants_count".to_string(), JsonValue::UInt(4)),
            ("prediction_method".to_string(), JsonValue::UInt(0)),
            ("predictions_opened_at".to_string(), JsonValue::Null),
            bool_field("private", false),
            ("progress_meter".to_string(), JsonValue::UInt(0)),
            str_field("pts_for_bye", "1.0"),
            str_field("pts_for_game_tie", "0.0"),
            str_field("pts_for_game_win", "0.0"),
            str_field("pts_for_match_tie", "0.5"),
            str_field("pts_for_match_win", "1.0"),
            bool_field("quick_advance", false),
            str_field("ranked_by", "match wins"),
            bool_field("require_score_agreement", false),
            str_field("rr_pts_for_game_tie", "0.0"),
            str_field("rr_pts_for_game_win", "0.0"),
            str_field("rr_pts_for_match_tie", "0.5"),
            str_field("rr_pts_for_match_win", "1.0"),
            bool_field("sequential_pairings", false),
            bool_field("show_rounds", true),
            ("signup_cap".to_string(), JsonValue::Null),
            ("start_at".to_string(), JsonValue::Null),
            str_field("started_at", "2015-01-19T16:57:17-05:00"),
            ("started_checking_in_at".to_string(), JsonValue::Null),
            str_field("state", "underway"),
            ("swiss_rounds".to_string(), JsonValue::UInt(0)),
            bool_field("teams", false),
            (
                "tie_breaks".to_string(),
                JsonValue::Array(vec![
                    JsonValue::Str("match wins vs tied".to_string()),
                    JsonValue::Str("game wins".to_string()),
                    JsonValue::Str("points scored".to_string()),
                ]),
            ),
            str_field("tournament_type", "single elimination"),
            str_field("updated_at", "2015-01-19T16:57:17-05:00"),
            str_field("url", "sample_tournament_1"),
            str_field("description_source", "sample description source"),
            ("subdomain".to_string(), JsonValue::Null),
            str_field("full_challonge_url", "http://challonge.com/sample_tournament_1"),
            str_field(
                "live_image_url",
                "http://images.challonge.com/sample_tournament_1.png",
            ),
            ("sign_up_url".to_string(), JsonValue::Null),
            bool_field("review_before_finalizing", true),
            bool_field("accepting_predictions", false),
            bool_field("participants_locked", true),
            str_field("game_name", "Table Tennis"),
            bool_field("participants_swappable", false),
            bool_field("team_convertable", false),
            bool_field("group_stages_were_started", false),
        ]),
    )])
}

#[test]
fn test_tournament_parse() {
    let json = tournament_payload();
    if let Ok(t) = Tournament::decode(json) {
        assert_eq!(t.accept_attachments, false);
        assert_eq!(t.allow_participant_match_reporting, true);
        assert_eq!(t.anonymous_voting, false);
        assert_eq!(t.created_by_api, false);
        assert_eq!(t.description, "sample description");
        assert_eq!(t.credit_capped, false);
        assert_eq!(t.game_id, 600);
        if let TournamentId::Id(num) = t.id {
            assert_eq!(num, 1086875);
        } else {
            // The id must decode as the numeric variant.
            assert!(false);
        }
        assert_eq!(t.name, "Sample Tournament 1");
        assert_eq!(t.group_stages_enabled, false);
        assert_eq!(t.hide_forum, false);
        assert_eq!(t.hide_seeds, false);
        assert_eq!(t.hold_third_place_match, false);
        assert_eq!(t.max_predictions_per_user, 1);
        assert_eq!(t.notify_users_when_matches_open, true);
        assert_eq!(t.notify_users_when_the_tournament_ends, true);
        assert_eq!(t.open_signup, false);
        assert_eq!(t.participants_count, 4);
        assert_eq!(t.prediction_method, 0);
        assert_eq!(t.private, false);
        assert_eq!(t.progress_meter, 0);
        assert_eq!(t.swiss_points.bye, Some(Points(1000)));
        assert_eq!(t.swiss_points.game_tie, Points(0));
        assert_eq!(t.swiss_points.game_win, Points(0));
        assert_eq!(t.swiss_points.match_tie, Points(500));
        assert_eq!(t.swiss_points.match_win, Points(1000));
        assert_eq!(t.quick_advance, false);
        assert_eq!(t.require_score_agreement, false);
        assert_eq!(t.round_robin_points.game_tie, Points(0));
        assert_eq!(t.round_robin_points.game_win, Points(0));
        assert_eq!(t.round_robin_points.match_tie, Points(500));
        assert_eq!(t.round_robin_points.match_win, Points(1000));
        assert_eq!(t.sequential_pairings, false);
        assert_eq!(t.show_rounds, true);
        assert_eq!(t.swiss_rounds, 0);
        assert_eq!(t.teams, false);
        assert_eq!(t.tournament_type, TournamentType::SingleElimination);
        assert_eq!(t.url, "sample_tournament_1");
        assert_eq!(t.description_source, "sample description source");
        assert_eq!(t.full_challonge_url, "http://challonge.com/sample_tournament_1");
        assert_eq!(
            t.live_image_url,
            "http://images.challonge.com/sample_tournament_1.png"
        );
        assert_eq!(t.review_before_finalizing, true);
        assert_eq!(t.accepting_predictions, false);
        assert_eq!(t.participants_locked, true);
        assert_eq!(t.game_name, "Table Tennis");
        assert_eq!(t.participants_swappable, false);
        assert_eq!(t.team_convertable, false);
        assert_eq!(t.group_stages_were_started, false);
    } else {
        assert!(false);
    }
}

#[test]
fn tournament_timestamps_decode() {
    let t = Tournament::decode(tournament_payload()).unwrap();
    // 2015-01-19T16:47:30-05:00 is 21:47:30 UTC.
    assert_eq!(t.created_at.seconds, 1421704050);
    assert_eq!(t.created_at.offset_seconds, -5 * 3600);
    // 2015-01-19T16:57:17-05:00 is 21:57:17 UTC.
    let started = t.started_at.unwrap();
    assert_eq!(started.seconds, 1421704637);
    assert_eq!(t.updated_at.seconds, 1421704637);
}

#[test]
fn tournament_missing_wrapper_is_decode_error() {
    let json = JsonValue::Object(vec![(
        "event".to_string(),
        JsonValue::Object(vec![("id".to_string(), JsonValue::UInt(7))]),
    )]);
    match Tournament::decode(json) {
        Err(challonge::error::Error::Decode(_, JsonValue::Str(key))) => {
            assert_eq!(key, "tournament");
        }
        other => panic!("expected the missing wrapper key, got {:?}", other),
    }
}

#[test]
fn tournament_non_object_payload_is_decode_error() {
    match Tournament::decode(JsonValue::Str("not an object".to_string())) {
        Err(challonge::error::Error::Decode(_, JsonValue::Str(s))) => {
            assert_eq!(s, "not an object");
        }
        other => panic!("expected a decode error carrying the value, got {:?}", other),
    }
}

#[test]
fn tournament_null_id_and_bye_are_lenient() {
    let json = match tournament_payload() {
        JsonValue::Object(top) => {
            let (key, inner) = top.into_iter().next().unwrap();
            let fields = match inner {
                JsonValue::Object(fields) => fields
                    .into_iter()
                    .map(|(k, v)| {
                        if k == "id" || k == "pts_for_bye" {
                            (k, JsonValue::Null)
                        } else {
                            (k, v)
                        }
                    })
                    .collect(),
                _ => unreachable!(),
            };
            JsonValue::Object(vec![(key, JsonValue::Object(fields))])
        }
        _ => unreachable!(),
    };
    let t = Tournament::decode(json).unwrap();
    // A null id reads as zero; a null bye reads as no bye award.
    assert_eq!(t.id, TournamentId::Id(0));
    assert_eq!(t.swiss_points.bye, None);
}

#[test]
fn tournament_id_renders() {
    assert_eq!(TournamentId::Id(1086875).to_string(), "1086875");
    assert_eq!(
        TournamentId::Url("sub".to_string(), "slug".to_string()).to_string(),
        "sub-slug"
    );
    // The subdomain/slug variant always renders as subdomain-dash-slug,
    // an empty subdomain included.
    assert_eq!(
        TournamentId::Url(String::new(), "slug".to_string()).to_string(),
        "-slug"
    );
}

#[test]
fn tournament_type_spellings() {
    assert_eq!(
        TournamentType::from_str("single_elimination"),
        Ok(TournamentType::SingleElimination)
    );
    assert_eq!(
        TournamentType::from_str("single elimination"),
        Ok(TournamentType::SingleElimination)
    );
    assert_eq!(
        TournamentType::from_str("double_elimination"),
        Ok(TournamentType::DoubleElimination)
    );
    assert_eq!(
        TournamentType::from_str("round robin"),
        Ok(TournamentType::RoundRobin)
    );
    assert_eq!(TournamentType::from_str("swiss"), Ok(TournamentType::Swiss));
    assert_eq!(TournamentType::from_str("ladder"), Err(()));
    assert_eq!(TournamentType::Swiss.to_string(), "swiss");
    assert_eq!(
        TournamentType::DoubleElimination.to_string(),
        "double elimination"
    );
    assert_eq!(
        TournamentType::DoubleElimination.to_get_param(),
        "double_elimination"
    );
}
