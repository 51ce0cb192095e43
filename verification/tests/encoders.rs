use challonge::json::JsonValue;
use challonge::error::Error;
use challonge::tournament::{GamePoints, Points, RankedBy, TournamentIncludes};
use challonge::time::{parse_rfc3339, render_rfc3339, Timestamp};
use challonge::{
    at_to_pairs, at_to_pairs_checked, mu_to_pairs, pairs_to_string, pc_to_pairs, pcs_to_pairs,
    tc_to_pairs, AttachmentCreate, MatchScore, MatchScores, MatchUpdate, ParticipantCreate,
    ParticipantId, TournamentCreate, TournamentType,
};

#[test]
fn pairs_join_with_ampersands() {
    assert_eq!(pairs_to_string(vec![]), "");
    assert_eq!(pairs_to_string(vec![("a", "1".to_string())]), "a=1");
    assert_eq!(
        pairs_to_string(vec![("a", "1".to_string()), ("b", "two".to_string())]),
        "a=1&b=two"
    );
}

#[test]
fn match_update_encodes_in_wire_order() {
    let mu = MatchUpdate::new()
        .scores_csv(MatchScores(vec![MatchScore(1, 3), MatchScore(3, 2)]))
        .winner_id(ParticipantId(16543993))
        .player2_votes(3);
    let pairs = mu_to_pairs(&mu);
    let rendered: Vec<(String, String)> = pairs
        .iter()
        .map(|p| (p.0.to_string(), p.1.clone()))
        .collect();
    assert_eq!(
        rendered,
        vec![
            ("match[player2_votes]".to_string(), "3".to_string()),
            ("match[scores_csv]".to_string(), "1-3,3-2".to_string()),
            ("match[winner_id]".to_string(), "16543993".to_string()),
        ]
    );
    assert_eq!(
        pairs_to_string(pairs),
        "match[player2_votes]=3&match[scores_csv]=1-3,3-2&match[winner_id]=16543993"
    );
}

#[test]
fn participant_encodes_optional_fields_only_when_set() {
    let plain = ParticipantCreate::new();
    let pairs = pc_to_pairs(&plain);
    assert_eq!(pairs.len(), 3);
    assert_eq!(pairs[0].0, "participant[email]");
    assert_eq!(pairs[0].1, "");
    assert_eq!(pairs[1].0, "participant[seed]");
    assert_eq!(pairs[1].1, "1");
    assert_eq!(pairs[2].0, "participant[misc]");

    let named = ParticipantCreate::new()
        .name("Ada".to_string())
        .challonge_username("ada".to_string())
        .seed(2);
    let pairs = pc_to_pairs(&named);
    assert_eq!(pairs.len(), 5);
    assert_eq!(pairs[1].1, "2");
    assert_eq!(pairs[3].0, "participant[name]");
    assert_eq!(pairs[3].1, "Ada");
    assert_eq!(pairs[4].0, "participant[challonge_username]");
    assert_eq!(pairs[4].1, "ada");
}

#[test]
fn bulk_participants_flatten_in_order() {
    let first = ParticipantCreate::new()
        .email("a@example.com".to_string())
        .seed(1);
    let second = ParticipantCreate::new()
        .email("b@example.com".to_string())
        .seed(2)
        .name("B".to_string());
    let pairs = pcs_to_pairs(vec![first, second]);
    assert_eq!(pairs.len(), 7);
    assert_eq!(pairs[0].0, "participant[][email]");
    assert_eq!(pairs[0].1, "a@example.com");
    assert_eq!(pairs[3].0, "participant[][email]");
    assert_eq!(pairs[3].1, "b@example.com");
    assert_eq!(pairs[6].0, "participant[][name]");
    assert_eq!(pairs[6].1, "B");
}

#[test]
fn attachment_encodes_utf8_asset() {
    let ac = AttachmentCreate::new()
        .asset(b"hello bracket".to_vec())
        .description("notes".to_string());
    let pairs = at_to_pairs_checked(&ac).unwrap();
    assert_eq!(pairs.len(), 2);
    assert_eq!(pairs[0].0, "match_attachment[asset]");
    assert_eq!(pairs[0].1, "hello bracket");
    assert_eq!(pairs[1].0, "match_attachment[description]");
    assert_eq!(pairs[1].1, "notes");
}

#[test]
fn attachment_rejects_invalid_utf8_asset() {
    let ac = AttachmentCreate::new().asset(vec![0xff, 0xfe, 0x00]);
    assert!(at_to_pairs_checked(&ac).is_none());
}

#[test]
fn attachment_url_only() {
    let ac = AttachmentCreate::new().url("https://example.com".to_string());
    let pairs = at_to_pairs(&ac);
    assert_eq!(pairs.len(), 1);
    assert_eq!(pairs[0].0, "match_attachment[url]");
    assert_eq!(pairs[0].1, "https://example.com");
}

#[test]
fn tournament_create_encodes_defaults() {
    let tc = TournamentCreate::new()
        .name("Tester".to_string())
        .url("testerurl".to_string());
    let pairs = tc_to_pairs(&tc);
    assert_eq!(pairs.len(), 25);
    assert_eq!(pairs[0].0, "tournament[name]");
    assert_eq!(pairs[0].1, "Tester");
    assert_eq!(pairs[1].0, "tournament[tournament_type]");
    assert_eq!(pairs[1].1, "single elimination");
    assert_eq!(pairs[2].1, "testerurl");
    assert_eq!(pairs[5].0, "tournament[open_signup]");
    assert_eq!(pairs[5].1, "false");
    assert_eq!(pairs[7].0, "tournament[pts_for_match_win]");
    assert_eq!(pairs[7].1, "0.5");
    assert_eq!(pairs[8].0, "tournament[pts_for_match_tie]");
    assert_eq!(pairs[8].1, "1");
    assert_eq!(pairs[12].0, "tournament[ranked_by]");
    assert_eq!(pairs[12].1, "points scored");
    assert_eq!(pairs[22].0, "tournament[signup_cap]");
    assert_eq!(pairs[22].1, "4");
    assert_eq!(pairs[23].0, "tournament[check_in_duration]");
    assert_eq!(pairs[23].1, "60");
    // The default Swiss bye of zero points is sent; no other optional
    // field is.
    assert_eq!(pairs[24].0, "tournament[pts_for_bye]");
    assert_eq!(pairs[24].1, "0");
}

#[test]
fn tournament_create_encodes_optional_fields() {
    let start = parse_rfc3339("2016-11-08T00:00:00+05:00").unwrap();
    let tc = TournamentCreate::new()
        .tournament_type(TournamentType::DoubleElimination)
        .ranked_by(RankedBy::MatchWins)
        .swiss_points(GamePoints::new(
            Points(1000),
            Points(500),
            Points(250),
            Points(0),
            None,
        ))
        .grand_finals_modifier(Some("single match".to_string()))
        .start_at(start)
        .game_name("Table Tennis".to_string());
    let pairs = tc_to_pairs(&tc);
    assert_eq!(pairs.len(), 27);
    assert_eq!(pairs[1].1, "double elimination");
    assert_eq!(pairs[7].1, "1");
    assert_eq!(pairs[8].1, "0.5");
    assert_eq!(pairs[9].1, "0.25");
    assert_eq!(pairs[12].1, "match wins");
    assert_eq!(pairs[24].0, "tournament[grand_finals_modifier]");
    assert_eq!(pairs[24].1, "single match");
    assert_eq!(pairs[25].0, "tournament[start_at]");
    assert_eq!(pairs[25].1, "2016-11-08T00:00:00+05:00");
    assert_eq!(pairs[26].0, "tournament[game_name]");
    assert_eq!(pairs[26].1, "Table Tennis");
}

#[test]
fn timestamps_round_trip_through_rfc3339() {
    let ts = parse_rfc3339("2015-01-19T16:57:17-05:00").unwrap();
    assert_eq!(ts.seconds, 1421704637);
    assert_eq!(ts.nanos, 0);
    assert_eq!(ts.offset_seconds, -5 * 3600);
    assert_eq!(render_rfc3339(&ts), "2015-01-19T16:57:17-05:00");
    assert!(parse_rfc3339("yesterday").is_none());
    assert!(parse_rfc3339("").is_none());

    let with_fraction = Timestamp {
        seconds: 1467480249,
        nanos: 899_000_000,
        offset_seconds: -4 * 3600,
    };
    assert_eq!(render_rfc3339(&with_fraction), "2016-07-02T13:24:09.899-04:00");
}

#[test]
fn points_render_canonically() {
    assert_eq!(Points(0).to_string(), "0");
    assert_eq!(Points(500).to_string(), "0.5");
    assert_eq!(Points(1000).to_string(), "1");
    assert_eq!(Points(1250).to_string(), "1.25");
    assert_eq!(Points(1251).to_string(), "1.251");
    assert_eq!(Points(12000).to_string(), "12");
}

#[test]
fn includes_map_to_query_flags() {
    assert_eq!(
        TournamentIncludes::All.to_pairs(),
        [("include_participants", "1"), ("include_matches", "1")]
    );
    assert_eq!(
        TournamentIncludes::Matches.to_pairs(),
        [("include_participants", "0"), ("include_matches", "1")]
    );
    assert_eq!(
        TournamentIncludes::Participants.to_pairs(),
        [("include_participants", "1"), ("include_matches", "0")]
    );
}

#[test]
fn validation_shape_is_surfaced_distinctly() {
    let body = JsonValue::Object(vec![(
        "errors".to_string(),
        JsonValue::Array(vec![
            JsonValue::Str("Name is already taken".to_string()),
            JsonValue::Str("URL is invalid".to_string()),
        ]),
    )]);
    match Error::from_response(422, "raw".to_string(), Some(&body)) {
        Error::Validation(messages) => {
            assert_eq!(messages, vec!["Name is already taken", "URL is invalid"]);
        }
        other => panic!("expected a validation error, got {:?}", other),
    }

    let plain = JsonValue::Object(vec![("error".to_string(), JsonValue::Str("no".to_string()))]);
    match Error::from_response(500, "raw body".to_string(), Some(&plain)) {
        Error::Status(code, body) => {
            assert_eq!(code, 500);
            assert_eq!(body, "raw body");
        }
        other => panic!("expected a status error, got {:?}", other),
    }

    match Error::from_response(502, "<html>".to_string(), None) {
        Error::Status(code, _) => assert_eq!(code, 502),
        other => panic!("expected a status error, got {:?}", other),
    }
}
