use challonge::json::JsonValue;
use challonge::{Match, MatchScore, MatchState, TournamentId};

fn match_payload() -> JsonValue {
    JsonValue::Object(vec![(
        "match".to_string(),
        JsonValue::Object(vec![
            ("attachment_count".to_string(), JsonValue::Null),
            (
                "created_at".to_string(),
                JsonValue::Str("2015-01-19T16:57:17-05:00".to_string()),
            ),
            ("group_id".to_string(), JsonValue::Null),
            ("has_attachment".to_string(), JsonValue::Bool(false)),
            ("id".to_string(), JsonValue::UInt(23575258)),
            ("identifier".to_string(), JsonValue::Str("A".to_string())),
            ("location".to_string(), JsonValue::Null),
            ("loser_id".to_string(), JsonValue::Null),
            ("player1_id".to_string(), JsonValue::UInt(16543993)),
            (
                "player1_is_prereq_match_loser".to_string(),
                JsonValue::Bool(false),
            ),
            ("player1_prereq_match_id".to_string(), JsonValue::Null),
            ("player1_votes".to_string(), JsonValue::Null),
            ("player2_id".to_string(), JsonValue::UInt(16543997)),
            (
                "player2_is_prereq_match_loser".to_string(),
                JsonValue::Bool(false),
            ),
            ("player2_prereq_match_id".to_string(), JsonValue::Null),
            ("player2_votes".to_string(), JsonValue::UInt(3)),
            ("round".to_string(), JsonValue::UInt(1)),
            ("scheduled_time".to_string(), JsonValue::Null),
            (
                "started_at".to_string(),
                JsonValue::Str("2015-01-19T16:57:17-05:00".to_string()),
            ),
            ("state".to_string(), JsonValue::Str("open".to_string())),
            ("tournament_id".to_string(), JsonValue::UInt(1086875)),
            ("underway_at".to_string(), JsonValue::Null),
            (
                "updated_at".to_string(),
                JsonValue::Str("2015-01-19T16:57:17-05:00".to_string()),
            ),
            ("winner_id".to_string(), JsonValue::Null),
            (
                "prerequisite_match_ids_csv".to_string(),
                JsonValue::Str(String::new()),
            ),
            (
                "scores_csv".to_string(),
                JsonValue::Str("3-1, 3-2".to_string()),
            ),
        ]),
    )])
}

#[test]
fn matches_test_participant_parse() {
    let json = match_payload();
    if let Ok(m) = Match::decode(json) {
        assert!(!m.has_attachment);
        assert_eq!(m.id.0, 23575258);
        assert_eq!(m.identifier, "A");
        assert_eq!(m.loser_id, None);
        assert_eq!(m.player1.id.0, 16543993);
        assert!(!m.player1.is_prereq_match_loser);
        assert_eq!(m.player1.prereq_match_id, None);
        assert_eq!(m.player1.votes, 0);
        assert!(!m.player2.is_prereq_match_loser);
        assert_eq!(m.player2.prereq_match_id, None);
        assert_eq!(m.player2.id.0, 16543997);
        assert_eq!(m.player2.votes, 3);
        assert_eq!(m.round, 1);
        assert_eq!(m.state, MatchState::Open);
        assert_eq!(m.tournament_id, TournamentId::Id(1086875));
        assert_eq!(m.winner_id, None);
        assert!(m.prerequisite_match_ids_csv.is_empty());
        {
            let correct_scores = vec![MatchScore(3, 1), MatchScore(3, 2)];
            assert_eq!(m.scores_csv.0.len(), 2);
            let iter = m.scores_csv.0.iter().zip(correct_scores.iter());
            for pair in iter {
                assert_eq!((pair.0).0, (pair.1).0);
                assert_eq!((pair.0).1, (pair.1).1);
            }
        }
    } else {
        unreachable!();
    }
}

#[test]
fn match_null_votes_read_as_zero() {
    let m = Match::decode(match_payload()).unwrap();
    // player1_votes is null on the wire; player2_votes is 3.
    assert_eq!(m.player1.votes, 0);
    assert_eq!(m.player2.votes, 3);

    // With player2_votes null as well, both read as zero.
    let json = match match_payload() {
        JsonValue::Object(top) => {
            let (key, inner) = top.into_iter().next().unwrap();
            let fields = match inner {
                JsonValue::Object(fields) => fields
                    .into_iter()
                    .map(|(k, v)| {
                        if k == "player2_votes" {
                            (k, JsonValue::Null)
                        } else {
                            (k, v)
                        }
                    })
                    .collect(),
                _ => unreachable!(),
            };
            JsonValue::Object(vec![(key, JsonValue::Object(fields))])
        }
        _ => unreachable!(),
    };
    let m = Match::decode(json).unwrap();
    assert_eq!(m.player2.votes, 0);
}

#[test]
fn match_unknown_state_reads_as_all() {
    let json = match match_payload() {
        JsonValue::Object(top) => {
            let (key, inner) = top.into_iter().next().unwrap();
            let fields = match inner {
                JsonValue::Object(fields) => fields
                    .into_iter()
                    .map(|(k, v)| {
                        if k == "state" {
                            (k, JsonValue::Str("paused".to_string()))
                        } else {
                            (k, v)
                        }
                    })
                    .collect(),
                _ => unreachable!(),
            };
            JsonValue::Object(vec![(key, JsonValue::Object(fields))])
        }
        _ => unreachable!(),
    };
    let m = Match::decode(json).unwrap();
    assert_eq!(m.state, MatchState::All);
}

#[test]
fn match_negative_round_decodes() {
    // Negative rounds are the losers bracket of a double elimination
    // tournament.
    let json = match match_payload() {
        JsonValue::Object(top) => {
            let (key, inner) = top.into_iter().next().unwrap();
            let fields = match inner {
                JsonValue::Object(fields) => fields
                    .into_iter()
                    .map(|(k, v)| {
                        if k == "round" {
                            (k, JsonValue::Int(-2))
                        } else {
                            (k, v)
                        }
                    })
                    .collect(),
                _ => unreachable!(),
            };
            JsonValue::Object(vec![(key, JsonValue::Object(fields))])
        }
        _ => unreachable!(),
    };
    let m = Match::decode(json).unwrap();
    assert_eq!(m.round, -2);
}

#[test]
fn match_state_spellings() {
    assert_eq!(MatchState::from_str("open"), Ok(MatchState::Open));
    assert_eq!(MatchState::from_str("pending"), Ok(MatchState::Pending));
    assert_eq!(MatchState::from_str("complete"), Ok(MatchState::Complete));
    assert_eq!(MatchState::from_str("all"), Ok(MatchState::All));
    assert_eq!(MatchState::from_str("OPEN"), Err(()));
    assert_eq!(MatchState::Complete.to_string(), "complete");
}
