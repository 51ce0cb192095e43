use challonge::{MatchScore, MatchScores};

#[test]
fn test_score_parse() {
    let strings = vec!["3-1", "", "3-0", "3--5", "0-0", "  9-", "    -    118  "];
    let correct_scores = vec![
        MatchScore(3, 1),
        MatchScore(0, 0),
        MatchScore(3, 0),
        MatchScore(3, 0),
        MatchScore(0, 0),
        MatchScore(9, 0),
        MatchScore(0, 118),
    ];
    let iter = strings.iter().zip(correct_scores.iter());
    for pair in iter {
        if let Ok(ms) = MatchScore::decode(pair.0) {
            assert_eq!(ms.0, (pair.1).0);
            assert_eq!(ms.1, (pair.1).1);
            assert_eq!(ms.to_string(), (pair.1).to_string());
        } else {
            unreachable!();
        }
    }
}

#[test]
fn score_render_is_canonical() {
    assert_eq!(MatchScore(3, 1).to_string(), "3-1");
    assert_eq!(MatchScore(0, 118).to_string(), "0-118");
    assert_eq!(MatchScore(0, 0).to_string(), "0-0");
    assert_eq!(
        MatchScore(18446744073709551615, 10).to_string(),
        "18446744073709551615-10"
    );
}

#[test]
fn score_second_part_is_everything_after_first_dash() {
    // The string splits at the first dash into two parts; "2-3" is not a
    // number, so the second part reads as zero.
    assert_eq!(MatchScore::decode("1-2-3").unwrap(), MatchScore(1, 0));
    assert_eq!(MatchScore::decode("3--5").unwrap(), MatchScore(3, 0));
}

#[test]
fn score_decode_then_render_normalizes_whitespace() {
    let ms = MatchScore::decode("  12 -  7 ").unwrap();
    assert_eq!(ms, MatchScore(12, 7));
    assert_eq!(ms.to_string(), "12-7");
}

#[test]
fn scores_csv_one_score_per_segment() {
    let scores = MatchScores::decode("3-1, 3-2".to_string());
    assert_eq!(scores.0.len(), 2);
    assert_eq!(scores.0[0], MatchScore(3, 1));
    assert_eq!(scores.0[1], MatchScore(3, 2));

    let lenient = MatchScores::decode("1-3,oops,,9-".to_string());
    assert_eq!(lenient.0.len(), 4);
    assert_eq!(lenient.0[0], MatchScore(1, 3));
    assert_eq!(lenient.0[1], MatchScore(0, 0));
    assert_eq!(lenient.0[2], MatchScore(0, 0));
    assert_eq!(lenient.0[3], MatchScore(9, 0));

    let empty = MatchScores::decode(String::new());
    assert_eq!(empty.0.len(), 1);
    assert_eq!(empty.0[0], MatchScore(0, 0));
}

#[test]
fn scores_render_round_trips() {
    let scores = MatchScores(vec![MatchScore(1, 3), MatchScore(3, 0), MatchScore(3, 2)]);
    let text = scores.to_string();
    assert_eq!(text, "1-3,3-0,3-2");
    let back = MatchScores::decode(text);
    assert_eq!(back.0, scores.0);
}

#[test]
fn empty_scores_render_empty() {
    assert_eq!(MatchScores(vec![]).to_string(), "");
}
