//! Matches: score pairs and score lists with their lenient wire syntax,
//! the match state, and the match record with its decoder.

use vstd::prelude::*;
use crate::error::Error;
use crate::json::{
    absent_key_error, as_bool_or_false, as_i64_option, as_u64_option, has_i64, lookup, prefixed,
    str_or_empty, strict_i64_error, strict_u64_error, take_bool, take_i64_strict, take_opt_u64,
    take_string_or_empty, take_u64_or_zero, take_u64_strict, u64_or_zero, JsonFields, JsonValue,
};
use crate::participants::ParticipantId;
use crate::scalar::{
    dec_str, first_index, lemma_first_index_at, lemma_split_head, or_zero, parse_u64,
    parse_u64_spec, scan_char, split_at_char, trim, trim_spec, u64_to_string,
};
use crate::time::{opt_ts_of, take_opt_timestamp, take_timestamp, ts_error, ts_ok, Timestamp};
use crate::tournament::TournamentId;
use crate::util::{decode_array, unwrap_entity, unwrap_error, unwrapped_fields};

verus! {

/// A pair of per-game scores: player 1's, then player 2's.
#[derive(Debug, Clone, Copy, PartialEq, Eq, Structural)]
pub struct MatchScore(pub u64, pub u64);

/// The score pair written by a string: the text is trimmed and split on
/// the first `-` into two parts, the text before the dash and everything
/// after it; each part is trimmed and read as an unsigned decimal
/// number, and a missing or unreadable part counts as zero. The service
/// sometimes emits incomplete score strings, so this leniency is part of
/// the format, not error handling.
pub open spec fn score_of(s: Seq<char>) -> MatchScore {
    let t = trim_spec(s);
    let dash = first_index(t, '-');
    let second = if dash == t.len() {
        Seq::<char>::empty()
    } else {
        t.skip(dash + 1)
    };
    MatchScore(
        or_zero(parse_u64_spec(trim_spec(t.take(dash)))),
        or_zero(parse_u64_spec(trim_spec(second))),
    )
}

/// The canonical rendering of a score pair.
pub open spec fn score_str(m: MatchScore) -> Seq<char> {
    dec_str(m.0 as int) + seq!['-'] + dec_str(m.1 as int)
}

fn parse_part_or_zero(s: &str) -> (r: u64)
    ensures
        r == or_zero(parse_u64_spec(trim_spec(s@))),
{
    match parse_u64(trim(s)) {
        Some(n) => n,
        None => 0,
    }
}

impl MatchScore {
    /// Reads a score pair, with a missing or unreadable side counting as
    /// zero; every string decodes to some pair.
    pub fn decode(string: &str) -> (r: Result<MatchScore, Error>)
        ensures
            r == Ok::<MatchScore, Error>(score_of(string@)),
    {
        let t = trim(string);
        let len = t.unicode_len();
        let dash = scan_char(t, '-');
        proof {
            lemma_first_index_at(t@, '-', dash as int);
        }
        if dash == len {
            let a = parse_part_or_zero(t);
            proof {
                assert(t@.take(dash as int) =~= t@);
                assert(trim_spec(Seq::<char>::empty()) =~= Seq::<char>::empty());
            }
            Ok(MatchScore(a, 0))
        } else {
            let first = t.substring_char(0, dash);
            let second = t.substring_char(dash + 1, len);
            proof {
                assert(t@.take(dash as int) =~= t@.subrange(0, dash as int));
                assert(t@.skip(dash as int + 1) =~= t@.subrange(dash as int + 1, len as int));
            }
            let a = parse_part_or_zero(first);
            let b = parse_part_or_zero(second);
            Ok(MatchScore(a, b))
        }
    }

    /// Renders the score pair in its canonical `a-b` form.
    pub fn to_string(&self) -> (r: String)
        ensures
            r@ == score_str(*self),
    {
        let mut out = u64_to_string(self.0);
        out.append("-");
        let right = u64_to_string(self.1);
        out.append(right.as_str());
        proof {
            reveal_strlit("-");
            assert(out@ =~= score_str(*self));
        }
        out
    }
}

/// An ordered list of per-game score pairs.
#[derive(Debug, Clone)]
pub struct MatchScores(pub Vec<MatchScore>);

/// The score list written by a comma-separated string: one score pair per
/// comma-delimited segment, in order, each read with the score leniency
/// rule. An empty string is one segment and reads as a single zero-zero
/// pair.
pub open spec fn scores_of_csv(s: Seq<char>) -> Seq<MatchScore> {
    split_at_char(s, ',').map_values(|seg: Seq<char>| score_of(seg))
}

/// The canonical rendering of a score list: score pairs joined by commas,
/// the empty list rendering as the empty string.
pub open spec fn scores_str(list: Seq<MatchScore>) -> Seq<char>
    decreases list.len(),
{
    if list.len() == 0 {
        Seq::<char>::empty()
    } else if list.len() == 1 {
        score_str(list[0])
    } else {
        score_str(list[0]) + seq![','] + scores_str(list.skip(1))
    }
}

fn decode_segments(s: &str) -> (r: Vec<MatchScore>)
    ensures
        r@ == scores_of_csv(s@),
    decreases s@.len(),
{
    let len = s.unicode_len();
    let comma = scan_char(s, ',');
    proof {
        lemma_split_head(s@, ',', comma as int);
    }
    if comma == len {
        let score = match MatchScore::decode(s) {
            Ok(score) => score,
            Err(_) => vstd::pervasive::unreached(),
        };
        let mut out: Vec<MatchScore> = Vec::new();
        out.push(score);
        proof {
            assert(out@ =~= scores_of_csv(s@));
        }
        out
    } else {
        let first = s.substring_char(0, comma);
        let rest = s.substring_char(comma + 1, len);
        let score = match MatchScore::decode(first) {
            Ok(score) => score,
            Err(_) => vstd::pervasive::unreached(),
        };
        let mut out: Vec<MatchScore> = Vec::new();
        out.push(score);
        let mut tail = decode_segments(rest);
        out.append(&mut tail);
        proof {
            assert(s@.take(comma as int) =~= s@.subrange(0, comma as int));
            assert(out@ =~= scores_of_csv(s@));
        }
        out
    }
}

proof fn lemma_scores_str_snoc(list: Seq<MatchScore>, m: MatchScore)
    ensures
        scores_str(list.push(m)) == if list.len() == 0 {
            score_str(m)
        } else {
            scores_str(list) + seq![','] + score_str(m)
        },
    decreases list.len(),
{
    let whole = list.push(m);
    if list.len() == 0 {
        assert(whole.len() == 1);
        assert(whole[0] == m);
        assert(scores_str(whole) == score_str(m));
    } else {
        lemma_scores_str_snoc(list.skip(1), m);
        assert(whole.skip(1) =~= list.skip(1).push(m));
        assert(whole[0] == list[0]);
        if list.len() == 1 {
            assert(list.skip(1).len() == 0);
            assert(scores_str(whole) == score_str(list[0]) + seq![','] + score_str(m));
            assert(scores_str(list) == score_str(list[0]));
        } else {
            assert(scores_str(whole) == score_str(list[0]) + seq![','] + (scores_str(list.skip(1))
                + seq![','] + score_str(m)));
            assert(scores_str(list) + seq![','] + score_str(m) == (score_str(list[0]) + seq![',']
                + scores_str(list.skip(1))) + seq![','] + score_str(m));
            assert(score_str(list[0]) + seq![','] + (scores_str(list.skip(1)) + seq![',']
                + score_str(m)) =~= (score_str(list[0]) + seq![','] + scores_str(list.skip(1)))
                + seq![','] + score_str(m));
        }
    }
}

impl MatchScores {
    /// Reads a comma-separated score list; every string decodes, one
    /// score pair per segment.
    pub fn decode(string: String) -> (r: MatchScores)
        ensures
            r.0@ == scores_of_csv(string@),
    {
        MatchScores(decode_segments(string.as_str()))
    }

    /// Renders the score list as comma-joined canonical score pairs.
    pub fn to_string(&self) -> (r: String)
        ensures
            r@ == scores_str(self.0@),
    {
        let mut out = String::new();
        let mut i: usize = 0;
        while i < self.0.len()
            invariant
                i <= self.0@.len(),
                out@ == scores_str(self.0@.take(i as int)),
            decreases self.0@.len() - i,
        {
            if i > 0 {
                out.append(",");
            }
            let piece = self.0[i].to_string();
            out.append(piece.as_str());
            proof {
                reveal_strlit(",");
                lemma_scores_str_snoc(self.0@.take(i as int), self.0@[i as int]);
                assert(self.0@.take(i as int).push(self.0@[i as int]) =~= self.0@.take(i + 1));
                if i > 0 {
                    assert(out@ =~= scores_str(self.0@.take(i as int)) + seq![','] + score_str(
                        self.0@[i as int],
                    ));
                }
            }
            i += 1;
        }
        proof {
            assert(self.0@.take(self.0@.len() as int) =~= self.0@);
        }
        out
    }
}

/// A string writes the score pair `a-b`: after trimming, the text before
/// the first `-` reads as `a` and everything after it reads as `b`.
pub open spec fn writes_score(s: Seq<char>, a: u64, b: u64) -> bool {
    let t = trim_spec(s);
    let dash = first_index(t, '-');
    &&& dash < t.len()
    &&& parse_u64_spec(trim_spec(t.take(dash))) == Some(a)
    &&& parse_u64_spec(trim_spec(t.skip(dash + 1))) == Some(b)
}

/// Every character of a rendered score pair is a digit or the dash.
proof fn lemma_score_str_chars(m: MatchScore)
    ensures
        forall|i: int|
            0 <= i < score_str(m).len() ==> (crate::scalar::is_digit(#[trigger] score_str(m)[i])
                || score_str(m)[i] == '-'),
{
    crate::scalar::lemma_dec_str_digits(m.0 as int);
    crate::scalar::lemma_dec_str_digits(m.1 as int);
    let s = score_str(m);
    let left = dec_str(m.0 as int);
    let right = dec_str(m.1 as int);
    assert forall|i: int| 0 <= i < s.len() implies (crate::scalar::is_digit(#[trigger] s[i]) || s[i]
        == '-') by {
        if i < left.len() {
            assert(s[i] == left[i]);
        } else if i == left.len() {
            assert(s[i] == '-');
        } else {
            assert(s[i] == right[i - left.len() - 1]);
        }
    }
}

/// Decoding a string that writes `a-b` yields exactly that pair, and
/// rendering the decoded pair yields the canonical `a-b` form, whatever
/// whitespace the string carried.
pub proof fn lemma_score_decode_then_render(s: Seq<char>, a: u64, b: u64)
    requires
        writes_score(s, a, b),
    ensures
        score_of(s) == MatchScore(a, b),
        score_str(score_of(s)) == dec_str(a as int) + seq!['-'] + dec_str(b as int),
{
}

/// A malformed score part never fails the decode: a part that does not
/// parse as an unsigned number (a missing dash leaves the second part
/// missing, an empty string leaves both empty) reads as zero in that
/// position.
pub proof fn lemma_score_leniency(s: Seq<char>)
    ensures
        ({
            let t = trim_spec(s);
            parse_u64_spec(trim_spec(t.take(first_index(t, '-')))) is None ==> score_of(s).0 == 0
        }),
        ({
            let t = trim_spec(s);
            let dash = first_index(t, '-');
            (dash < t.len() && parse_u64_spec(trim_spec(t.skip(dash + 1))) is None) ==> score_of(
                s,
            ).1 == 0
        }),
        ({
            let t = trim_spec(s);
            first_index(t, '-') == t.len() ==> score_of(s).1 == 0
        }),
{
    let t = trim_spec(s);
    if first_index(t, '-') == t.len() {
        assert(trim_spec(Seq::<char>::empty()) =~= Seq::<char>::empty());
    }
}

/// A rendered score pair decodes back to itself.
pub proof fn lemma_score_round_trip(m: MatchScore)
    ensures
        score_of(score_str(m)) == m,
{
    let s = score_str(m);
    let left = dec_str(m.0 as int);
    let right = dec_str(m.1 as int);
    crate::scalar::lemma_dec_str_digits(m.0 as int);
    crate::scalar::lemma_dec_str_digits(m.1 as int);
    lemma_score_str_chars(m);
    assert(forall|i: int| 0 <= i < s.len() ==> !crate::scalar::is_space(#[trigger] s[i]));
    crate::scalar::lemma_trim_nonspace(s);
    assert(forall|j: int| 0 <= j < left.len() ==> s[j] != '-');
    assert(s[left.len() as int] == '-');
    lemma_first_index_at(s, '-', left.len() as int);
    assert(s.take(left.len() as int) =~= left);
    assert(s.skip(left.len() as int + 1) =~= right);
    crate::scalar::lemma_trim_nonspace(left);
    crate::scalar::lemma_trim_nonspace(right);
    crate::scalar::lemma_u64_round_trip(m.0);
    crate::scalar::lemma_u64_round_trip(m.1);
}

/// A rendered score list of at least one pair decodes back to itself
/// segment by segment.
pub proof fn lemma_scores_round_trip(list: Seq<MatchScore>)
    requires
        list.len() >= 1,
    ensures
        scores_of_csv(scores_str(list)) == list,
    decreases list.len(),
{
    let s = scores_str(list);
    let head = score_str(list[0]);
    lemma_score_str_chars(list[0]);
    lemma_score_round_trip(list[0]);
    if list.len() == 1 {
        assert(forall|j: int| 0 <= j < s.len() ==> s[j] != ',');
        lemma_split_head(s, ',', s.len() as int);
        assert(scores_of_csv(s) =~= list);
    } else {
        lemma_scores_round_trip(list.skip(1));
        let tail = scores_str(list.skip(1));
        assert(s =~= head + seq![','] + tail);
        assert(forall|j: int| 0 <= j < head.len() ==> s[j] == head[j]);
        assert(forall|j: int| 0 <= j < head.len() ==> s[j] != ',');
        assert(s[head.len() as int] == ',');
        lemma_split_head(s, ',', head.len() as int);
        assert(s.take(head.len() as int) =~= head);
        assert(s.skip(head.len() as int + 1) =~= tail);
        lemma_split_head(head, ',', head.len() as int);
        assert(split_at_char(s, ',') =~= seq![head] + split_at_char(tail, ','));
        assert(scores_of_csv(s).len() == list.len());
        assert forall|i: int| 0 <= i < scores_of_csv(s).len() implies scores_of_csv(s)[i]
            == list[i] by {
            if i == 0 {
                assert(split_at_char(s, ',')[0] == head);
            } else {
                assert(split_at_char(s, ',')[i] == split_at_char(tail, ',')[i - 1]);
                assert(scores_of_csv(tail)[i - 1] == score_of(split_at_char(tail, ',')[i - 1]));
                assert(scores_of_csv(tail)[i - 1] == list.skip(1)[i - 1]);
            }
        }
        assert(scores_of_csv(s) =~= list);
    }
}

/// Decoding a comma-separated list yields exactly one score per
/// comma-delimited segment, in the original order, each read with the
/// score leniency rule.
pub proof fn lemma_scores_csv_segments(s: Seq<char>)
    ensures
        scores_of_csv(s).len() == split_at_char(s, ',').len(),
        forall|i: int|
            0 <= i < scores_of_csv(s).len() ==> scores_of_csv(s)[i] == score_of(
                split_at_char(s, ',')[i],
            ),
{
}

/// The unique numeric identifier of a match.
#[derive(Debug, Clone, Copy, PartialEq, Eq, Structural)]
pub struct MatchId(pub u64);

/// The state of a match. `All` is a query-only pseudo-state: it never
/// names a real match's state, but an unrecognized state string decodes
/// to it.
#[derive(Debug, Clone, Copy, PartialEq, Eq, Structural)]
pub enum MatchState {
    /// Any state; used only to filter match index queries.
    All,
    /// The match waits on earlier matches.
    Pending,
    /// The match is open for score reporting.
    Open,
    /// The match is complete.
    Complete,
}

/// The wire spelling of a match state.
pub open spec fn match_state_str(s: MatchState) -> Seq<char> {
    match s {
        MatchState::All => "all"@,
        MatchState::Pending => "pending"@,
        MatchState::Open => "open"@,
        MatchState::Complete => "complete"@,
    }
}

/// Which match state a string spells.
pub open spec fn match_state_of_str(s: Seq<char>) -> Result<MatchState, ()> {
    if s == "all"@ {
        Ok(MatchState::All)
    } else if s == "pending"@ {
        Ok(MatchState::Pending)
    } else if s == "open"@ {
        Ok(MatchState::Open)
    } else if s == "complete"@ {
        Ok(MatchState::Complete)
    } else {
        Err(())
    }
}

impl MatchState {
    /// Reads a match state from its wire spelling.
    pub fn from_str(s: &str) -> (r: Result<MatchState, ()>)
        ensures
            r == match_state_of_str(s@),
    {
        if s.eq("all") {
            Ok(MatchState::All)
        } else if s.eq("pending") {
            Ok(MatchState::Pending)
        } else if s.eq("open") {
            Ok(MatchState::Open)
        } else if s.eq("complete") {
            Ok(MatchState::Complete)
        } else {
            Err(())
        }
    }

    /// Renders the match state in its wire spelling.
    pub fn to_string(&self) -> (r: String)
        ensures
            r@ == match_state_str(*self),
    {
        String::from_str(
            match self {
                MatchState::All => "all",
                MatchState::Pending => "pending",
                MatchState::Open => "open",
                MatchState::Complete => "complete",
            },
        )
    }
}

/// The match state a state field decodes to: an unrecognized spelling
/// reads as `All`.
pub open spec fn match_state_or_all(s: Seq<char>) -> MatchState {
    match match_state_of_str(s) {
        Ok(st) => st,
        Err(_) => MatchState::All,
    }
}

/// A list of matches, in the order the service returned them.
#[derive(Debug, Clone)]
pub struct Index(pub Vec<Match>);

impl Index {
    /// Decodes a JSON array of match payloads, in order, propagating the
    /// first failure.
    pub fn decode(value: JsonValue) -> (r: Result<Index, Error>)
        ensures
            match r {
                Ok(idx) => {
                    &&& value matches JsonValue::Array(arr)
                    &&& idx.0@.len() == arr@.len()
                    &&& forall|i: int|
                        0 <= i < arr@.len() ==> {
                            &&& (#[trigger] unwrapped_fields(arr@[i], "match"@)) matches Some(
                                fields,
                            )
                            &&& match_fields_ok(fields)
                            &&& match_matches(fields, idx.0@[i])
                        }
                },
                Err(e) => {
                    ||| {
                        &&& !(value matches JsonValue::Array(_))
                        &&& e matches Error::Decode(d, offending)
                        &&& d@ == "Error decoding object"@
                        &&& offending == value
                    }
                    ||| (value matches JsonValue::Array(arr) && exists|i: int|
                        {
                            &&& 0 <= i < arr@.len()
                            &&& match_decode_error(#[trigger] arr@[i], e)
                            &&& forall|j: int|
                                0 <= j < i ==> match_decodes(#[trigger] arr@[j])
                        })
                },
            },
    {
        let decoder = Match::decode;
        match decode_array(value, decoder) {
            Ok(list) => Ok(Index(list)),
            Err(e) => {
                proof {
                    if value is Array {
                        let arrv = value->Array_0@;
                        let i = choose|i: int|
                            {
                                &&& 0 <= i < arrv.len()
                                &&& #[trigger] decoder.ensures((arrv[i],), Err::<Match, Error>(e))
                                &&& exists|prefix: Seq<Match>|
                                    {
                                        &&& #[trigger] prefix.len() == i
                                        &&& forall|j: int|
                                            0 <= j < i ==> #[trigger] decoder.ensures(
                                                (arrv[j],),
                                                Ok::<Match, Error>(prefix[j]),
                                            )
                                    }
                            };
                        let prefix = choose|prefix: Seq<Match>|
                            {
                                &&& #[trigger] prefix.len() == i
                                &&& forall|j: int|
                                    0 <= j < i ==> #[trigger] decoder.ensures(
                                        (arrv[j],),
                                        Ok::<Match, Error>(prefix[j]),
                                    )
                            };
                        assert(match_decode_error(arrv[i], e));
                        assert forall|j: int| 0 <= j < i implies match_decodes(
                            #[trigger] arrv[j],
                        ) by {
                            assert(decoder.ensures((arrv[j],), Ok::<Match, Error>(prefix[j])));
                        }
                    }
                }
                Err(e)
            },
        }
    }
}

/// What a match update carries. When a winner id is supplied, the score
/// list must be supplied with it; this is a contract with the service,
/// not a check this crate performs.
#[derive(Debug, Clone)]
pub struct MatchUpdate {
    /// Per-game scores, player 1's score first in each pair.
    pub scores_csv: MatchScores,
    /// The winning participant. Changing the outcome of a completed
    /// match resets every match that branches from it.
    pub winner_id: Option<ParticipantId>,
    /// Overwrites the number of votes for player 1.
    pub player1_votes: Option<u64>,
    /// Overwrites the number of votes for player 2.
    pub player2_votes: Option<u64>,
}

impl MatchUpdate {
    /// Creates an empty match update.
    pub fn new() -> (r: MatchUpdate)
        ensures
            r.scores_csv.0@ == Seq::<MatchScore>::empty(),
            r.winner_id is None,
            r.player1_votes is None,
            r.player2_votes is None,
    {
        MatchUpdate {
            scores_csv: MatchScores(Vec::new()),
            winner_id: None,
            player1_votes: None,
            player2_votes: None,
        }
    }

    /// Sets the score list.
    pub fn scores_csv(self, scores_csv: MatchScores) -> (r: MatchUpdate)
        ensures
            r == (MatchUpdate { scores_csv, ..self }),
    {
        MatchUpdate { scores_csv, ..self }
    }

    /// Sets the winner.
    pub fn winner_id(self, winner_id: ParticipantId) -> (r: MatchUpdate)
        ensures
            r == (MatchUpdate { winner_id: Some(winner_id), ..self }),
    {
        MatchUpdate { winner_id: Some(winner_id), ..self }
    }

    /// Sets player 1's vote count.
    pub fn player1_votes(self, player1_votes: u64) -> (r: MatchUpdate)
        ensures
            r == (MatchUpdate { player1_votes: Some(player1_votes), ..self }),
    {
        MatchUpdate { player1_votes: Some(player1_votes), ..self }
    }

    /// Sets player 2's vote count.
    pub fn player2_votes(self, player2_votes: u64) -> (r: MatchUpdate)
        ensures
            r == (MatchUpdate { player2_votes: Some(player2_votes), ..self }),
    {
        MatchUpdate { player2_votes: Some(player2_votes), ..self }
    }
}

impl Default for MatchUpdate {
    /// An empty match update.
    fn default() -> (r: MatchUpdate)
        ensures
            r.scores_csv.0@ == Seq::<MatchScore>::empty(),
            r.winner_id is None,
            r.player1_votes is None,
            r.player2_votes is None,
    {
        MatchUpdate {
            scores_csv: MatchScores(Vec::new()),
            winner_id: None,
            player1_votes: None,
            player2_votes: None,
        }
    }
}

/// One player's slot in a match. The wire format keeps these fields
/// flattened on the match object under `player1_`/`player2_` prefixes;
/// nesting them here is a modeling choice of this crate.
#[derive(Debug, Clone)]
pub struct Player {
    /// The participant in this slot; zero where the slot is not filled.
    pub id: ParticipantId,
    /// Whether this slot is filled by the loser of a prerequisite match.
    pub is_prereq_match_loser: bool,
    /// The prerequisite match feeding this slot, if any.
    pub prereq_match_id: Option<MatchId>,
    /// Number of votes for this player.
    pub votes: u64,
}

/// How an optional participant-id field reads: a number is the id, any
/// other value reads as `None`.
pub open spec fn opt_participant_matches(v: JsonValue, o: Option<ParticipantId>) -> bool {
    match as_u64_option(v) {
        Some(n) => o == Some(ParticipantId(n)),
        None => o is None,
    }
}

/// The four `prefix`ed player keys are present on the field set.
pub open spec fn player_fields_ok(fields: Seq<(String, JsonValue)>, prefix: Seq<char>) -> bool {
    &&& lookup(fields, prefix + "id"@) is Some
    &&& lookup(fields, prefix + "is_prereq_match_loser"@) is Some
    &&& lookup(fields, prefix + "prereq_match_id"@) is Some
    &&& lookup(fields, prefix + "votes"@) is Some
}

/// How a decoded player relates to the `prefix`ed keys it was read from.
pub open spec fn player_matches(fields: Seq<(String, JsonValue)>, prefix: Seq<char>, p: Player) -> bool {
    &&& lookup(fields, prefix + "id"@) matches Some(v) && p.id == ParticipantId(u64_or_zero(v))
    &&& lookup(fields, prefix + "is_prereq_match_loser"@) matches Some(v)
        && p.is_prereq_match_loser == as_bool_or_false(v)
    &&& lookup(fields, prefix + "prereq_match_id"@) matches Some(v) && (match as_u64_option(v) {
        Some(n) => p.prereq_match_id == Some(MatchId(n)),
        None => p.prereq_match_id is None,
    })
    &&& lookup(fields, prefix + "votes"@) matches Some(v) && p.votes == u64_or_zero(v)
}

/// True when `e` is the error decoding a player from `fields` reports:
/// the first absent `prefix`ed key, in decode order.
pub open spec fn player_decode_error(
    fields: Seq<(String, JsonValue)>,
    prefix: Seq<char>,
    e: Error,
) -> bool {
    if lookup(fields, prefix + "id"@) is None {
        absent_key_error(e, prefix + "id"@)
    } else if lookup(fields, prefix + "is_prereq_match_loser"@) is None {
        absent_key_error(e, prefix + "is_prereq_match_loser"@)
    } else if lookup(fields, prefix + "prereq_match_id"@) is None {
        absent_key_error(e, prefix + "prereq_match_id"@)
    } else if lookup(fields, prefix + "votes"@) is None {
        absent_key_error(e, prefix + "votes"@)
    } else {
        false
    }
}

impl Player {
    /// Decodes one player's slot from a match's own field set, reading
    /// the keys under `prefix`: all four keys are required, their values
    /// lenient.
    pub fn decode(map: &JsonFields, prefix: &str) -> (r: Result<Player, Error>)
        ensures
            match r {
                Ok(p) => player_fields_ok(map@, prefix@) && player_matches(map@, prefix@, p),
                Err(e) => !player_fields_ok(map@, prefix@) && player_decode_error(
                    map@,
                    prefix@,
                    e,
                ),
            },
    {
        let id_key = prefixed(prefix, "id");
        let id = take_u64_or_zero(map, id_key.as_str())?;
        let loser_key = prefixed(prefix, "is_prereq_match_loser");
        let is_prereq_match_loser = take_bool(map, loser_key.as_str())?;
        let prereq_key = prefixed(prefix, "prereq_match_id");
        let prereq = take_opt_u64(map, prereq_key.as_str())?;
        let votes_key = prefixed(prefix, "votes");
        let votes = take_u64_or_zero(map, votes_key.as_str())?;
        let prereq_match_id = match prereq {
            Some(n) => Some(MatchId(n)),
            None => None,
        };
        Ok(Player { id: ParticipantId(id), is_prereq_match_loser, prereq_match_id, votes })
    }
}

/// A match record.
#[derive(Debug, Clone)]
pub struct Match {
    /// When the match was created.
    pub created_at: Timestamp,
    /// Whether the match has an attachment.
    pub has_attachment: bool,
    /// Unique match identifier.
    pub id: MatchId,
    /// The match's letter label in the bracket.
    pub identifier: String,
    /// The participant who lost, once decided.
    pub loser_id: Option<ParticipantId>,
    /// The first player's slot.
    pub player1: Player,
    /// The second player's slot.
    pub player2: Player,
    /// The round the match is played in; negative rounds are the losers
    /// bracket of a double elimination tournament.
    pub round: i64,
    /// When the match started, if it has.
    pub started_at: Option<Timestamp>,
    /// The state of the match.
    pub state: MatchState,
    /// The tournament the match belongs to.
    pub tournament_id: TournamentId,
    /// When the match was last updated.
    pub updated_at: Timestamp,
    /// The participant who won, once decided.
    pub winner_id: Option<ParticipantId>,
    /// The matches whose outcomes feed this one, as the service wrote
    /// them.
    pub prerequisite_match_ids_csv: String,
    /// Per-game score pairs, player 1's score first.
    pub scores_csv: MatchScores,
}

/// Every structural requirement a match field set must meet.
pub open spec fn match_fields_ok(fields: Seq<(String, JsonValue)>) -> bool {
    &&& lookup(fields, "started_at"@) is Some
    &&& ts_ok(lookup(fields, "created_at"@))
    &&& lookup(fields, "has_attachment"@) is Some
    &&& lookup(fields, "id"@) matches Some(JsonValue::UInt(_))
    &&& lookup(fields, "identifier"@) is Some
    &&& lookup(fields, "loser_id"@) is Some
    &&& player_fields_ok(fields, "player1_"@)
    &&& player_fields_ok(fields, "player2_"@)
    &&& has_i64(lookup(fields, "round"@))
    &&& lookup(fields, "state"@) is Some
    &&& lookup(fields, "tournament_id"@) matches Some(JsonValue::UInt(_))
    &&& ts_ok(lookup(fields, "updated_at"@))
    &&& lookup(fields, "winner_id"@) is Some
    &&& lookup(fields, "prerequisite_match_ids_csv"@) is Some
    &&& lookup(fields, "scores_csv"@) is Some
}

/// How a decoded match relates to the field set it was read from.
pub open spec fn match_matches(fields: Seq<(String, JsonValue)>, m: Match) -> bool {
    &&& lookup(fields, "started_at"@) matches Some(v) && m.started_at == crate::time::opt_ts_of(v)
    &&& lookup(fields, "created_at"@) matches Some(v) && v matches JsonValue::Str(s)
        && crate::time::rfc3339_parse(s@) == Some(m.created_at)
    &&& lookup(fields, "has_attachment"@) matches Some(v) && m.has_attachment == as_bool_or_false(
        v,
    )
    &&& lookup(fields, "id"@) == Some(JsonValue::UInt(m.id.0))
    &&& lookup(fields, "identifier"@) matches Some(v) && m.identifier@ == str_or_empty(v)
    &&& lookup(fields, "loser_id"@) matches Some(v) && opt_participant_matches(v, m.loser_id)
    &&& player_matches(fields, "player1_"@, m.player1)
    &&& player_matches(fields, "player2_"@, m.player2)
    &&& lookup(fields, "round"@) matches Some(v) && as_i64_option(v) == Some(m.round)
    &&& lookup(fields, "state"@) matches Some(v) && m.state == match_state_or_all(str_or_empty(v))
    &&& lookup(fields, "tournament_id"@) matches Some(v) && v matches JsonValue::UInt(n)
        && m.tournament_id == TournamentId::Id(n)
    &&& lookup(fields, "updated_at"@) matches Some(v) && v matches JsonValue::Str(s)
        && crate::time::rfc3339_parse(s@) == Some(m.updated_at)
    &&& lookup(fields, "winner_id"@) matches Some(v) && opt_participant_matches(v, m.winner_id)
    &&& lookup(fields, "prerequisite_match_ids_csv"@) matches Some(v)
        && m.prerequisite_match_ids_csv@ == str_or_empty(v)
    &&& lookup(fields, "scores_csv"@) matches Some(v) && m.scores_csv.0@ == scores_of_csv(
        str_or_empty(v),
    )
}

/// True when `e` is the error decoding a match's field set reports: the
/// first failed field requirement, in decode order.
pub open spec fn match_fields_error(fields: Seq<(String, JsonValue)>, e: Error) -> bool {
    if lookup(fields, "started_at"@) is None {
        absent_key_error(e, "started_at"@)
    } else if !ts_ok(lookup(fields, "created_at"@)) {
        ts_error(fields, "created_at"@, e)
    } else if lookup(fields, "has_attachment"@) is None {
        absent_key_error(e, "has_attachment"@)
    } else if !(lookup(fields, "id"@) matches Some(JsonValue::UInt(_))) {
        strict_u64_error(fields, "id"@, e)
    } else if lookup(fields, "identifier"@) is None {
        absent_key_error(e, "identifier"@)
    } else if lookup(fields, "loser_id"@) is None {
        absent_key_error(e, "loser_id"@)
    } else if !player_fields_ok(fields, "player1_"@) {
        player_decode_error(fields, "player1_"@, e)
    } else if !player_fields_ok(fields, "player2_"@) {
        player_decode_error(fields, "player2_"@, e)
    } else if !has_i64(lookup(fields, "round"@)) {
        strict_i64_error(fields, "round"@, e)
    } else if lookup(fields, "state"@) is None {
        absent_key_error(e, "state"@)
    } else if !(lookup(fields, "tournament_id"@) matches Some(JsonValue::UInt(_))) {
        strict_u64_error(fields, "tournament_id"@, e)
    } else if !ts_ok(lookup(fields, "updated_at"@)) {
        ts_error(fields, "updated_at"@, e)
    } else if lookup(fields, "winner_id"@) is None {
        absent_key_error(e, "winner_id"@)
    } else if lookup(fields, "prerequisite_match_ids_csv"@) is None {
        absent_key_error(e, "prerequisite_match_ids_csv"@)
    } else if lookup(fields, "scores_csv"@) is None {
        absent_key_error(e, "scores_csv"@)
    } else {
        false
    }
}

/// True when `e` is the error decoding a match payload reports.
pub open spec fn match_decode_error(value: JsonValue, e: Error) -> bool {
    match unwrapped_fields(value, "match"@) {
        Some(fields) => match_fields_error(fields, e),
        None => unwrap_error(value, "match"@, e),
    }
}

/// The payload decodes cleanly as a match: it unwraps and meets
/// every field requirement.
pub open spec fn match_decodes(value: JsonValue) -> bool {
    unwrapped_fields(value, "match"@) matches Some(fields) && match_fields_ok(fields)
}

impl Match {
    /// Decodes a match payload: unwraps the `match` wrapper key, then
    /// reads each field with its presence and leniency rule. The two
    /// player slots are read from the same flattened field set under
    /// their key prefixes.
    pub fn decode(value: JsonValue) -> (r: Result<Match, Error>)
        ensures
            match r {
                Ok(m) => {
                    &&& unwrapped_fields(value, "match"@) matches Some(fields)
                    &&& match_fields_ok(fields)
                    &&& match_matches(fields, m)
                },
                Err(e) => match_decode_error(value, e),
            },
    {
        let mut tv = unwrap_entity(value, "match")?;
        let started_at = take_opt_timestamp(&tv, "started_at")?;
        let created_at = take_timestamp(&mut tv, "created_at")?;
        let has_attachment = take_bool(&tv, "has_attachment")?;
        let id = take_u64_strict(&mut tv, "id")?;
        let identifier = take_string_or_empty(&tv, "identifier")?;
        let loser = take_opt_u64(&tv, "loser_id")?;
        let player1 = Player::decode(&tv, "player1_")?;
        let player2 = Player::decode(&tv, "player2_")?;
        let round = take_i64_strict(&mut tv, "round")?;
        let state_text = take_string_or_empty(&tv, "state")?;
        let tournament_id = take_u64_strict(&mut tv, "tournament_id")?;
        let updated_at = take_timestamp(&mut tv, "updated_at")?;
        let winner = take_opt_u64(&tv, "winner_id")?;
        let prerequisite_match_ids_csv = take_string_or_empty(&tv, "prerequisite_match_ids_csv")?;
        let scores_text = take_string_or_empty(&tv, "scores_csv")?;
        let state = match MatchState::from_str(state_text.as_str()) {
            Ok(st) => st,
            Err(_) => MatchState::All,
        };
        let loser_id = match loser {
            Some(n) => Some(ParticipantId(n)),
            None => None,
        };
        let winner_id = match winner {
            Some(n) => Some(ParticipantId(n)),
            None => None,
        };
        Ok(
            Match {
                created_at,
                has_attachment,
                id: MatchId(id),
                identifier,
                loser_id,
                player1,
                player2,
                round,
                started_at,
                state,
                tournament_id: TournamentId::Id(tournament_id),
                updated_at,
                winner_id,
                prerequisite_match_ids_csv,
                scores_csv: MatchScores::decode(scores_text),
            },
        )
    }
}

/// A match state round-trips through its wire spelling.
pub proof fn lemma_match_state_round_trip(s: MatchState)
    ensures
        match_state_of_str(match_state_str(s)) == Ok::<MatchState, ()>(s),
{
    reveal_strlit("all");
    reveal_strlit("pending");
    reveal_strlit("open");
    reveal_strlit("complete");
    assert("all"@.len() == 3);
    assert("pending"@.len() == 7);
    assert("open"@.len() == 4);
    assert("complete"@.len() == 8);
}

} // verus!
