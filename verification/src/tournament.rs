//! Tournaments: identifiers, enumerations, point configurations, and the
//! tournament record with its decoder.

use vstd::prelude::*;
use crate::error::Error;
use crate::json::{
    absent_key_error, as_bool_or_false, lookup, prefixed, str_or_empty, take_bool,
    take_string_or_empty, take_u64_or_zero, u64_or_zero, JsonFields,
    JsonValue,
};
use crate::time::{opt_ts_of, take_opt_timestamp, take_timestamp, ts_error, ts_ok, Timestamp};
use crate::util::{decode_array, unwrap_entity, unwrap_error, unwrapped_fields};
use crate::scalar::{
    dec_str, parse_points, parse_points_opt, points_of, points_opt_of, u64_to_string,
};

verus! {

/// Which associated records a tournament request asks the service to
/// embed.
#[derive(Debug, Clone)]
pub enum TournamentIncludes {
    /// Embed matches and participants.
    All,
    /// Embed matches.
    Matches,
    /// Embed participants.
    Participants,
}

impl TournamentIncludes {
    /// Whether participants are asked for.
    pub open spec fn wants_participants(self) -> bool {
        self matches TournamentIncludes::All || self matches TournamentIncludes::Participants
    }

    /// Whether matches are asked for.
    pub open spec fn wants_matches(self) -> bool {
        self matches TournamentIncludes::All || self matches TournamentIncludes::Matches
    }

    /// The two query parameters that carry this choice on the wire.
    pub fn to_pairs(&self) -> (r: [(&'static str, &'static str); 2])
        ensures
            r@.len() == 2,
            r@[0].0@ == "include_participants"@,
            r@[0].1@ == (if self.wants_participants() {
                "1"@
            } else {
                "0"@
            }),
            r@[1].0@ == "include_matches"@,
            r@[1].1@ == (if self.wants_matches() {
                "1"@
            } else {
                "0"@
            }),
    {
        let participants: &'static str = if matches!(self, TournamentIncludes::Matches) {
            "0"
        } else {
            "1"
        };
        let match_flag: &'static str = if matches!(self, TournamentIncludes::Participants) {
            "0"
        } else {
            "1"
        };
        [("include_participants", participants), ("include_matches", match_flag)]
    }
}

/// Tournament ranking order.
#[derive(Debug, Clone)]
pub enum RankedBy {
    /// Rank by number of matches won.
    MatchWins,
    /// Rank by number of games won.
    GameWins,
    /// Rank by points scored.
    PointsScored,
    /// Rank by difference in points.
    PointsDifference,
    /// Custom ranking rules.
    Custom,
}

/// The wire spelling of a ranking order.
pub open spec fn ranked_by_str(r: RankedBy) -> Seq<char> {
    match r {
        RankedBy::MatchWins => "match wins"@,
        RankedBy::GameWins => "game wins"@,
        RankedBy::PointsScored => "points scored"@,
        RankedBy::PointsDifference => "points difference"@,
        RankedBy::Custom => "custom"@,
    }
}

impl RankedBy {
    /// Renders the ranking order as the service spells it.
    pub fn to_string(&self) -> (r: String)
        ensures
            r@ == ranked_by_str(*self),
    {
        String::from_str(
            match self {
                RankedBy::MatchWins => "match wins",
                RankedBy::GameWins => "game wins",
                RankedBy::PointsScored => "points scored",
                RankedBy::PointsDifference => "points difference",
                RankedBy::Custom => "custom",
            },
        )
    }
}

/// A tournament is addressed either by the numeric id the service
/// assigned or, before that id is known, by its subdomain and URL slug.
/// The numeric id is authoritative once assigned: decoding a response
/// always yields it.
#[derive(Debug, Clone)]
pub enum TournamentId {
    /// Subdomain and tournament URL slug.
    Url(String, String),
    /// The unique numeric identifier assigned by the service.
    Id(u64),
}

/// How a tournament id is written in request paths: always
/// `{subdomain}-{slug}` for the subdomain/slug variant, and the decimal
/// digits for a numeric id.
pub open spec fn tournament_id_str(id: TournamentId) -> Seq<char> {
    match id {
        TournamentId::Url(subdomain, slug) => subdomain@ + "-"@ + slug@,
        TournamentId::Id(n) => dec_str(n as int),
    }
}

impl TournamentId {
    /// Renders the id as it appears in request paths.
    pub fn to_string(&self) -> (r: String)
        ensures
            r@ == tournament_id_str(*self),
    {
        match self {
            TournamentId::Url(subdomain, slug) => {
                let mut out = subdomain.clone();
                out.append("-");
                out.append(slug.as_str());
                out
            },
            TournamentId::Id(n) => u64_to_string(*n),
        }
    }
}

impl PartialEq for TournamentId {
    fn eq(&self, other: &TournamentId) -> (r: bool) {
        match (self, other) {
            (TournamentId::Url(a, b), TournamentId::Url(c, d)) => a.as_str().eq(c.as_str())
                && b.as_str().eq(d.as_str()),
            (TournamentId::Id(a), TournamentId::Id(b)) => a == b,
            _ => false,
        }
    }
}

impl vstd::std_specs::cmp::PartialEqSpecImpl for TournamentId {
    open spec fn obeys_eq_spec() -> bool {
        true
    }

    open spec fn eq_spec(&self, other: &TournamentId) -> bool {
        match (self, other) {
            (TournamentId::Url(a, b), TournamentId::Url(c, d)) => a@ == c@ && b@ == d@,
            (TournamentId::Id(a), TournamentId::Id(b)) => a == b,
            _ => false,
        }
    }
}

/// A type of tournament bracket.
#[derive(Debug, Clone, Copy, PartialEq, Eq, Structural)]
pub enum TournamentType {
    /// Single elimination bracket.
    SingleElimination,
    /// Double elimination bracket.
    DoubleElimination,
    /// Round robin play.
    RoundRobin,
    /// Swiss system play.
    Swiss,
}

/// The human-readable spelling of a tournament type, used in form fields.
pub open spec fn tournament_type_str(t: TournamentType) -> Seq<char> {
    match t {
        TournamentType::SingleElimination => "single elimination"@,
        TournamentType::DoubleElimination => "double elimination"@,
        TournamentType::RoundRobin => "round robin"@,
        TournamentType::Swiss => "swiss"@,
    }
}

/// The underscored spelling of a tournament type, used as a query
/// parameter.
pub open spec fn tournament_type_param(t: TournamentType) -> Seq<char> {
    match t {
        TournamentType::SingleElimination => "single_elimination"@,
        TournamentType::DoubleElimination => "double_elimination"@,
        TournamentType::RoundRobin => "round_robin"@,
        TournamentType::Swiss => "swiss"@,
    }
}

/// Which tournament type a string spells: both the underscored and the
/// space-separated spelling of each type are accepted.
pub open spec fn tournament_type_of_str(s: Seq<char>) -> Result<TournamentType, ()> {
    if s == "single_elimination"@ || s == "single elimination"@ {
        Ok(TournamentType::SingleElimination)
    } else if s == "double_elimination"@ || s == "double elimination"@ {
        Ok(TournamentType::DoubleElimination)
    } else if s == "round_robin"@ || s == "round robin"@ {
        Ok(TournamentType::RoundRobin)
    } else if s == "swiss"@ {
        Ok(TournamentType::Swiss)
    } else {
        Err(())
    }
}

impl TournamentType {
    /// Reads a tournament type in either accepted spelling.
    pub fn from_str(s: &str) -> (r: Result<TournamentType, ()>)
        ensures
            r == tournament_type_of_str(s@),
    {
        if s.eq("single_elimination") || s.eq("single elimination") {
            Ok(TournamentType::SingleElimination)
        } else if s.eq("double_elimination") || s.eq("double elimination") {
            Ok(TournamentType::DoubleElimination)
        } else if s.eq("round_robin") || s.eq("round robin") {
            Ok(TournamentType::RoundRobin)
        } else if s.eq("swiss") {
            Ok(TournamentType::Swiss)
        } else {
            Err(())
        }
    }

    /// Renders the tournament type for a GET query parameter.
    pub fn to_get_param(&self) -> (r: &'static str)
        ensures
            r@ == tournament_type_param(*self),
    {
        match self {
            TournamentType::SingleElimination => "single_elimination",
            TournamentType::DoubleElimination => "double_elimination",
            TournamentType::RoundRobin => "round_robin",
            TournamentType::Swiss => "swiss",
        }
    }

    /// Renders the tournament type in its human-readable spelling.
    pub fn to_string(&self) -> (r: String)
        ensures
            r@ == tournament_type_str(*self),
    {
        String::from_str(
            match self {
                TournamentType::SingleElimination => "single elimination",
                TournamentType::DoubleElimination => "double elimination",
                TournamentType::RoundRobin => "round robin",
                TournamentType::Swiss => "swiss",
            },
        )
    }
}

/// Both spellings a tournament type is encoded with decode back to the
/// same type.
pub proof fn lemma_tournament_type_round_trip(t: TournamentType)
    ensures
        tournament_type_of_str(tournament_type_str(t)) == Ok::<TournamentType, ()>(t),
        tournament_type_of_str(tournament_type_param(t)) == Ok::<TournamentType, ()>(t),
{
    reveal_strlit("single_elimination");
    reveal_strlit("single elimination");
    reveal_strlit("double_elimination");
    reveal_strlit("double elimination");
    reveal_strlit("round_robin");
    reveal_strlit("round robin");
    reveal_strlit("swiss");
    assert("single_elimination"@.len() == 18);
    assert("single elimination"@.len() == 18);
    assert("double_elimination"@.len() == 18);
    assert("double elimination"@.len() == 18);
    assert("round_robin"@.len() == 11);
    assert("round robin"@.len() == 11);
    assert("swiss"@.len() == 5);
    assert("single_elimination"@[0] == 's');
    assert("single elimination"@[0] == 's');
    assert("double_elimination"@[0] == 'd');
    assert("double elimination"@[0] == 'd');
}

/// A filter on tournament state in index queries.
#[derive(Debug, Clone)]
pub enum TournamentState {
    /// Any state.
    All,
    /// Not yet started.
    Pending,
    /// Underway.
    InProgress,
    /// Finished.
    Ended,
}

/// The query-parameter spelling of a tournament state.
pub open spec fn tournament_state_str(s: TournamentState) -> Seq<char> {
    match s {
        TournamentState::All => "all"@,
        TournamentState::Pending => "pending"@,
        TournamentState::InProgress => "in_progress"@,
        TournamentState::Ended => "ended"@,
    }
}

impl TournamentState {
    /// Renders the state as a query parameter value.
    pub fn to_string(&self) -> (r: String)
        ensures
            r@ == tournament_state_str(*self),
    {
        String::from_str(
            match self {
                TournamentState::All => "all",
                TournamentState::Pending => "pending",
                TournamentState::InProgress => "in_progress",
                TournamentState::Ended => "ended",
            },
        )
    }
}

/// A point value, held as integer thousandths of a point.
#[derive(Debug, Clone, Copy, PartialEq, Eq, Structural)]
pub struct Points(pub u64);

impl Points {
    /// Renders the point value as the service writes it.
    pub fn to_string(&self) -> (r: String)
        ensures
            r@ == crate::scalar::points_str(self.0),
    {
        crate::scalar::points_to_string(self.0)
    }
}

/// Point awards for one play system: match and game results, and an
/// optional bye allowance.
#[derive(Debug, Clone, PartialEq, Eq, Structural)]
pub struct GamePoints {
    /// Points for winning a match.
    pub match_win: Points,
    /// Points for a tied match.
    pub match_tie: Points,
    /// Points for winning a game.
    pub game_win: Points,
    /// Points for a tied game.
    pub game_tie: Points,
    /// Points awarded for a bye round, where the service reports one.
    pub bye: Option<Points>,
}

/// The bye field a point configuration decodes to: `Some` exactly where
/// the key is present with a well-formed decimal string value.
pub open spec fn bye_of_field(o: Option<JsonValue>) -> Option<Points> {
    match o {
        Some(v) => match points_opt_of(str_or_empty(v)) {
            Some(m) => Some(Points(m)),
            None => None,
        },
        None => None,
    }
}

/// The four required point keys under `prefix` are present.
pub open spec fn game_points_fields_ok(fields: Seq<(String, JsonValue)>, prefix: Seq<char>) -> bool {
    &&& lookup(fields, prefix + "pts_for_match_win"@) is Some
    &&& lookup(fields, prefix + "pts_for_match_tie"@) is Some
    &&& lookup(fields, prefix + "pts_for_game_win"@) is Some
    &&& lookup(fields, prefix + "pts_for_game_tie"@) is Some
}

/// How a decoded point configuration relates to the `prefix`ed keys it
/// was read from.
pub open spec fn game_points_matches(
    fields: Seq<(String, JsonValue)>,
    prefix: Seq<char>,
    gp: GamePoints,
) -> bool {
    &&& lookup(fields, prefix + "pts_for_match_win"@) matches Some(v) && gp.match_win == Points(
        points_of(str_or_empty(v)),
    )
    &&& lookup(fields, prefix + "pts_for_match_tie"@) matches Some(v) && gp.match_tie == Points(
        points_of(str_or_empty(v)),
    )
    &&& lookup(fields, prefix + "pts_for_game_win"@) matches Some(v) && gp.game_win == Points(
        points_of(str_or_empty(v)),
    )
    &&& lookup(fields, prefix + "pts_for_game_tie"@) matches Some(v) && gp.game_tie == Points(
        points_of(str_or_empty(v)),
    )
    &&& gp.bye == bye_of_field(lookup(fields, prefix + "pts_for_bye"@))
}

/// True when `e` is the error decoding a point configuration reports: the
/// first absent required key, in decode order.
pub open spec fn game_points_error(
    fields: Seq<(String, JsonValue)>,
    prefix: Seq<char>,
    e: Error,
) -> bool {
    if lookup(fields, prefix + "pts_for_match_win"@) is None {
        absent_key_error(e, prefix + "pts_for_match_win"@)
    } else if lookup(fields, prefix + "pts_for_match_tie"@) is None {
        absent_key_error(e, prefix + "pts_for_match_tie"@)
    } else if lookup(fields, prefix + "pts_for_game_win"@) is None {
        absent_key_error(e, prefix + "pts_for_game_win"@)
    } else if lookup(fields, prefix + "pts_for_game_tie"@) is None {
        absent_key_error(e, prefix + "pts_for_game_tie"@)
    } else {
        false
    }
}

impl GamePoints {
    /// Creates a point configuration from its five awards.
    pub fn new(
        match_win: Points,
        match_tie: Points,
        game_win: Points,
        game_tie: Points,
        bye: Option<Points>,
    ) -> (r: GamePoints)
        ensures
            r == (GamePoints { match_win, match_tie, game_win, game_tie, bye }),
    {
        GamePoints { match_win, match_tie, game_win, game_tie, bye }
    }

    /// Decodes the point configuration stored under `prefix`ed keys of an
    /// entity's field set: the four result keys are required (their
    /// values lenient), the bye key is optional.
    pub fn decode(map: &JsonFields, prefix: &str) -> (r: Result<GamePoints, Error>)
        ensures
            match r {
                Ok(gp) => game_points_fields_ok(map@, prefix@) && game_points_matches(
                    map@,
                    prefix@,
                    gp,
                ),
                Err(e) => !game_points_fields_ok(map@, prefix@) && game_points_error(
                    map@,
                    prefix@,
                    e,
                ),
            },
    {
        let bye_key = prefixed(prefix, "pts_for_bye");
        let bye = match crate::json::field_ref(map, bye_key.as_str()) {
            Some(v) => match v {
                JsonValue::Str(s) => match parse_points_opt(s.as_str()) {
                    Some(m) => Some(Points(m)),
                    None => None,
                },
                _ => {
                    proof {
                        lemma_points_empty();
                    }
                    None
                },
            },
            None => None,
        };
        let match_win_key = prefixed(prefix, "pts_for_match_win");
        let match_win = parse_points(take_string_or_empty(map, match_win_key.as_str())?.as_str());
        let match_tie_key = prefixed(prefix, "pts_for_match_tie");
        let match_tie = parse_points(take_string_or_empty(map, match_tie_key.as_str())?.as_str());
        let game_win_key = prefixed(prefix, "pts_for_game_win");
        let game_win = parse_points(take_string_or_empty(map, game_win_key.as_str())?.as_str());
        let game_tie_key = prefixed(prefix, "pts_for_game_tie");
        let game_tie = parse_points(take_string_or_empty(map, game_tie_key.as_str())?.as_str());
        Ok(
            GamePoints {
                match_win: Points(match_win),
                match_tie: Points(match_tie),
                game_win: Points(game_win),
                game_tie: Points(game_tie),
                bye,
            },
        )
    }
}

impl Default for GamePoints {
    /// The service's default point configuration: half a point per match
    /// win, one per tie, nothing per game.
    fn default() -> (r: GamePoints)
        ensures
            r == (GamePoints {
                match_win: Points(500),
                match_tie: Points(1000),
                game_win: Points(0),
                game_tie: Points(0),
                bye: None,
            }),
    {
        GamePoints {
            match_win: Points(500),
            match_tie: Points(1000),
            game_win: Points(0),
            game_tie: Points(0),
            bye: None,
        }
    }
}

/// The tournament type a type field decodes to: an unrecognized spelling
/// reads as single elimination.
pub open spec fn tournament_type_or_single(s: Seq<char>) -> TournamentType {
    match tournament_type_of_str(s) {
        Ok(t) => t,
        Err(_) => TournamentType::SingleElimination,
    }
}

/// A tournament record.
#[derive(Debug, Clone)]
pub struct Tournament {
    /// Whether matches may carry attachments.
    pub accept_attachments: bool,
    /// Whether participants may report match results themselves.
    pub allow_participant_match_reporting: bool,
    /// Whether the tournament supports anonymous voting.
    pub anonymous_voting: bool,
    /// When the tournament was created.
    pub created_at: Timestamp,
    /// Whether the tournament was created through the API.
    pub created_by_api: bool,
    /// Whether the owner's credit is capped.
    pub credit_capped: bool,
    /// Description shown above the bracket.
    pub description: String,
    /// The game the tournament is played in.
    pub game_id: u64,
    /// Whether group stages are enabled.
    pub group_stages_enabled: bool,
    /// Whether the forum is hidden.
    pub hide_forum: bool,
    /// Whether seeds are hidden.
    pub hide_seeds: bool,
    /// Whether a third-place match is held.
    pub hold_third_place_match: bool,
    /// Unique tournament identifier; decoding always yields the numeric variant.
    pub id: TournamentId,
    /// Maximum number of predictions per user.
    pub max_predictions_per_user: u64,
    /// Name of the tournament.
    pub name: String,
    /// Whether users are emailed when their matches open.
    pub notify_users_when_matches_open: bool,
    /// Whether users are emailed the results when the tournament ends.
    pub notify_users_when_the_tournament_ends: bool,
    /// Whether the service hosts a public sign-up page.
    pub open_signup: bool,
    /// Number of participants.
    pub participants_count: u64,
    /// How predictions are scored.
    pub prediction_method: u64,
    /// Whether the tournament is hidden from the public index.
    pub private: bool,
    /// How far the tournament has progressed.
    pub progress_meter: u64,
    /// Point awards for Swiss play.
    pub swiss_points: GamePoints,
    /// Whether winners advance as soon as a score is in.
    pub quick_advance: bool,
    /// Whether all participants of a match must agree on the score.
    pub require_score_agreement: bool,
    /// Point awards for round robin play.
    pub round_robin_points: GamePoints,
    /// Whether pairings go straight down the participant list.
    pub sequential_pairings: bool,
    /// Whether round labels are shown above the bracket.
    pub show_rounds: bool,
    /// When the tournament started, if it has.
    pub started_at: Option<Timestamp>,
    /// Number of rounds in Swiss play.
    pub swiss_rounds: u64,
    /// Whether participants are teams.
    pub teams: bool,
    /// The bracket type.
    pub tournament_type: TournamentType,
    /// When the tournament was last updated.
    pub updated_at: Timestamp,
    /// The tournament's URL slug.
    pub url: String,
    /// The raw source of the description.
    pub description_source: String,
    /// Full URL of the tournament's page.
    pub full_challonge_url: String,
    /// URL of the live bracket image.
    pub live_image_url: String,
    /// Whether results are reviewed before finalizing.
    pub review_before_finalizing: bool,
    /// Whether predictions are open.
    pub accepting_predictions: bool,
    /// Whether participants can no longer be added or removed.
    pub participants_locked: bool,
    /// Name of the game the tournament belongs to.
    pub game_name: String,
    /// Whether participants can be swapped within the bracket.
    pub participants_swappable: bool,
    /// Whether the tournament can be converted to teams.
    pub team_convertable: bool,
    /// Whether group stages have started.
    pub group_stages_were_started: bool,
}

/// Every structural requirement a tournament field set must meet.
pub open spec fn tournament_fields_ok(fields: Seq<(String, JsonValue)>) -> bool {
    &&& lookup(fields, "started_at"@) is Some
    &&& lookup(fields, "accept_attachments"@) is Some
    &&& lookup(fields, "allow_participant_match_reporting"@) is Some
    &&& lookup(fields, "anonymous_voting"@) is Some
    &&& ts_ok(lookup(fields, "created_at"@))
    &&& lookup(fields, "created_by_api"@) is Some
    &&& lookup(fields, "credit_capped"@) is Some
    &&& lookup(fields, "description"@) is Some
    &&& lookup(fields, "game_id"@) is Some
    &&& lookup(fields, "id"@) is Some
    &&& lookup(fields, "name"@) is Some
    &&& lookup(fields, "group_stages_enabled"@) is Some
    &&& lookup(fields, "hide_forum"@) is Some
    &&& lookup(fields, "hide_seeds"@) is Some
    &&& lookup(fields, "hold_third_place_match"@) is Some
    &&& lookup(fields, "max_predictions_per_user"@) is Some
    &&& lookup(fields, "notify_users_when_matches_open"@) is Some
    &&& lookup(fields, "notify_users_when_the_tournament_ends"@) is Some
    &&& lookup(fields, "open_signup"@) is Some
    &&& lookup(fields, "participants_count"@) is Some
    &&& lookup(fields, "prediction_method"@) is Some
    &&& lookup(fields, "private"@) is Some
    &&& lookup(fields, "progress_meter"@) is Some
    &&& game_points_fields_ok(fields, ""@)
    &&& lookup(fields, "quick_advance"@) is Some
    &&& lookup(fields, "require_score_agreement"@) is Some
    &&& game_points_fields_ok(fields, "rr_"@)
    &&& lookup(fields, "sequential_pairings"@) is Some
    &&& lookup(fields, "show_rounds"@) is Some
    &&& lookup(fields, "swiss_rounds"@) is Some
    &&& lookup(fields, "teams"@) is Some
    &&& lookup(fields, "tournament_type"@) is Some
    &&& ts_ok(lookup(fields, "updated_at"@))
    &&& lookup(fields, "url"@) is Some
    &&& lookup(fields, "description_source"@) is Some
    &&& lookup(fields, "full_challonge_url"@) is Some
    &&& lookup(fields, "live_image_url"@) is Some
    &&& lookup(fields, "review_before_finalizing"@) is Some
    &&& lookup(fields, "accepting_predictions"@) is Some
    &&& lookup(fields, "participants_locked"@) is Some
    &&& lookup(fields, "game_name"@) is Some
    &&& lookup(fields, "participants_swappable"@) is Some
    &&& lookup(fields, "team_convertable"@) is Some
    &&& lookup(fields, "group_stages_were_started"@) is Some
}

/// How a decoded tournament relates to the field set it was read from.
pub open spec fn tournament_matches(fields: Seq<(String, JsonValue)>, t: Tournament) -> bool {
    &&& lookup(fields, "started_at"@) matches Some(v) && t.started_at == opt_ts_of(v)
    &&& lookup(fields, "accept_attachments"@) matches Some(v) && t.accept_attachments == as_bool_or_false(v)
    &&& lookup(fields, "allow_participant_match_reporting"@) matches Some(v) && t.allow_participant_match_reporting == as_bool_or_false(v)
    &&& lookup(fields, "anonymous_voting"@) matches Some(v) && t.anonymous_voting == as_bool_or_false(v)
    &&& lookup(fields, "created_at"@) matches Some(v) && v matches JsonValue::Str(s)
        && crate::time::rfc3339_parse(s@) == Some(t.created_at)
    &&& lookup(fields, "created_by_api"@) matches Some(v) && t.created_by_api == as_bool_or_false(v)
    &&& lookup(fields, "credit_capped"@) matches Some(v) && t.credit_capped == as_bool_or_false(v)
    &&& lookup(fields, "description"@) matches Some(v) && t.description@ == str_or_empty(v)
    &&& lookup(fields, "game_id"@) matches Some(v) && t.game_id == u64_or_zero(v)
    &&& lookup(fields, "id"@) matches Some(v) && t.id == TournamentId::Id(u64_or_zero(v))
    &&& lookup(fields, "name"@) matches Some(v) && t.name@ == str_or_empty(v)
    &&& lookup(fields, "group_stages_enabled"@) matches Some(v) && t.group_stages_enabled == as_bool_or_false(v)
    &&& lookup(fields, "hide_forum"@) matches Some(v) && t.hide_forum == as_bool_or_false(v)
    &&& lookup(fields, "hide_seeds"@) matches Some(v) && t.hide_seeds == as_bool_or_false(v)
    &&& lookup(fields, "hold_third_place_match"@) matches Some(v) && t.hold_third_place_match == as_bool_or_false(v)
    &&& lookup(fields, "max_predictions_per_user"@) matches Some(v) && t.max_predictions_per_user == u64_or_zero(v)
    &&& lookup(fields, "notify_users_when_matches_open"@) matches Some(v) && t.notify_users_when_matches_open == as_bool_or_false(v)
    &&& lookup(fields, "notify_users_when_the_tournament_ends"@) matches Some(v) && t.notify_users_when_the_tournament_ends == as_bool_or_false(v)
    &&& lookup(fields, "open_signup"@) matches Some(v) && t.open_signup == as_bool_or_false(v)
    &&& lookup(fields, "participants_count"@) matches Some(v) && t.participants_count == u64_or_zero(v)
    &&& lookup(fields, "prediction_method"@) matches Some(v) && t.prediction_method == u64_or_zero(v)
    &&& lookup(fields, "private"@) matches Some(v) && t.private == as_bool_or_false(v)
    &&& lookup(fields, "progress_meter"@) matches Some(v) && t.progress_meter == u64_or_zero(v)
    &&& game_points_matches(fields, ""@, t.swiss_points)
    &&& lookup(fields, "quick_advance"@) matches Some(v) && t.quick_advance == as_bool_or_false(v)
    &&& lookup(fields, "require_score_agreement"@) matches Some(v) && t.require_score_agreement == as_bool_or_false(v)
    &&& game_points_matches(fields, "rr_"@, t.round_robin_points)
    &&& lookup(fields, "sequential_pairings"@) matches Some(v) && t.sequential_pairings == as_bool_or_false(v)
    &&& lookup(fields, "show_rounds"@) matches Some(v) && t.show_rounds == as_bool_or_false(v)
    &&& lookup(fields, "swiss_rounds"@) matches Some(v) && t.swiss_rounds == u64_or_zero(v)
    &&& lookup(fields, "teams"@) matches Some(v) && t.teams == as_bool_or_false(v)
    &&& lookup(fields, "tournament_type"@) matches Some(v) && t.tournament_type == tournament_type_or_single(str_or_empty(v))
    &&& lookup(fields, "updated_at"@) matches Some(v) && v matches JsonValue::Str(s)
        && crate::time::rfc3339_parse(s@) == Some(t.updated_at)
    &&& lookup(fields, "url"@) matches Some(v) && t.url@ == str_or_empty(v)
    &&& lookup(fields, "description_source"@) matches Some(v) && t.description_source@ == str_or_empty(v)
    &&& lookup(fields, "full_challonge_url"@) matches Some(v) && t.full_challonge_url@ == str_or_empty(v)
    &&& lookup(fields, "live_image_url"@) matches Some(v) && t.live_image_url@ == str_or_empty(v)
    &&& lookup(fields, "review_before_finalizing"@) matches Some(v) && t.review_before_finalizing == as_bool_or_false(v)
    &&& lookup(fields, "accepting_predictions"@) matches Some(v) && t.accepting_predictions == as_bool_or_false(v)
    &&& lookup(fields, "participants_locked"@) matches Some(v) && t.participants_locked == as_bool_or_false(v)
    &&& lookup(fields, "game_name"@) matches Some(v) && t.game_name@ == str_or_empty(v)
    &&& lookup(fields, "participants_swappable"@) matches Some(v) && t.participants_swappable == as_bool_or_false(v)
    &&& lookup(fields, "team_convertable"@) matches Some(v) && t.team_convertable == as_bool_or_false(v)
    &&& lookup(fields, "group_stages_were_started"@) matches Some(v) && t.group_stages_were_started == as_bool_or_false(v)
}

/// True when `e` is the error decoding a tournament's field set reports:
/// the first failed field requirement, in decode order.
pub open spec fn tournament_fields_error(fields: Seq<(String, JsonValue)>, e: Error) -> bool {
    if lookup(fields, "started_at"@) is None {
        absent_key_error(e, "started_at"@)
    } else if lookup(fields, "accept_attachments"@) is None {
        absent_key_error(e, "accept_attachments"@)
    } else if lookup(fields, "allow_participant_match_reporting"@) is None {
        absent_key_error(e, "allow_participant_match_reporting"@)
    } else if lookup(fields, "anonymous_voting"@) is None {
        absent_key_error(e, "anonymous_voting"@)
    } else if !ts_ok(lookup(fields, "created_at"@)) {
        ts_error(fields, "created_at"@, e)
    } else if lookup(fields, "created_by_api"@) is None {
        absent_key_error(e, "created_by_api"@)
    } else if lookup(fields, "credit_capped"@) is None {
        absent_key_error(e, "credit_capped"@)
    } else if lookup(fields, "description"@) is None {
        absent_key_error(e, "description"@)
    } else if lookup(fields, "game_id"@) is None {
        absent_key_error(e, "game_id"@)
    } else if lookup(fields, "id"@) is None {
        absent_key_error(e, "id"@)
    } else if lookup(fields, "name"@) is None {
        absent_key_error(e, "name"@)
    } else if lookup(fields, "group_stages_enabled"@) is None {
        absent_key_error(e, "group_stages_enabled"@)
    } else if lookup(fields, "hide_forum"@) is None {
        absent_key_error(e, "hide_forum"@)
    } else if lookup(fields, "hide_seeds"@) is None {
        absent_key_error(e, "hide_seeds"@)
    } else if lookup(fields, "hold_third_place_match"@) is None {
        absent_key_error(e, "hold_third_place_match"@)
    } else if lookup(fields, "max_predictions_per_user"@) is None {
        absent_key_error(e, "max_predictions_per_user"@)
    } else if lookup(fields, "notify_users_when_matches_open"@) is None {
        absent_key_error(e, "notify_users_when_matches_open"@)
    } else if lookup(fields, "notify_users_when_the_tournament_ends"@) is None {
        absent_key_error(e, "notify_users_when_the_tournament_ends"@)
    } else if lookup(fields, "open_signup"@) is None {
        absent_key_error(e, "open_signup"@)
    } else if lookup(fields, "participants_count"@) is None {
        absent_key_error(e, "participants_count"@)
    } else if lookup(fields, "prediction_method"@) is None {
        absent_key_error(e, "prediction_method"@)
    } else if lookup(fields, "private"@) is None {
        absent_key_error(e, "private"@)
    } else if lookup(fields, "progress_meter"@) is None {
        absent_key_error(e, "progress_meter"@)
    } else if !game_points_fields_ok(fields, ""@) {
        game_points_error(fields, ""@, e)
    } else if lookup(fields, "quick_advance"@) is None {
        absent_key_error(e, "quick_advance"@)
    } else if lookup(fields, "require_score_agreement"@) is None {
        absent_key_error(e, "require_score_agreement"@)
    } else if !game_points_fields_ok(fields, "rr_"@) {
        game_points_error(fields, "rr_"@, e)
    } else if lookup(fields, "sequential_pairings"@) is None {
        absent_key_error(e, "sequential_pairings"@)
    } else if lookup(fields, "show_rounds"@) is None {
        absent_key_error(e, "show_rounds"@)
    } else if lookup(fields, "swiss_rounds"@) is None {
        absent_key_error(e, "swiss_rounds"@)
    } else if lookup(fields, "teams"@) is None {
        absent_key_error(e, "teams"@)
    } else if lookup(fields, "tournament_type"@) is None {
        absent_key_error(e, "tournament_type"@)
    } else if !ts_ok(lookup(fields, "updated_at"@)) {
        ts_error(fields, "updated_at"@, e)
    } else if lookup(fields, "url"@) is None {
        absent_key_error(e, "url"@)
    } else if lookup(fields, "description_source"@) is None {
        absent_key_error(e, "description_source"@)
    } else if lookup(fields, "full_challonge_url"@) is None {
        absent_key_error(e, "full_challonge_url"@)
    } else if lookup(fields, "live_image_url"@) is None {
        absent_key_error(e, "live_image_url"@)
    } else if lookup(fields, "review_before_finalizing"@) is None {
        absent_key_error(e, "review_before_finalizing"@)
    } else if lookup(fields, "accepting_predictions"@) is None {
        absent_key_error(e, "accepting_predictions"@)
    } else if lookup(fields, "participants_locked"@) is None {
        absent_key_error(e, "participants_locked"@)
    } else if lookup(fields, "game_name"@) is None {
        absent_key_error(e, "game_name"@)
    } else if lookup(fields, "participants_swappable"@) is None {
        absent_key_error(e, "participants_swappable"@)
    } else if lookup(fields, "team_convertable"@) is None {
        absent_key_error(e, "team_convertable"@)
    } else if lookup(fields, "group_stages_were_started"@) is None {
        absent_key_error(e, "group_stages_were_started"@)
    } else {
        false
    }
}

/// True when `e` is the error decoding a tournament payload reports.
pub open spec fn tournament_decode_error(value: JsonValue, e: Error) -> bool {
    match unwrapped_fields(value, "tournament"@) {
        Some(fields) => tournament_fields_error(fields, e),
        None => unwrap_error(value, "tournament"@, e),
    }
}

/// The payload decodes cleanly as a tournament: it unwraps and meets
/// every field requirement.
pub open spec fn tournament_decodes(value: JsonValue) -> bool {
    unwrapped_fields(value, "tournament"@) matches Some(fields) && tournament_fields_ok(fields)
}

impl Tournament {
    /// Decodes a tournament payload: unwraps the `tournament` wrapper
    /// key, then reads each field with its presence and leniency rule.
    /// The two point configurations are read from the same flattened
    /// field set, the round robin one under `rr_`-prefixed keys.
    #[verifier::rlimit(60)]
    pub fn decode(value: JsonValue) -> (r: Result<Tournament, Error>)
        ensures
            match r {
                Ok(t) => {
                    &&& unwrapped_fields(value, "tournament"@) matches Some(fields)
                    &&& tournament_fields_ok(fields)
                    &&& tournament_matches(fields, t)
                },
                Err(e) => tournament_decode_error(value, e),
            },
    {
        let mut tv = unwrap_entity(value, "tournament")?;
        let started_at = take_opt_timestamp(&tv, "started_at")?;
        let accept_attachments = take_bool(&tv, "accept_attachments")?;
        let allow_participant_match_reporting = take_bool(&tv, "allow_participant_match_reporting")?;
        let anonymous_voting = take_bool(&tv, "anonymous_voting")?;
        let created_at = take_timestamp(&mut tv, "created_at")?;
        let created_by_api = take_bool(&tv, "created_by_api")?;
        let credit_capped = take_bool(&tv, "credit_capped")?;
        let description = take_string_or_empty(&tv, "description")?;
        let game_id = take_u64_or_zero(&tv, "game_id")?;
        let id_num = take_u64_or_zero(&tv, "id")?;
        let name = take_string_or_empty(&tv, "name")?;
        let group_stages_enabled = take_bool(&tv, "group_stages_enabled")?;
        let hide_forum = take_bool(&tv, "hide_forum")?;
        let hide_seeds = take_bool(&tv, "hide_seeds")?;
        let hold_third_place_match = take_bool(&tv, "hold_third_place_match")?;
        let max_predictions_per_user = take_u64_or_zero(&tv, "max_predictions_per_user")?;
        let notify_users_when_matches_open = take_bool(&tv, "notify_users_when_matches_open")?;
        let notify_users_when_the_tournament_ends = take_bool(&tv, "notify_users_when_the_tournament_ends")?;
        let open_signup = take_bool(&tv, "open_signup")?;
        let participants_count = take_u64_or_zero(&tv, "participants_count")?;
        let prediction_method = take_u64_or_zero(&tv, "prediction_method")?;
        let private = take_bool(&tv, "private")?;
        let progress_meter = take_u64_or_zero(&tv, "progress_meter")?;
        let swiss_points = GamePoints::decode(&tv, "")?;
        let quick_advance = take_bool(&tv, "quick_advance")?;
        let require_score_agreement = take_bool(&tv, "require_score_agreement")?;
        let round_robin_points = GamePoints::decode(&tv, "rr_")?;
        let sequential_pairings = take_bool(&tv, "sequential_pairings")?;
        let show_rounds = take_bool(&tv, "show_rounds")?;
        let swiss_rounds = take_u64_or_zero(&tv, "swiss_rounds")?;
        let teams = take_bool(&tv, "teams")?;
        let tournament_type_text = take_string_or_empty(&tv, "tournament_type")?;
        let updated_at = take_timestamp(&mut tv, "updated_at")?;
        let url = take_string_or_empty(&tv, "url")?;
        let description_source = take_string_or_empty(&tv, "description_source")?;
        let full_challonge_url = take_string_or_empty(&tv, "full_challonge_url")?;
        let live_image_url = take_string_or_empty(&tv, "live_image_url")?;
        let review_before_finalizing = take_bool(&tv, "review_before_finalizing")?;
        let accepting_predictions = take_bool(&tv, "accepting_predictions")?;
        let participants_locked = take_bool(&tv, "participants_locked")?;
        let game_name = take_string_or_empty(&tv, "game_name")?;
        let participants_swappable = take_bool(&tv, "participants_swappable")?;
        let team_convertable = take_bool(&tv, "team_convertable")?;
        let group_stages_were_started = take_bool(&tv, "group_stages_were_started")?;
        let tournament_type = match TournamentType::from_str(tournament_type_text.as_str()) {
            Ok(t) => t,
            Err(_) => TournamentType::SingleElimination,
        };
        Ok(
            Tournament {
                accept_attachments,
                allow_participant_match_reporting,
                anonymous_voting,
                created_at,
                created_by_api,
                credit_capped,
                description,
                game_id,
                group_stages_enabled,
                hide_forum,
                hide_seeds,
                hold_third_place_match,
                id: TournamentId::Id(id_num),
                max_predictions_per_user,
                name,
                notify_users_when_matches_open,
                notify_users_when_the_tournament_ends,
                open_signup,
                participants_count,
                prediction_method,
                private,
                progress_meter,
                swiss_points,
                quick_advance,
                require_score_agreement,
                round_robin_points,
                sequential_pairings,
                show_rounds,
                started_at,
                swiss_rounds,
                teams,
                tournament_type,
                updated_at,
                url,
                description_source,
                full_challonge_url,
                live_image_url,
                review_before_finalizing,
                accepting_predictions,
                participants_locked,
                game_name,
                participants_swappable,
                team_convertable,
                group_stages_were_started,
            },
        )
    }
}

/// A list of tournaments, in the order the service returned them.
#[derive(Debug, Clone)]
pub struct Index(pub Vec<Tournament>);

impl Index {
    /// Decodes a JSON array of tournament payloads, in order, propagating
    /// the first failure.
    pub fn decode(value: JsonValue) -> (r: Result<Index, Error>)
        ensures
            match r {
                Ok(idx) => {
                    &&& value matches JsonValue::Array(arr)
                    &&& idx.0@.len() == arr@.len()
                    &&& forall|i: int|
                        0 <= i < arr@.len() ==> {
                            &&& (#[trigger] unwrapped_fields(
                                arr@[i],
                                "tournament"@,
                            )) matches Some(fields)
                            &&& tournament_fields_ok(fields)
                            &&& tournament_matches(fields, idx.0@[i])
                        }
                },
                Err(e) => {
                    ||| {
                        &&& !(value matches JsonValue::Array(_))
                        &&& e matches Error::Decode(d, offending)
                        &&& d@ == "Error decoding object"@
                        &&& offending == value
                    }
                    ||| (value matches JsonValue::Array(arr) && exists|i: int|
                        {
                            &&& 0 <= i < arr@.len()
                            &&& tournament_decode_error(#[trigger] arr@[i], e)
                            &&& forall|j: int|
                                0 <= j < i ==> tournament_decodes(#[trigger] arr@[j])
                        })
                },
            },
    {
        let decoder = Tournament::decode;
        match decode_array(value, decoder) {
            Ok(list) => Ok(Index(list)),
            Err(e) => {
                proof {
                    if value is Array {
                        let arrv = value->Array_0@;
                        let i = choose|i: int|
                            {
                                &&& 0 <= i < arrv.len()
                                &&& #[trigger] decoder.ensures(
                                    (arrv[i],),
                                    Err::<Tournament, Error>(e),
                                )
                                &&& exists|prefix: Seq<Tournament>|
                                    {
                                        &&& #[trigger] prefix.len() == i
                                        &&& forall|j: int|
                                            0 <= j < i ==> #[trigger] decoder.ensures(
                                                (arrv[j],),
                                                Ok::<Tournament, Error>(prefix[j]),
                                            )
                                    }
                            };
                        let prefix = choose|prefix: Seq<Tournament>|
                            {
                                &&& #[trigger] prefix.len() == i
                                &&& forall|j: int|
                                    0 <= j < i ==> #[trigger] decoder.ensures(
                                        (arrv[j],),
                                        Ok::<Tournament, Error>(prefix[j]),
                                    )
                            };
                        assert(tournament_decode_error(arrv[i], e));
                        assert forall|j: int| 0 <= j < i implies tournament_decodes(
                            #[trigger] arrv[j],
                        ) by {
                            assert(decoder.ensures((arrv[j],), Ok::<Tournament, Error>(prefix[j])));
                        }
                    }
                }
                Err(e)
            },
        }
    }
}

/// Decoding a tournament payload always yields the numeric id variant,
/// never the subdomain/slug variant: the service's numeric id is
/// authoritative once assigned.
pub proof fn lemma_tournament_id_numeric(fields: Seq<(String, JsonValue)>, t: Tournament)
    requires
        tournament_matches(fields, t),
    ensures
        t.id matches TournamentId::Id(_),
{
}

/// Rendering the subdomain/slug variant always yields
/// `{subdomain}-{slug}`.
pub proof fn lemma_tournament_id_url_render(subdomain: String, slug: String)
    ensures
        tournament_id_str(TournamentId::Url(subdomain, slug)) == subdomain@ + "-"@ + slug@,
{
}

/// A payload whose top-level object lacks the `tournament` wrapper key
/// never yields a record: decoding can only fail, and the failure is the
/// absent-key decode error for that key — never a panic or a silent
/// default.
pub proof fn lemma_tournament_missing_wrapper(value: JsonValue, e: Error)
    requires
        value matches JsonValue::Object(top) && lookup(top@, "tournament"@) is None,
    ensures
        unwrapped_fields(value, "tournament"@) is None,
        tournament_decode_error(value, e) ==> absent_key_error(e, "tournament"@),
{
}

/// What a new tournament carries; built by chaining setters off
/// [`TournamentCreate::new`].
#[derive(Debug, Clone)]
pub struct TournamentCreate {
    /// The event's name or title, at most 60 characters.
    pub name: String,
    /// The bracket type.
    pub tournament_type: TournamentType,
    /// The URL slug the tournament will live under.
    pub url: String,
    /// The subdomain the tournament will live under; needs write access.
    pub subdomain: String,
    /// Description or instructions shown above the bracket.
    pub description: String,
    /// Whether the service hosts a public sign-up page.
    pub open_signup: bool,
    /// Whether a third-place match is held; single elimination only.
    pub hold_third_place_match: bool,
    /// Point awards for Swiss play.
    pub swiss_points: GamePoints,
    /// Number of rounds in Swiss play.
    pub swiss_rounds: u64,
    /// The ranking order.
    pub ranked_by: RankedBy,
    /// Point awards for round robin play.
    pub round_robin_points: GamePoints,
    /// Whether round labels are shown; single and double elimination
    /// only.
    pub show_rounds: bool,
    /// Whether the tournament is hidden from the public index.
    pub private: bool,
    /// Name of the game the tournament belongs to.
    pub game_name: Option<String>,
    /// Whether users are emailed when their matches open.
    pub notify_users_when_matches_open: bool,
    /// Whether users are emailed the results when the tournament ends.
    pub notify_users_when_the_tournament_ends: bool,
    /// Whether pairings go straight down the participant list instead of
    /// traditional seeding.
    pub sequential_pairings: bool,
    /// Maximum number of participants before a waiting list forms.
    pub signup_cap: u64,
    /// The planned start time, used with the check-in duration to set the
    /// check-in window.
    pub start_at: Option<Timestamp>,
    /// Length of the check-in window, in minutes.
    pub check_in_duration: u64,
    /// How the grand finals of a double elimination bracket are played:
    /// unset for two chances, `single match`, or `skip`.
    pub grand_finals_modifier: Option<String>,
}

impl TournamentCreate {
    /// Creates a tournament description with the service's defaults: a
    /// single elimination bracket, sign-up cap of four, a one-hour
    /// check-in window, and notifications on.
    pub fn new() -> (r: TournamentCreate)
        ensures
            r.name@ == Seq::<char>::empty(),
            r.tournament_type == TournamentType::SingleElimination,
            r.url@ == Seq::<char>::empty(),
            r.subdomain@ == Seq::<char>::empty(),
            r.description@ == Seq::<char>::empty(),
            r.open_signup == false,
            r.hold_third_place_match == false,
            r.swiss_points == (GamePoints {
                match_win: Points(500),
                match_tie: Points(1000),
                game_win: Points(0),
                game_tie: Points(0),
                bye: Some(Points(0)),
            }),
            r.swiss_rounds == 0,
            r.ranked_by matches RankedBy::PointsScored,
            r.round_robin_points == (GamePoints {
                match_win: Points(500),
                match_tie: Points(1000),
                game_win: Points(0),
                game_tie: Points(0),
                bye: None,
            }),
            r.show_rounds == false,
            r.private == false,
            r.game_name is None,
            r.notify_users_when_matches_open == true,
            r.notify_users_when_the_tournament_ends == true,
            r.sequential_pairings == false,
            r.signup_cap == 4,
            r.start_at is None,
            r.check_in_duration == 60,
            r.grand_finals_modifier is None,
    {
        TournamentCreate {
            name: String::new(),
            tournament_type: TournamentType::SingleElimination,
            url: String::new(),
            subdomain: String::new(),
            description: String::new(),
            open_signup: false,
            hold_third_place_match: false,
            swiss_points: GamePoints {
                match_win: Points(500),
                match_tie: Points(1000),
                game_win: Points(0),
                game_tie: Points(0),
                bye: Some(Points(0)),
            },
            swiss_rounds: 0,
            ranked_by: RankedBy::PointsScored,
            round_robin_points: GamePoints {
                match_win: Points(500),
                match_tie: Points(1000),
                game_win: Points(0),
                game_tie: Points(0),
                bye: None,
            },
            show_rounds: false,
            private: false,
            game_name: None,
            notify_users_when_matches_open: true,
            notify_users_when_the_tournament_ends: true,
            sequential_pairings: false,
            signup_cap: 4,
            start_at: None,
            check_in_duration: 60,
            grand_finals_modifier: None,
        }
    }

    /// Sets the name.
    pub fn name(self, name: String) -> (r: TournamentCreate)
        ensures
            r == (TournamentCreate { name, ..self }),
    {
        TournamentCreate { name, ..self }
    }

    /// Sets the bracket type.
    pub fn tournament_type(self, tournament_type: TournamentType) -> (r: TournamentCreate)
        ensures
            r == (TournamentCreate { tournament_type, ..self }),
    {
        TournamentCreate { tournament_type, ..self }
    }

    /// Sets the URL slug.
    pub fn url(self, url: String) -> (r: TournamentCreate)
        ensures
            r == (TournamentCreate { url, ..self }),
    {
        TournamentCreate { url, ..self }
    }

    /// Sets the subdomain.
    pub fn subdomain(self, subdomain: String) -> (r: TournamentCreate)
        ensures
            r == (TournamentCreate { subdomain, ..self }),
    {
        TournamentCreate { subdomain, ..self }
    }

    /// Sets the description.
    pub fn description(self, description: String) -> (r: TournamentCreate)
        ensures
            r == (TournamentCreate { description, ..self }),
    {
        TournamentCreate { description, ..self }
    }

    /// Sets whether sign-ups are open.
    pub fn open_signup(self, open_signup: bool) -> (r: TournamentCreate)
        ensures
            r == (TournamentCreate { open_signup, ..self }),
    {
        TournamentCreate { open_signup, ..self }
    }

    /// Sets whether a third-place match is held.
    pub fn hold_third_place_match(self, hold_third_place_match: bool) -> (r: TournamentCreate)
        ensures
            r == (TournamentCreate { hold_third_place_match, ..self }),
    {
        TournamentCreate { hold_third_place_match, ..self }
    }

    /// Sets the Swiss point awards.
    pub fn swiss_points(self, swiss_points: GamePoints) -> (r: TournamentCreate)
        ensures
            r == (TournamentCreate { swiss_points, ..self }),
    {
        TournamentCreate { swiss_points, ..self }
    }

    /// Sets the number of Swiss rounds.
    pub fn swiss_rounds(self, swiss_rounds: u64) -> (r: TournamentCreate)
        ensures
            r == (TournamentCreate { swiss_rounds, ..self }),
    {
        TournamentCreate { swiss_rounds, ..self }
    }

    /// Sets the ranking order.
    pub fn ranked_by(self, ranked_by: RankedBy) -> (r: TournamentCreate)
        ensures
            r == (TournamentCreate { ranked_by, ..self }),
    {
        TournamentCreate { ranked_by, ..self }
    }

    /// Sets the round robin point awards.
    pub fn round_robin_points(self, round_robin_points: GamePoints) -> (r: TournamentCreate)
        ensures
            r == (TournamentCreate { round_robin_points, ..self }),
    {
        TournamentCreate { round_robin_points, ..self }
    }

    /// Sets whether round labels are shown.
    pub fn show_rounds(self, show_rounds: bool) -> (r: TournamentCreate)
        ensures
            r == (TournamentCreate { show_rounds, ..self }),
    {
        TournamentCreate { show_rounds, ..self }
    }

    /// Sets whether the tournament is private.
    pub fn private(self, private: bool) -> (r: TournamentCreate)
        ensures
            r == (TournamentCreate { private, ..self }),
    {
        TournamentCreate { private, ..self }
    }

    /// Sets the game name.
    pub fn game_name(self, game_name: String) -> (r: TournamentCreate)
        ensures
            r == (TournamentCreate { game_name: Some(game_name), ..self }),
    {
        TournamentCreate { game_name: Some(game_name), ..self }
    }

    /// Sets whether users are emailed when their matches open.
    pub fn notify_users_when_matches_open(self, notify_users_when_matches_open: bool) -> (r:
        TournamentCreate)
        ensures
            r == (TournamentCreate { notify_users_when_matches_open, ..self }),
    {
        TournamentCreate { notify_users_when_matches_open, ..self }
    }

    /// Sets whether users are emailed the results at the end.
    pub fn notify_users_when_the_tournament_ends(
        self,
        notify_users_when_the_tournament_ends: bool,
    ) -> (r: TournamentCreate)
        ensures
            r == (TournamentCreate { notify_users_when_the_tournament_ends, ..self }),
    {
        TournamentCreate { notify_users_when_the_tournament_ends, ..self }
    }

    /// Sets whether pairings are sequential.
    pub fn sequential_pairings(self, sequential_pairings: bool) -> (r: TournamentCreate)
        ensures
            r == (TournamentCreate { sequential_pairings, ..self }),
    {
        TournamentCreate { sequential_pairings, ..self }
    }

    /// Sets the sign-up cap.
    pub fn signup_cap(self, signup_cap: u64) -> (r: TournamentCreate)
        ensures
            r == (TournamentCreate { signup_cap, ..self }),
    {
        TournamentCreate { signup_cap, ..self }
    }

    /// Sets the planned start time.
    pub fn start_at(self, start_at: Timestamp) -> (r: TournamentCreate)
        ensures
            r == (TournamentCreate { start_at: Some(start_at), ..self }),
    {
        TournamentCreate { start_at: Some(start_at), ..self }
    }

    /// Sets the check-in window length, in minutes.
    pub fn check_in_duration(self, check_in_duration: u64) -> (r: TournamentCreate)
        ensures
            r == (TournamentCreate { check_in_duration, ..self }),
    {
        TournamentCreate { check_in_duration, ..self }
    }

    /// Sets the grand finals rule.
    pub fn grand_finals_modifier(self, grand_finals_modifier: Option<String>) -> (r:
        TournamentCreate)
        ensures
            r == (TournamentCreate { grand_finals_modifier, ..self }),
    {
        TournamentCreate { grand_finals_modifier, ..self }
    }
}

impl Default for TournamentCreate {
    /// A tournament description with the service's defaults.
    fn default() -> (r: TournamentCreate)
        ensures
            r.name@ == Seq::<char>::empty(),
            r.tournament_type == TournamentType::SingleElimination,
            r.url@ == Seq::<char>::empty(),
            r.subdomain@ == Seq::<char>::empty(),
            r.description@ == Seq::<char>::empty(),
            r.open_signup == false,
            r.hold_third_place_match == false,
            r.swiss_points == (GamePoints {
                match_win: Points(500),
                match_tie: Points(1000),
                game_win: Points(0),
                game_tie: Points(0),
                bye: Some(Points(0)),
            }),
            r.swiss_rounds == 0,
            r.ranked_by matches RankedBy::PointsScored,
            r.round_robin_points == (GamePoints {
                match_win: Points(500),
                match_tie: Points(1000),
                game_win: Points(0),
                game_tie: Points(0),
                bye: None,
            }),
            r.show_rounds == false,
            r.private == false,
            r.game_name is None,
            r.notify_users_when_matches_open == true,
            r.notify_users_when_the_tournament_ends == true,
            r.sequential_pairings == false,
            r.signup_cap == 4,
            r.start_at is None,
            r.check_in_duration == 60,
            r.grand_finals_modifier is None,
    {
        TournamentCreate::new()
    }
}

proof fn lemma_points_empty()
    ensures
        points_opt_of(Seq::<char>::empty()) is None,
{
    assert(crate::scalar::split_at_char(Seq::<char>::empty(), '.') == seq![
        Seq::<char>::empty(),
    ]);
}

} // verus!
