//! Typed marshalling for a tournament-bracket web service's REST API.
//!
//! The service speaks loosely-typed JSON in one direction and flat,
//! prefixed form fields in the other. This crate holds the decoders that
//! turn parsed JSON payloads into typed records (tournaments, participants,
//! matches, attachments) and the encoders that turn create/update builders
//! into ordered lists of wire-key/value pairs. The HTTP transport itself
//! lives outside this crate and hands values in and out.

use vstd::prelude::*;

pub mod attachments;
pub mod error;
pub mod json;
pub mod matches;
pub mod participants;
pub mod scalar;
pub mod time;
pub mod tournament;
pub mod util;

pub use attachments::{Attachment, AttachmentCreate, AttachmentId, Index as AttachmentIndex};
pub use matches::{
    Index as MatchIndex, Match, MatchId, MatchScore, MatchScores, MatchState, MatchUpdate,
};
pub use participants::{Index as ParticipantIndex, Participant, ParticipantCreate, ParticipantId};
pub use tournament::{
    Index as TournamentIndex, Tournament, TournamentCreate, TournamentId, TournamentIncludes,
    TournamentState, TournamentType,
};

use crate::matches::scores_str;
use crate::scalar::{bool_str, bool_to_string, dec_str, points_str, u64_to_string};
use crate::time::rfc3339_render;
use crate::tournament::{ranked_by_str, tournament_type_str};

verus! {

/// An ordered list of wire-key/value pairs, as the transport layer joins
/// them into a form-encoded request body.
pub type FieldPairs = Vec<(&'static str, String)>;

/// The characters of each key/value pair.
pub open spec fn pair_views(s: Seq<(&'static str, String)>) -> Seq<(Seq<char>, Seq<char>)> {
    s.map_values(|p: (&'static str, String)| (p.0@, p.1@))
}

/// The body string a pair list encodes to: `key=value` pairs joined by
/// `&`.
pub open spec fn pairs_str(params: Seq<(Seq<char>, Seq<char>)>) -> Seq<char>
    decreases params.len(),
{
    if params.len() == 0 {
        Seq::<char>::empty()
    } else if params.len() == 1 {
        params[0].0 + "="@ + params[0].1
    } else {
        params[0].0 + "="@ + params[0].1 + "&"@ + pairs_str(params.skip(1))
    }
}

proof fn lemma_pairs_str_snoc(params: Seq<(Seq<char>, Seq<char>)>, p: (Seq<char>, Seq<char>))
    ensures
        pairs_str(params.push(p)) == if params.len() == 0 {
            p.0 + "="@ + p.1
        } else {
            pairs_str(params) + "&"@ + (p.0 + "="@ + p.1)
        },
    decreases params.len(),
{
    let whole = params.push(p);
    if params.len() == 0 {
        assert(whole.len() == 1);
        assert(whole[0] == p);
    } else {
        lemma_pairs_str_snoc(params.skip(1), p);
        assert(whole.skip(1) =~= params.skip(1).push(p));
        assert(whole[0] == params[0]);
        if params.len() == 1 {
            assert(params.skip(1).len() == 0);
            assert(pairs_str(whole) == whole[0].0 + "="@ + whole[0].1 + "&"@ + (p.0 + "="@ + p.1));
            assert(pairs_str(whole) =~= pairs_str(params) + "&"@ + (p.0 + "="@ + p.1));
        } else {
            assert(pairs_str(whole) == params[0].0 + "="@ + params[0].1 + "&"@ + (pairs_str(
                params.skip(1),
            ) + "&"@ + (p.0 + "="@ + p.1)));
            assert(pairs_str(whole) =~= pairs_str(params) + "&"@ + (p.0 + "="@ + p.1));
        }
    }
}

/// Joins a pair list into a single body string, as the transport layer
/// sends it.
pub fn pairs_to_string(params: FieldPairs) -> (r: String)
    ensures
        r@ == pairs_str(pair_views(params@)),
{
    let ghost views = pair_views(params@);
    let mut body = String::new();
    let mut i: usize = 0;
    while i < params.len()
        invariant
            i <= params@.len(),
            views == pair_views(params@),
            body@ == pairs_str(views.take(i as int)),
        decreases params@.len() - i,
    {
        if i > 0 {
            body.append("&");
        }
        body.append(params[i].0);
        body.append("=");
        body.append(params[i].1.as_str());
        proof {
            reveal_strlit("&");
            reveal_strlit("=");
            lemma_pairs_str_snoc(views.take(i as int), views[i as int]);
            assert(views.take(i as int).push(views[i as int]) =~= views.take(i + 1));
            if i > 0 {
                assert(body@ =~= pairs_str(views.take(i as int)) + "&"@ + (views[i as int].0 + "="@
                    + views[i as int].1));
            } else {
                assert(body@ =~= views[0].0 + "="@ + views[0].1);
            }
        }
        i += 1;
    }
    proof {
        assert(views.take(params@.len() as int) =~= views);
    }
    body
}

/// The pair list a participant encodes to for a single-participant
/// request: email, seed and free-form text always, the name and account
/// name only when set.
pub open spec fn pc_pairs(p: ParticipantCreate) -> Seq<(Seq<char>, Seq<char>)> {
    seq![
        ("participant[email]"@, p.email@),
        ("participant[seed]"@, dec_str(p.seed as int)),
        ("participant[misc]"@, p.misc@),
    ] + (match p.name {
        Some(n) => seq![("participant[name]"@, n@)],
        None => Seq::<(Seq<char>, Seq<char>)>::empty(),
    }) + (match p.challonge_username {
        Some(u) => seq![("participant[challonge_username]"@, u@)],
        None => Seq::<(Seq<char>, Seq<char>)>::empty(),
    })
}

/// Encodes one participant for a create or update request.
pub fn pc_to_pairs(participant: &ParticipantCreate) -> (r: FieldPairs)
    ensures
        pair_views(r@) == pc_pairs(*participant),
{
    let mut params: FieldPairs = Vec::new();
    params.push(("participant[email]", participant.email.clone()));
    params.push(("participant[seed]", u64_to_string(participant.seed)));
    params.push(("participant[misc]", participant.misc.clone()));
    if let Some(n) = &participant.name {
        params.push(("participant[name]", n.clone()));
    }
    if let Some(u) = &participant.challonge_username {
        params.push(("participant[challonge_username]", u.clone()));
    }
    proof {
        assert(pair_views(params@) =~= pc_pairs(*participant));
    }
    params
}

/// The pair list one participant contributes to a bulk-add request,
/// under the service's repeated-object `participant[][...]` keys.
pub open spec fn pc_bulk_pairs(p: ParticipantCreate) -> Seq<(Seq<char>, Seq<char>)> {
    seq![
        ("participant[][email]"@, p.email@),
        ("participant[][seed]"@, dec_str(p.seed as int)),
        ("participant[][misc]"@, p.misc@),
    ] + (match p.name {
        Some(n) => seq![("participant[][name]"@, n@)],
        None => Seq::<(Seq<char>, Seq<char>)>::empty(),
    }) + (match p.challonge_username {
        Some(u) => seq![("participant[][challonge_username]"@, u@)],
        None => Seq::<(Seq<char>, Seq<char>)>::empty(),
    })
}

/// The flattened pair list of a bulk-add request: each participant's
/// pairs in order.
pub open spec fn pcs_pairs(list: Seq<ParticipantCreate>) -> Seq<(Seq<char>, Seq<char>)>
    decreases list.len(),
{
    if list.len() == 0 {
        Seq::<(Seq<char>, Seq<char>)>::empty()
    } else {
        pc_bulk_pairs(list[0]) + pcs_pairs(list.skip(1))
    }
}

proof fn lemma_pcs_pairs_snoc(list: Seq<ParticipantCreate>, p: ParticipantCreate)
    ensures
        pcs_pairs(list.push(p)) == pcs_pairs(list) + pc_bulk_pairs(p),
    decreases list.len(),
{
    let whole = list.push(p);
    if list.len() == 0 {
        assert(whole[0] == p);
        assert(whole.skip(1) =~= Seq::<ParticipantCreate>::empty());
        assert(pcs_pairs(Seq::<ParticipantCreate>::empty()) == Seq::<(Seq<char>, Seq<char>)>::empty());
        assert(pcs_pairs(whole) =~= pcs_pairs(list) + pc_bulk_pairs(p));
    } else {
        lemma_pcs_pairs_snoc(list.skip(1), p);
        assert(whole.skip(1) =~= list.skip(1).push(p));
        assert(whole[0] == list[0]);
        assert(pc_bulk_pairs(list[0]) + (pcs_pairs(list.skip(1)) + pc_bulk_pairs(p)) =~= (
        pc_bulk_pairs(list[0]) + pcs_pairs(list.skip(1))) + pc_bulk_pairs(p));
    }
}

/// Encodes a whole participant list for a bulk-add request.
pub fn pcs_to_pairs(participants: Vec<ParticipantCreate>) -> (r: FieldPairs)
    ensures
        pair_views(r@) == pcs_pairs(participants@),
{
    let mut params: FieldPairs = Vec::new();
    let mut i: usize = 0;
    while i < participants.len()
        invariant
            i <= participants@.len(),
            pair_views(params@) == pcs_pairs(participants@.take(i as int)),
        decreases participants@.len() - i,
    {
        let p = &participants[i];
        params.push(("participant[][email]", p.email.clone()));
        params.push(("participant[][seed]", u64_to_string(p.seed)));
        params.push(("participant[][misc]", p.misc.clone()));
        if let Some(n) = &p.name {
            params.push(("participant[][name]", n.clone()));
        }
        if let Some(u) = &p.challonge_username {
            params.push(("participant[][challonge_username]", u.clone()));
        }
        proof {
            lemma_pcs_pairs_snoc(participants@.take(i as int), participants@[i as int]);
            assert(participants@.take(i as int).push(participants@[i as int])
                =~= participants@.take(i + 1));
            assert(pair_views(params@) =~= pcs_pairs(participants@.take(i as int)) + pc_bulk_pairs(
                participants@[i as int],
            ));
        }
        i += 1;
    }
    proof {
        assert(participants@.take(participants@.len() as int) =~= participants@);
    }
    params
}

/// The text a byte string decodes to as UTF-8, where it is valid UTF-8.
pub uninterp spec fn utf8_string_of(bytes: Seq<u8>) -> Option<Seq<char>>;

/// Relies on `String::from_utf8`: succeeds exactly on valid UTF-8 input
/// and returns the text those bytes encode, a function of the bytes
/// alone.
#[verifier::external_body]
fn string_from_utf8(bytes: &Vec<u8>) -> (r: Option<String>)
    ensures
        match r {
            Some(s) => utf8_string_of(bytes@) == Some(s@),
            None => utf8_string_of(bytes@) is None,
        },
{
    String::from_utf8(bytes.clone()).ok()
}

/// The pair list an attachment description encodes to: each part only
/// when set, the file contents as the text they spell.
pub open spec fn at_pairs(a: AttachmentCreate) -> Seq<(Seq<char>, Seq<char>)> {
    (match a.asset {
        Some(b) => seq![
            (
                "match_attachment[asset]"@,
                match utf8_string_of(b@) {
                    Some(text) => text,
                    None => Seq::<char>::empty(),
                },
            ),
        ],
        None => Seq::<(Seq<char>, Seq<char>)>::empty(),
    }) + (match a.url {
        Some(u) => seq![("match_attachment[url]"@, u@)],
        None => Seq::<(Seq<char>, Seq<char>)>::empty(),
    }) + (match a.description {
        Some(d) => seq![("match_attachment[description]"@, d@)],
        None => Seq::<(Seq<char>, Seq<char>)>::empty(),
    })
}

/// Encodes an attachment description whose file contents, if any, are
/// known to be valid UTF-8.
pub fn at_to_pairs(attachment: &AttachmentCreate) -> (r: FieldPairs)
    requires
        attachment.asset matches Some(b) ==> utf8_string_of(b@) is Some,
    ensures
        pair_views(r@) == at_pairs(*attachment),
{
    let mut params: FieldPairs = Vec::new();
    if let Some(bytes) = &attachment.asset {
        match string_from_utf8(bytes) {
            Some(text) => {
                params.push(("match_attachment[asset]", text));
            },
            None => {
                return vstd::pervasive::unreached();
            },
        }
    }
    if let Some(u) = &attachment.url {
        params.push(("match_attachment[url]", u.clone()));
    }
    if let Some(d) = &attachment.description {
        params.push(("match_attachment[description]", d.clone()));
    }
    proof {
        assert(pair_views(params@) =~= at_pairs(*attachment));
    }
    params
}

/// Encodes an attachment description, first checking that the file
/// contents, if any, are valid UTF-8; returns `None` where they are not.
pub fn at_to_pairs_checked(attachment: &AttachmentCreate) -> (r: Option<FieldPairs>)
    ensures
        match r {
            Some(params) => pair_views(params@) == at_pairs(*attachment),
            None => attachment.asset matches Some(b) && utf8_string_of(b@) is None,
        },
{
    if let Some(bytes) = &attachment.asset {
        if string_from_utf8(bytes).is_none() {
            return None;
        }
    }
    Some(at_to_pairs(attachment))
}

/// The pair list a match update encodes to: the vote overrides only when
/// set, the score list always, the winner only when set.
pub open spec fn mu_pairs(mu: MatchUpdate) -> Seq<(Seq<char>, Seq<char>)> {
    (match mu.player1_votes {
        Some(v) => seq![("match[player1_votes]"@, dec_str(v as int))],
        None => Seq::<(Seq<char>, Seq<char>)>::empty(),
    }) + (match mu.player2_votes {
        Some(v) => seq![("match[player2_votes]"@, dec_str(v as int))],
        None => Seq::<(Seq<char>, Seq<char>)>::empty(),
    }) + seq![("match[scores_csv]"@, scores_str(mu.scores_csv.0@))] + (match mu.winner_id {
        Some(w) => seq![("match[winner_id]"@, dec_str(w.0 as int))],
        None => Seq::<(Seq<char>, Seq<char>)>::empty(),
    })
}

/// Encodes a match update.
pub fn mu_to_pairs(mu: &MatchUpdate) -> (r: FieldPairs)
    ensures
        pair_views(r@) == mu_pairs(*mu),
{
    let mut params: FieldPairs = Vec::new();
    if let Some(v) = mu.player1_votes {
        params.push(("match[player1_votes]", u64_to_string(v)));
    }
    if let Some(v) = mu.player2_votes {
        params.push(("match[player2_votes]", u64_to_string(v)));
    }
    params.push(("match[scores_csv]", mu.scores_csv.to_string()));
    if let Some(w) = mu.winner_id {
        params.push(("match[winner_id]", u64_to_string(w.0)));
    }
    proof {
        assert(pair_views(params@) =~= mu_pairs(*mu));
    }
    params
}

/// The pair list a tournament description encodes to: every always-sent
/// field in wire order, then the optional fields only when set. Point
/// values are written in their canonical decimal form, the tournament
/// type in its human-readable spelling, and the start time as RFC 3339
/// text.
pub open spec fn tc_pairs(t: TournamentCreate) -> Seq<(Seq<char>, Seq<char>)> {
    tc_base_pairs(t) + (match t.grand_finals_modifier {
        Some(g) => seq![("tournament[grand_finals_modifier]"@, g@)],
        None => Seq::<(Seq<char>, Seq<char>)>::empty(),
    }) + (match t.start_at {
        Some(ts) => seq![("tournament[start_at]"@, rfc3339_render(ts))],
        None => Seq::<(Seq<char>, Seq<char>)>::empty(),
    }) + (match t.swiss_points.bye {
        Some(b) => seq![("tournament[pts_for_bye]"@, points_str(b.0))],
        None => Seq::<(Seq<char>, Seq<char>)>::empty(),
    }) + (match t.game_name {
        Some(g) => seq![("tournament[game_name]"@, g@)],
        None => Seq::<(Seq<char>, Seq<char>)>::empty(),
    })
}

/// The part of a tournament description's pair list that is always sent,
/// in wire order.
pub open spec fn tc_base_pairs(t: TournamentCreate) -> Seq<(Seq<char>, Seq<char>)> {
    seq![
        ("tournament[name]"@, t.name@),
        ("tournament[tournament_type]"@, tournament_type_str(t.tournament_type)),
        ("tournament[url]"@, t.url@),
        ("tournament[subdomain]"@, t.subdomain@),
        ("tournament[description]"@, t.description@),
        ("tournament[open_signup]"@, bool_str(t.open_signup)),
        ("tournament[hold_third_place_match]"@, bool_str(t.hold_third_place_match)),
        ("tournament[pts_for_match_win]"@, points_str(t.swiss_points.match_win.0)),
        ("tournament[pts_for_match_tie]"@, points_str(t.swiss_points.match_tie.0)),
        ("tournament[pts_for_game_win]"@, points_str(t.swiss_points.game_win.0)),
        ("tournament[pts_for_game_tie]"@, points_str(t.swiss_points.game_tie.0)),
        ("tournament[swiss_rounds]"@, dec_str(t.swiss_rounds as int)),
        ("tournament[ranked_by]"@, ranked_by_str(t.ranked_by)),
        ("tournament[rr_pts_for_match_win]"@, points_str(t.round_robin_points.match_win.0)),
        ("tournament[rr_pts_for_match_tie]"@, points_str(t.round_robin_points.match_tie.0)),
        ("tournament[rr_pts_for_game_win]"@, points_str(t.round_robin_points.game_win.0)),
        ("tournament[rr_pts_for_game_tie]"@, points_str(t.round_robin_points.game_tie.0)),
        ("tournament[show_rounds]"@, bool_str(t.show_rounds)),
        ("tournament[private]"@, bool_str(t.private)),
        ("tournament[notify_users_when_matches_open]"@, bool_str(t.notify_users_when_matches_open)),
        (
            "tournament[notify_users_when_the_tournament_ends]"@,
            bool_str(t.notify_users_when_the_tournament_ends),
        ),
        ("tournament[sequential_pairings]"@, bool_str(t.sequential_pairings)),
        ("tournament[signup_cap]"@, dec_str(t.signup_cap as int)),
        ("tournament[check_in_duration]"@, dec_str(t.check_in_duration as int)),
    ]
}

#[verifier::rlimit(100)]
fn tc_base_to_pairs(tournament: &TournamentCreate) -> (r: FieldPairs)
    ensures
        pair_views(r@) == tc_base_pairs(*tournament),
{
    let mut params: FieldPairs = Vec::new();
    params.push(("tournament[name]", tournament.name.clone()));
    params.push(("tournament[tournament_type]", tournament.tournament_type.to_string()));
    params.push(("tournament[url]", tournament.url.clone()));
    params.push(("tournament[subdomain]", tournament.subdomain.clone()));
    params.push(("tournament[description]", tournament.description.clone()));
    params.push(("tournament[open_signup]", bool_to_string(tournament.open_signup)));
    params.push(
        ("tournament[hold_third_place_match]", bool_to_string(tournament.hold_third_place_match)),
    );
    params.push(("tournament[pts_for_match_win]", tournament.swiss_points.match_win.to_string()));
    params.push(("tournament[pts_for_match_tie]", tournament.swiss_points.match_tie.to_string()));
    params.push(("tournament[pts_for_game_win]", tournament.swiss_points.game_win.to_string()));
    params.push(("tournament[pts_for_game_tie]", tournament.swiss_points.game_tie.to_string()));
    params.push(("tournament[swiss_rounds]", u64_to_string(tournament.swiss_rounds)));
    params.push(("tournament[ranked_by]", tournament.ranked_by.to_string()));
    params.push(
        ("tournament[rr_pts_for_match_win]", tournament.round_robin_points.match_win.to_string()),
    );
    params.push(
        ("tournament[rr_pts_for_match_tie]", tournament.round_robin_points.match_tie.to_string()),
    );
    params.push(
        ("tournament[rr_pts_for_game_win]", tournament.round_robin_points.game_win.to_string()),
    );
    params.push(
        ("tournament[rr_pts_for_game_tie]", tournament.round_robin_points.game_tie.to_string()),
    );
    params.push(("tournament[show_rounds]", bool_to_string(tournament.show_rounds)));
    params.push(("tournament[private]", bool_to_string(tournament.private)));
    params.push(
        (
            "tournament[notify_users_when_matches_open]",
            bool_to_string(tournament.notify_users_when_matches_open),
        ),
    );
    params.push(
        (
            "tournament[notify_users_when_the_tournament_ends]",
            bool_to_string(tournament.notify_users_when_the_tournament_ends),
        ),
    );
    params.push(
        ("tournament[sequential_pairings]", bool_to_string(tournament.sequential_pairings)),
    );
    params.push(("tournament[signup_cap]", u64_to_string(tournament.signup_cap)));
    params.push(("tournament[check_in_duration]", u64_to_string(tournament.check_in_duration)));
    proof {
        assert(pair_views(params@) =~= tc_base_pairs(*tournament));
    }
    params
}

/// Encodes a tournament description. A start time, when set, must lie in
/// the renderable RFC 3339 range.
#[verifier::rlimit(60)]
pub fn tc_to_pairs(tournament: &TournamentCreate) -> (r: FieldPairs)
    requires
        tournament.start_at matches Some(ts) ==> ts.renderable(),
    ensures
        pair_views(r@) == tc_pairs(*tournament),
{
    let mut params = tc_base_to_pairs(tournament);
    let ghost base = params@;
    if let Some(g) = &tournament.grand_finals_modifier {
        params.push(("tournament[grand_finals_modifier]", g.clone()));
    }
    if let Some(ts) = &tournament.start_at {
        params.push(("tournament[start_at]", crate::time::render_rfc3339(ts)));
    }
    if let Some(b) = &tournament.swiss_points.bye {
        params.push(("tournament[pts_for_bye]", b.to_string()));
    }
    if let Some(g) = &tournament.game_name {
        params.push(("tournament[game_name]", g.clone()));
    }
    proof {
        assert(pair_views(params@) =~= tc_pairs(*tournament));
    }
    params
}

/// Every wire value a match update writes reads back to what was set:
/// the score list decodes segment by segment to the same pairs (it must
/// hold at least one pair: the empty list renders as the empty string,
/// which reads back as one zero-zero pair), and each numeric field
/// re-parses exactly.
pub proof fn lemma_match_update_round_trip(mu: MatchUpdate)
    requires
        mu.scores_csv.0@.len() >= 1,
    ensures
        crate::matches::scores_of_csv(scores_str(mu.scores_csv.0@)) == mu.scores_csv.0@,
        mu.winner_id matches Some(w) ==> crate::scalar::parse_u64_spec(dec_str(w.0 as int))
            == Some(w.0),
        mu.player1_votes matches Some(v) ==> crate::scalar::parse_u64_spec(dec_str(v as int))
            == Some(v),
        mu.player2_votes matches Some(v) ==> crate::scalar::parse_u64_spec(dec_str(v as int))
            == Some(v),
{
    crate::matches::lemma_scores_round_trip(mu.scores_csv.0@);
    if let Some(w) = mu.winner_id {
        crate::scalar::lemma_u64_round_trip(w.0);
    }
    if let Some(v) = mu.player1_votes {
        crate::scalar::lemma_u64_round_trip(v);
    }
    if let Some(v) = mu.player2_votes {
        crate::scalar::lemma_u64_round_trip(v);
    }
}

/// The numeric wire value a participant description writes reads back to
/// what was set; its string fields are written verbatim by `pc_pairs`.
pub proof fn lemma_participant_create_round_trip(p: ParticipantCreate)
    ensures
        crate::scalar::parse_u64_spec(dec_str(p.seed as int)) == Some(p.seed),
{
    crate::scalar::lemma_u64_round_trip(p.seed);
}

/// Every re-readable wire value a tournament description writes reads
/// back to what was set: the type spelling decodes to the same type,
/// every point value re-parses to the same thousandths, and every
/// counter re-parses exactly. String fields are written verbatim by
/// `tc_pairs`.
pub proof fn lemma_tournament_create_round_trip(t: TournamentCreate)
    ensures
        crate::tournament::tournament_type_of_str(tournament_type_str(t.tournament_type)) == Ok::<
            TournamentType,
            (),
        >(t.tournament_type),
        crate::scalar::points_opt_of(points_str(t.swiss_points.match_win.0)) == Some(
            t.swiss_points.match_win.0,
        ),
        crate::scalar::points_opt_of(points_str(t.swiss_points.match_tie.0)) == Some(
            t.swiss_points.match_tie.0,
        ),
        crate::scalar::points_opt_of(points_str(t.swiss_points.game_win.0)) == Some(
            t.swiss_points.game_win.0,
        ),
        crate::scalar::points_opt_of(points_str(t.swiss_points.game_tie.0)) == Some(
            t.swiss_points.game_tie.0,
        ),
        t.swiss_points.bye matches Some(b) ==> crate::scalar::points_opt_of(points_str(b.0))
            == Some(b.0),
        crate::scalar::points_opt_of(points_str(t.round_robin_points.match_win.0)) == Some(
            t.round_robin_points.match_win.0,
        ),
        crate::scalar::points_opt_of(points_str(t.round_robin_points.match_tie.0)) == Some(
            t.round_robin_points.match_tie.0,
        ),
        crate::scalar::points_opt_of(points_str(t.round_robin_points.game_win.0)) == Some(
            t.round_robin_points.game_win.0,
        ),
        crate::scalar::points_opt_of(points_str(t.round_robin_points.game_tie.0)) == Some(
            t.round_robin_points.game_tie.0,
        ),
        crate::scalar::parse_u64_spec(dec_str(t.swiss_rounds as int)) == Some(t.swiss_rounds),
        crate::scalar::parse_u64_spec(dec_str(t.signup_cap as int)) == Some(t.signup_cap),
        crate::scalar::parse_u64_spec(dec_str(t.check_in_duration as int)) == Some(
            t.check_in_duration,
        ),
{
    crate::tournament::lemma_tournament_type_round_trip(t.tournament_type);
    crate::scalar::lemma_points_round_trip(t.swiss_points.match_win.0);
    crate::scalar::lemma_points_round_trip(t.swiss_points.match_tie.0);
    crate::scalar::lemma_points_round_trip(t.swiss_points.game_win.0);
    crate::scalar::lemma_points_round_trip(t.swiss_points.game_tie.0);
    if let Some(b) = t.swiss_points.bye {
        crate::scalar::lemma_points_round_trip(b.0);
    }
    crate::scalar::lemma_points_round_trip(t.round_robin_points.match_win.0);
    crate::scalar::lemma_points_round_trip(t.round_robin_points.match_tie.0);
    crate::scalar::lemma_points_round_trip(t.round_robin_points.game_win.0);
    crate::scalar::lemma_points_round_trip(t.round_robin_points.game_tie.0);
    crate::scalar::lemma_u64_round_trip(t.swiss_rounds);
    crate::scalar::lemma_u64_round_trip(t.signup_cap);
    crate::scalar::lemma_u64_round_trip(t.check_in_duration);
}

} // verus!
