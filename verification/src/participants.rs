//! Participants: the identifier, the decoded record with its decoder,
//! and the create builder.

use vstd::prelude::*;
use crate::error::Error;
use crate::json::{
    absent_key_error, as_bool_or_false, as_u64_option, lookup, str_or_empty, strict_u64_error,
    take_bool, take_opt_u64, take_string_or_empty, take_u64_strict, JsonValue,
};
use crate::time::{opt_ts_of, take_opt_timestamp, take_timestamp, ts_error, ts_ok, Timestamp};
use crate::util::{decode_array, unwrap_entity, unwrap_error, unwrapped_fields};

verus! {

/// The unique numeric identifier of a participant.
#[derive(Debug, Clone, Copy, PartialEq, Eq, Structural)]
pub struct ParticipantId(pub u64);

/// What a new participant carries when added to a tournament.
#[derive(Debug, Clone)]
pub struct ParticipantCreate {
    /// The name shown in the bracket; may be left unset when an email or
    /// account name identifies the participant. Unique per tournament.
    pub name: Option<String>,
    /// The participant's account name on the service, for an invitation.
    pub challonge_username: Option<String>,
    /// An email to match or invite an account with.
    pub email: String,
    /// The participant's seed, from 1 to the number of participants.
    pub seed: u64,
    /// Free-form text only visible through the API.
    pub misc: String,
}

impl ParticipantCreate {
    /// Creates a participant description with the service's defaults.
    pub fn new() -> (r: ParticipantCreate)
        ensures
            r.name is None,
            r.challonge_username is None,
            r.email@ == Seq::<char>::empty(),
            r.seed == 1,
            r.misc@ == Seq::<char>::empty(),
    {
        ParticipantCreate {
            name: None,
            challonge_username: None,
            email: String::new(),
            seed: 1,
            misc: String::new(),
        }
    }

    /// Sets the display name.
    pub fn name(self, name: String) -> (r: ParticipantCreate)
        ensures
            r == (ParticipantCreate { name: Some(name), ..self }),
    {
        ParticipantCreate { name: Some(name), ..self }
    }

    /// Sets the account name to invite.
    pub fn challonge_username(self, challonge_username: String) -> (r: ParticipantCreate)
        ensures
            r == (ParticipantCreate { challonge_username: Some(challonge_username), ..self }),
    {
        ParticipantCreate { challonge_username: Some(challonge_username), ..self }
    }

    /// Sets the email.
    pub fn email(self, email: String) -> (r: ParticipantCreate)
        ensures
            r == (ParticipantCreate { email, ..self }),
    {
        ParticipantCreate { email, ..self }
    }

    /// Sets the seed.
    pub fn seed(self, seed: u64) -> (r: ParticipantCreate)
        ensures
            r == (ParticipantCreate { seed, ..self }),
    {
        ParticipantCreate { seed, ..self }
    }

    /// Sets the API-only free-form text.
    pub fn misc(self, misc: String) -> (r: ParticipantCreate)
        ensures
            r == (ParticipantCreate { misc, ..self }),
    {
        ParticipantCreate { misc, ..self }
    }
}

impl Default for ParticipantCreate {
    /// A participant description with the service's defaults.
    fn default() -> (r: ParticipantCreate)
        ensures
            r.name is None,
            r.challonge_username is None,
            r.email@ == Seq::<char>::empty(),
            r.seed == 1,
            r.misc@ == Seq::<char>::empty(),
    {
        ParticipantCreate {
            name: None,
            challonge_username: None,
            email: String::new(),
            seed: 1,
            misc: String::new(),
        }
    }
}

/// A participant record.
#[derive(Debug, Clone)]
pub struct Participant {
    /// Whether the participant is active.
    pub active: bool,
    /// When the participant checked in, if they did.
    pub checked_in_at: Option<Timestamp>,
    /// When the participant was added to the tournament.
    pub created_at: Timestamp,
    /// The participant's final rank, once decided.
    pub final_rank: Option<u64>,
    /// The group the participant plays in, where group stages exist.
    pub group_id: Option<u64>,
    /// The participant's icon.
    pub icon: String,
    /// Unique participant identifier.
    pub id: ParticipantId,
    /// The invitation sent for this participant, if any.
    pub invitation_id: Option<u64>,
    /// The email the invitation went to.
    pub invite_email: String,
    /// Free-form text only visible through the API.
    pub misc: String,
    /// The name shown in the bracket.
    pub name: String,
    /// Whether the participant sits on the waiting list.
    pub on_waiting_list: bool,
    /// The participant's seed in the tournament.
    pub seed: u64,
    /// The tournament the participant belongs to.
    pub tournament_id: u64,
    /// When the participant was last updated.
    pub updated_at: Timestamp,
    /// The participant's account name on the service.
    pub challonge_username: String,
    /// The verified email address of the linked account.
    pub challonge_email_address_verified: String,
    /// Whether the participant can be removed.
    pub removable: bool,
    /// Whether an account or invitation is attached.
    pub participatable_or_invitation_attached: bool,
    /// Whether removal needs confirmation.
    pub confirm_remove: bool,
    /// Whether an invitation is still pending.
    pub invitation_pending: bool,
    /// The display name together with the invitation email.
    pub display_name_with_invitation_email_address: String,
    /// A hash of the participant's email.
    pub email_hash: String,
    /// The linked account's user name.
    pub username: String,
    /// The portrait URL of the attached account.
    pub attached_participatable_portrait_url: String,
    /// Whether the participant can check in.
    pub can_check_in: bool,
    /// Whether the participant has checked in.
    pub checked_in: bool,
    /// Whether the participant can be reactivated.
    pub reactivatable: bool,
}

/// Every structural requirement a participant field set must meet.
pub open spec fn participant_fields_ok(fields: Seq<(String, JsonValue)>) -> bool {
    &&& lookup(fields, "checked_in_at"@) is Some
    &&& lookup(fields, "active"@) is Some
    &&& ts_ok(lookup(fields, "created_at"@))
    &&& lookup(fields, "final_rank"@) is Some
    &&& lookup(fields, "group_id"@) is Some
    &&& lookup(fields, "icon"@) is Some
    &&& lookup(fields, "id"@) matches Some(JsonValue::UInt(_))
    &&& lookup(fields, "invitation_id"@) is Some
    &&& lookup(fields, "invite_email"@) is Some
    &&& lookup(fields, "misc"@) is Some
    &&& lookup(fields, "name"@) is Some
    &&& lookup(fields, "on_waiting_list"@) is Some
    &&& lookup(fields, "seed"@) matches Some(JsonValue::UInt(_))
    &&& lookup(fields, "tournament_id"@) matches Some(JsonValue::UInt(_))
    &&& ts_ok(lookup(fields, "updated_at"@))
    &&& lookup(fields, "challonge_username"@) is Some
    &&& lookup(fields, "challonge_email_address_verified"@) is Some
    &&& lookup(fields, "removable"@) is Some
    &&& lookup(fields, "participatable_or_invitation_attached"@) is Some
    &&& lookup(fields, "confirm_remove"@) is Some
    &&& lookup(fields, "invitation_pending"@) is Some
    &&& lookup(fields, "display_name_with_invitation_email_address"@) is Some
    &&& lookup(fields, "email_hash"@) is Some
    &&& lookup(fields, "username"@) is Some
    &&& lookup(fields, "attached_participatable_portrait_url"@) is Some
    &&& lookup(fields, "checked_in"@) is Some
    &&& lookup(fields, "can_check_in"@) is Some
    &&& lookup(fields, "reactivatable"@) is Some
}

/// How a decoded participant relates to the field set it was read from.
pub open spec fn participant_matches(fields: Seq<(String, JsonValue)>, p: Participant) -> bool {
    &&& lookup(fields, "checked_in_at"@) matches Some(v) && p.checked_in_at == opt_ts_of(v)
    &&& lookup(fields, "active"@) matches Some(v) && p.active == as_bool_or_false(v)
    &&& lookup(fields, "created_at"@) matches Some(v) && v matches JsonValue::Str(s)
        && crate::time::rfc3339_parse(s@) == Some(p.created_at)
    &&& lookup(fields, "final_rank"@) matches Some(v) && p.final_rank == as_u64_option(v)
    &&& lookup(fields, "group_id"@) matches Some(v) && p.group_id == as_u64_option(v)
    &&& lookup(fields, "icon"@) matches Some(v) && p.icon@ == str_or_empty(v)
    &&& lookup(fields, "id"@) == Some(JsonValue::UInt(p.id.0))
    &&& lookup(fields, "invitation_id"@) matches Some(v) && p.invitation_id == as_u64_option(v)
    &&& lookup(fields, "invite_email"@) matches Some(v) && p.invite_email@ == str_or_empty(v)
    &&& lookup(fields, "misc"@) matches Some(v) && p.misc@ == str_or_empty(v)
    &&& lookup(fields, "name"@) matches Some(v) && p.name@ == str_or_empty(v)
    &&& lookup(fields, "on_waiting_list"@) matches Some(v) && p.on_waiting_list == as_bool_or_false(v)
    &&& lookup(fields, "seed"@) == Some(JsonValue::UInt(p.seed))
    &&& lookup(fields, "tournament_id"@) == Some(JsonValue::UInt(p.tournament_id))
    &&& lookup(fields, "updated_at"@) matches Some(v) && v matches JsonValue::Str(s)
        && crate::time::rfc3339_parse(s@) == Some(p.updated_at)
    &&& lookup(fields, "challonge_username"@) matches Some(v) && p.challonge_username@ == str_or_empty(v)
    &&& lookup(fields, "challonge_email_address_verified"@) matches Some(v) && p.challonge_email_address_verified@ == str_or_empty(v)
    &&& lookup(fields, "removable"@) matches Some(v) && p.removable == as_bool_or_false(v)
    &&& lookup(fields, "participatable_or_invitation_attached"@) matches Some(v) && p.participatable_or_invitation_attached == as_bool_or_false(v)
    &&& lookup(fields, "confirm_remove"@) matches Some(v) && p.confirm_remove == as_bool_or_false(v)
    &&& lookup(fields, "invitation_pending"@) matches Some(v) && p.invitation_pending == as_bool_or_false(v)
    &&& lookup(fields, "display_name_with_invitation_email_address"@) matches Some(v) && p.display_name_with_invitation_email_address@ == str_or_empty(v)
    &&& lookup(fields, "email_hash"@) matches Some(v) && p.email_hash@ == str_or_empty(v)
    &&& lookup(fields, "username"@) matches Some(v) && p.username@ == str_or_empty(v)
    &&& lookup(fields, "attached_participatable_portrait_url"@) matches Some(v) && p.attached_participatable_portrait_url@ == str_or_empty(v)
    &&& lookup(fields, "checked_in"@) matches Some(v) && p.checked_in == as_bool_or_false(v)
    &&& lookup(fields, "can_check_in"@) matches Some(v) && p.can_check_in == as_bool_or_false(v)
    &&& lookup(fields, "reactivatable"@) matches Some(v) && p.reactivatable == as_bool_or_false(v)
}

/// True when `e` is the error decoding a participant's field set reports:
/// the first failed field requirement, in decode order.
pub open spec fn participant_fields_error(fields: Seq<(String, JsonValue)>, e: Error) -> bool {
    if lookup(fields, "checked_in_at"@) is None {
        absent_key_error(e, "checked_in_at"@)
    } else if lookup(fields, "active"@) is None {
        absent_key_error(e, "active"@)
    } else if !ts_ok(lookup(fields, "created_at"@)) {
        ts_error(fields, "created_at"@, e)
    } else if lookup(fields, "final_rank"@) is None {
        absent_key_error(e, "final_rank"@)
    } else if lookup(fields, "group_id"@) is None {
        absent_key_error(e, "group_id"@)
    } else if lookup(fields, "icon"@) is None {
        absent_key_error(e, "icon"@)
    } else if !(lookup(fields, "id"@) matches Some(JsonValue::UInt(_))) {
        strict_u64_error(fields, "id"@, e)
    } else if lookup(fields, "invitation_id"@) is None {
        absent_key_error(e, "invitation_id"@)
    } else if lookup(fields, "invite_email"@) is None {
        absent_key_error(e, "invite_email"@)
    } else if lookup(fields, "misc"@) is None {
        absent_key_error(e, "misc"@)
    } else if lookup(fields, "name"@) is None {
        absent_key_error(e, "name"@)
    } else if lookup(fields, "on_waiting_list"@) is None {
        absent_key_error(e, "on_waiting_list"@)
    } else if !(lookup(fields, "seed"@) matches Some(JsonValue::UInt(_))) {
        strict_u64_error(fields, "seed"@, e)
    } else if !(lookup(fields, "tournament_id"@) matches Some(JsonValue::UInt(_))) {
        strict_u64_error(fields, "tournament_id"@, e)
    } else if !ts_ok(lookup(fields, "updated_at"@)) {
        ts_error(fields, "updated_at"@, e)
    } else if lookup(fields, "challonge_username"@) is None {
        absent_key_error(e, "challonge_username"@)
    } else if lookup(fields, "challonge_email_address_verified"@) is None {
        absent_key_error(e, "challonge_email_address_verified"@)
    } else if lookup(fields, "removable"@) is None {
        absent_key_error(e, "removable"@)
    } else if lookup(fields, "participatable_or_invitation_attached"@) is None {
        absent_key_error(e, "participatable_or_invitation_attached"@)
    } else if lookup(fields, "confirm_remove"@) is None {
        absent_key_error(e, "confirm_remove"@)
    } else if lookup(fields, "invitation_pending"@) is None {
        absent_key_error(e, "invitation_pending"@)
    } else if lookup(fields, "display_name_with_invitation_email_address"@) is None {
        absent_key_error(e, "display_name_with_invitation_email_address"@)
    } else if lookup(fields, "email_hash"@) is None {
        absent_key_error(e, "email_hash"@)
    } else if lookup(fields, "username"@) is None {
        absent_key_error(e, "username"@)
    } else if lookup(fields, "attached_participatable_portrait_url"@) is None {
        absent_key_error(e, "attached_participatable_portrait_url"@)
    } else if lookup(fields, "checked_in"@) is None {
        absent_key_error(e, "checked_in"@)
    } else if lookup(fields, "can_check_in"@) is None {
        absent_key_error(e, "can_check_in"@)
    } else if lookup(fields, "reactivatable"@) is None {
        absent_key_error(e, "reactivatable"@)
    } else {
        false
    }
}

/// True when `e` is the error decoding a participant payload reports.
pub open spec fn participant_decode_error(value: JsonValue, e: Error) -> bool {
    match unwrapped_fields(value, "participant"@) {
        Some(fields) => participant_fields_error(fields, e),
        None => unwrap_error(value, "participant"@, e),
    }
}

/// The payload decodes cleanly as a participant: it unwraps and meets
/// every field requirement.
pub open spec fn participant_decodes(value: JsonValue) -> bool {
    unwrapped_fields(value, "participant"@) matches Some(fields) && participant_fields_ok(fields)
}

impl Participant {
    /// Decodes a participant payload: unwraps the `participant` wrapper
    /// key, then reads each field with its presence and leniency rule.
    pub fn decode(value: JsonValue) -> (r: Result<Participant, Error>)
        ensures
            match r {
                Ok(p) => {
                    &&& unwrapped_fields(value, "participant"@) matches Some(fields)
                    &&& participant_fields_ok(fields)
                    &&& participant_matches(fields, p)
                },
                Err(e) => participant_decode_error(value, e),
            },
    {
        let mut tv = unwrap_entity(value, "participant")?;
        let checked_in_at = take_opt_timestamp(&tv, "checked_in_at")?;
        let active = take_bool(&tv, "active")?;
        let created_at = take_timestamp(&mut tv, "created_at")?;
        let final_rank = take_opt_u64(&tv, "final_rank")?;
        let group_id = take_opt_u64(&tv, "group_id")?;
        let icon = take_string_or_empty(&tv, "icon")?;
        let id = take_u64_strict(&mut tv, "id")?;
        let invitation_id = take_opt_u64(&tv, "invitation_id")?;
        let invite_email = take_string_or_empty(&tv, "invite_email")?;
        let misc = take_string_or_empty(&tv, "misc")?;
        let name = take_string_or_empty(&tv, "name")?;
        let on_waiting_list = take_bool(&tv, "on_waiting_list")?;
        let seed = take_u64_strict(&mut tv, "seed")?;
        let tournament_id = take_u64_strict(&mut tv, "tournament_id")?;
        let updated_at = take_timestamp(&mut tv, "updated_at")?;
        let challonge_username = take_string_or_empty(&tv, "challonge_username")?;
        let challonge_email_address_verified = take_string_or_empty(&tv, "challonge_email_address_verified")?;
        let removable = take_bool(&tv, "removable")?;
        let participatable_or_invitation_attached = take_bool(&tv, "participatable_or_invitation_attached")?;
        let confirm_remove = take_bool(&tv, "confirm_remove")?;
        let invitation_pending = take_bool(&tv, "invitation_pending")?;
        let display_name_with_invitation_email_address = take_string_or_empty(&tv, "display_name_with_invitation_email_address")?;
        let email_hash = take_string_or_empty(&tv, "email_hash")?;
        let username = take_string_or_empty(&tv, "username")?;
        let attached_participatable_portrait_url = take_string_or_empty(&tv, "attached_participatable_portrait_url")?;
        let checked_in = take_bool(&tv, "checked_in")?;
        let can_check_in = take_bool(&tv, "can_check_in")?;
        let reactivatable = take_bool(&tv, "reactivatable")?;
        Ok(
            Participant {
                active,
                checked_in_at,
                created_at,
                final_rank,
                group_id,
                icon,
                id: ParticipantId(id),
                invitation_id,
                invite_email,
                misc,
                name,
                on_waiting_list,
                seed,
                tournament_id,
                updated_at,
                challonge_username,
                challonge_email_address_verified,
                removable,
                participatable_or_invitation_attached,
                confirm_remove,
                invitation_pending,
                display_name_with_invitation_email_address,
                email_hash,
                username,
                attached_participatable_portrait_url,
                checked_in,
                can_check_in,
                reactivatable,
            },
        )
    }
}

/// A list of participants, in the order the service returned them.
#[derive(Debug, Clone)]
pub struct Index(pub Vec<Participant>);

impl Index {
    /// Decodes a JSON array of participant payloads, in order,
    /// propagating the first failure.
    pub fn decode(value: JsonValue) -> (r: Result<Index, Error>)
        ensures
            match r {
                Ok(idx) => {
                    &&& value matches JsonValue::Array(arr)
                    &&& idx.0@.len() == arr@.len()
                    &&& forall|i: int|
                        0 <= i < arr@.len() ==> {
                            &&& (#[trigger] unwrapped_fields(
                                arr@[i],
                                "participant"@,
                            )) matches Some(fields)
                            &&& participant_fields_ok(fields)
                            &&& participant_matches(fields, idx.0@[i])
                        }
                },
                Err(e) => {
                    ||| {
                        &&& !(value matches JsonValue::Array(_))
                        &&& e matches Error::Decode(d, offending)
                        &&& d@ == "Error decoding object"@
                        &&& offending == value
                    }
                    ||| (value matches JsonValue::Array(arr) && exists|i: int|
                        {
                            &&& 0 <= i < arr@.len()
                            &&& participant_decode_error(#[trigger] arr@[i], e)
                            &&& forall|j: int|
                                0 <= j < i ==> participant_decodes(#[trigger] arr@[j])
                        })
                },
            },
    {
        let decoder = Participant::decode;
        match decode_array(value, decoder) {
            Ok(list) => Ok(Index(list)),
            Err(e) => {
                proof {
                    if value is Array {
                        let arrv = value->Array_0@;
                        let i = choose|i: int|
                            {
                                &&& 0 <= i < arrv.len()
                                &&& #[trigger] decoder.ensures((arrv[i],), Err::<Participant, Error>(e))
                                &&& exists|prefix: Seq<Participant>|
                                    {
                                        &&& #[trigger] prefix.len() == i
                                        &&& forall|j: int|
                                            0 <= j < i ==> #[trigger] decoder.ensures(
                                                (arrv[j],),
                                                Ok::<Participant, Error>(prefix[j]),
                                            )
                                    }
                            };
                        let prefix = choose|prefix: Seq<Participant>|
                            {
                                &&& #[trigger] prefix.len() == i
                                &&& forall|j: int|
                                    0 <= j < i ==> #[trigger] decoder.ensures(
                                        (arrv[j],),
                                        Ok::<Participant, Error>(prefix[j]),
                                    )
                            };
                        assert(participant_decode_error(arrv[i], e));
                        assert forall|j: int| 0 <= j < i implies participant_decodes(
                            #[trigger] arrv[j],
                        ) by {
                            assert(decoder.ensures((arrv[j],), Ok::<Participant, Error>(prefix[j])));
                        }
                    }
                }
                Err(e)
            },
        }
    }
}

} // verus!
