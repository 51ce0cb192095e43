//! Match attachments: the attachment record with its embedded asset, the
//! create builder, and the decoders.

use vstd::prelude::*;
use crate::error::Error;
use crate::json::{
    absent_key_error, lookup, opt_str_matches, strict_u64_error, take_opt_string, take_opt_u64,
    take_u64_strict, JsonFields, JsonValue,
};
use crate::matches::MatchId;
use crate::time::{take_timestamp, ts_error, ts_ok, Timestamp};
use crate::util::{decode_array, unwrap_entity, unwrap_error, unwrapped_fields};

verus! {

/// The file asset of an attachment. The wire format keeps these four
/// fields flattened on the attachment object under `asset_`-prefixed
/// keys; nesting them here is a modeling choice of this crate.
#[derive(Debug, Clone)]
pub struct Asset {
    /// Stored file name.
    pub file_name: Option<String>,
    /// MIME content type.
    pub content_type: Option<String>,
    /// File size in bytes.
    pub file_size: Option<u64>,
    /// Where the asset is served from.
    pub url: Option<String>,
}

/// The four asset keys are present on the field set.
pub open spec fn asset_fields_ok(fields: Seq<(String, JsonValue)>) -> bool {
    &&& lookup(fields, "asset_file_name"@) is Some
    &&& lookup(fields, "asset_content_type"@) is Some
    &&& lookup(fields, "asset_file_size"@) is Some
    &&& lookup(fields, "asset_url"@) is Some
}

/// How a decoded asset relates to the field set it was read from.
pub open spec fn asset_matches(fields: Seq<(String, JsonValue)>, a: Asset) -> bool {
    &&& lookup(fields, "asset_file_name"@) matches Some(v) && opt_str_matches(v, a.file_name)
    &&& lookup(fields, "asset_content_type"@) matches Some(v) && opt_str_matches(v, a.content_type)
    &&& lookup(fields, "asset_file_size"@) matches Some(v) && a.file_size
        == crate::json::as_u64_option(v)
    &&& lookup(fields, "asset_url"@) matches Some(v) && opt_str_matches(v, a.url)
}

/// True when `e` is the error decoding an asset from `fields` reports:
/// the first absent asset key, in decode order.
pub open spec fn asset_decode_error(fields: Seq<(String, JsonValue)>, e: Error) -> bool {
    if lookup(fields, "asset_file_name"@) is None {
        absent_key_error(e, "asset_file_name"@)
    } else if lookup(fields, "asset_content_type"@) is None {
        absent_key_error(e, "asset_content_type"@)
    } else if lookup(fields, "asset_file_size"@) is None {
        absent_key_error(e, "asset_file_size"@)
    } else if lookup(fields, "asset_url"@) is None {
        absent_key_error(e, "asset_url"@)
    } else {
        false
    }
}

impl Asset {
    /// Decodes the asset from an attachment's own field set: all four
    /// keys are required, their values lenient.
    pub fn decode(map: &JsonFields) -> (r: Result<Asset, Error>)
        ensures
            match r {
                Ok(a) => asset_fields_ok(map@) && asset_matches(map@, a),
                Err(e) => !asset_fields_ok(map@) && asset_decode_error(map@, e),
            },
    {
        let file_name = take_opt_string(map, "asset_file_name")?;
        let content_type = take_opt_string(map, "asset_content_type")?;
        let file_size = take_opt_u64(map, "asset_file_size")?;
        let url = take_opt_string(map, "asset_url")?;
        Ok(Asset { file_name, content_type, file_size, url })
    }
}

/// What a new attachment carries: at least one of the three parts should
/// be provided for the service to accept it.
#[derive(Debug, Clone)]
pub struct AttachmentCreate {
    /// Raw contents of a file to upload; when present, the service
    /// ignores the `url` field.
    pub asset: Option<Vec<u8>>,
    /// A web link.
    pub url: Option<String>,
    /// Text describing the file or link, or standalone text.
    pub description: Option<String>,
}

impl AttachmentCreate {
    /// Creates an empty attachment description.
    pub fn new() -> (r: AttachmentCreate)
        ensures
            r.asset is None,
            r.url is None,
            r.description is None,
    {
        AttachmentCreate { asset: None, url: None, description: None }
    }

    /// Sets the file contents to upload.
    pub fn asset(self, asset: Vec<u8>) -> (r: AttachmentCreate)
        ensures
            r == (AttachmentCreate { asset: Some(asset), ..self }),
    {
        AttachmentCreate { asset: Some(asset), ..self }
    }

    /// Sets the link.
    pub fn url(self, url: String) -> (r: AttachmentCreate)
        ensures
            r == (AttachmentCreate { url: Some(url), ..self }),
    {
        AttachmentCreate { url: Some(url), ..self }
    }

    /// Sets the description text.
    pub fn description(self, description: String) -> (r: AttachmentCreate)
        ensures
            r == (AttachmentCreate { description: Some(description), ..self }),
    {
        AttachmentCreate { description: Some(description), ..self }
    }
}

impl Default for AttachmentCreate {
    /// An empty attachment description.
    fn default() -> (r: AttachmentCreate)
        ensures
            r.asset is None,
            r.url is None,
            r.description is None,
    {
        AttachmentCreate { asset: None, url: None, description: None }
    }
}

/// The unique numeric identifier of an attachment.
#[derive(Debug, Clone, Copy, PartialEq, Eq, Structural)]
pub struct AttachmentId(pub u64);

/// A match attachment record.
#[derive(Debug, Clone)]
pub struct Attachment {
    /// Unique attachment identifier.
    pub id: AttachmentId,
    /// The match the attachment belongs to.
    pub match_id: MatchId,
    /// The user who uploaded the attachment.
    pub user_id: u64,
    /// A web link.
    pub url: Option<String>,
    /// Text describing the file or link.
    pub description: Option<String>,
    /// The uploaded file's original name.
    pub original_file_name: Option<String>,
    /// When the attachment was created.
    pub created_at: Timestamp,
    /// When the attachment was last updated.
    pub updated_at: Timestamp,
    /// The stored file, where one was uploaded.
    pub asset: Asset,
}

/// Every structural requirement an attachment field set must meet.
pub open spec fn attachment_fields_ok(fields: Seq<(String, JsonValue)>) -> bool {
    &&& lookup(fields, "id"@) matches Some(JsonValue::UInt(_))
    &&& lookup(fields, "match_id"@) matches Some(JsonValue::UInt(_))
    &&& lookup(fields, "user_id"@) matches Some(JsonValue::UInt(_))
    &&& lookup(fields, "description"@) is Some
    &&& lookup(fields, "url"@) is Some
    &&& lookup(fields, "original_file_name"@) is Some
    &&& ts_ok(lookup(fields, "created_at"@))
    &&& ts_ok(lookup(fields, "updated_at"@))
    &&& asset_fields_ok(fields)
}

/// How a decoded attachment relates to the field set it was read from.
pub open spec fn attachment_matches(fields: Seq<(String, JsonValue)>, a: Attachment) -> bool {
    &&& lookup(fields, "id"@) == Some(JsonValue::UInt(a.id.0))
    &&& lookup(fields, "match_id"@) == Some(JsonValue::UInt(a.match_id.0))
    &&& lookup(fields, "user_id"@) == Some(JsonValue::UInt(a.user_id))
    &&& lookup(fields, "description"@) matches Some(v) && opt_str_matches(v, a.description)
    &&& lookup(fields, "url"@) matches Some(v) && opt_str_matches(v, a.url)
    &&& lookup(fields, "original_file_name"@) matches Some(v) && opt_str_matches(
        v,
        a.original_file_name,
    )
    &&& lookup(fields, "created_at"@) matches Some(v) && v matches JsonValue::Str(s)
        && crate::time::rfc3339_parse(s@) == Some(a.created_at)
    &&& lookup(fields, "updated_at"@) matches Some(v) && v matches JsonValue::Str(s)
        && crate::time::rfc3339_parse(s@) == Some(a.updated_at)
    &&& asset_matches(fields, a.asset)
}

/// True when `e` is the error decoding an attachment's field set reports:
/// the first failed field requirement, in decode order.
pub open spec fn attachment_fields_error(fields: Seq<(String, JsonValue)>, e: Error) -> bool {
    if !(lookup(fields, "id"@) matches Some(JsonValue::UInt(_))) {
        strict_u64_error(fields, "id"@, e)
    } else if !(lookup(fields, "match_id"@) matches Some(JsonValue::UInt(_))) {
        strict_u64_error(fields, "match_id"@, e)
    } else if !(lookup(fields, "user_id"@) matches Some(JsonValue::UInt(_))) {
        strict_u64_error(fields, "user_id"@, e)
    } else if lookup(fields, "description"@) is None {
        absent_key_error(e, "description"@)
    } else if lookup(fields, "url"@) is None {
        absent_key_error(e, "url"@)
    } else if lookup(fields, "original_file_name"@) is None {
        absent_key_error(e, "original_file_name"@)
    } else if !ts_ok(lookup(fields, "created_at"@)) {
        ts_error(fields, "created_at"@, e)
    } else if !ts_ok(lookup(fields, "updated_at"@)) {
        ts_error(fields, "updated_at"@, e)
    } else if !asset_fields_ok(fields) {
        asset_decode_error(fields, e)
    } else {
        false
    }
}

/// True when `e` is the error decoding an attachment payload reports:
/// either the wrapper fails to unwrap, or a field requirement fails.
pub open spec fn attachment_decode_error(value: JsonValue, e: Error) -> bool {
    match unwrapped_fields(value, "match_attachment"@) {
        Some(fields) => attachment_fields_error(fields, e),
        None => unwrap_error(value, "match_attachment"@, e),
    }
}

/// The payload decodes cleanly as an attachment: it unwraps and meets
/// every field requirement.
pub open spec fn attachment_decodes(value: JsonValue) -> bool {
    unwrapped_fields(value, "match_attachment"@) matches Some(fields) && attachment_fields_ok(
        fields,
    )
}

impl Attachment {
    /// Decodes an attachment payload: unwraps the `match_attachment`
    /// wrapper key, then reads each field with its presence and leniency
    /// rule.
    pub fn decode(value: JsonValue) -> (r: Result<Attachment, Error>)
        ensures
            match r {
                Ok(a) => {
                    &&& unwrapped_fields(value, "match_attachment"@) matches Some(fields)
                    &&& attachment_fields_ok(fields)
                    &&& attachment_matches(fields, a)
                },
                Err(e) => attachment_decode_error(value, e),
            },
    {
        let mut tv = unwrap_entity(value, "match_attachment")?;
        let id = take_u64_strict(&mut tv, "id")?;
        let match_id = take_u64_strict(&mut tv, "match_id")?;
        let user_id = take_u64_strict(&mut tv, "user_id")?;
        let description = take_opt_string(&tv, "description")?;
        let url = take_opt_string(&tv, "url")?;
        let original_file_name = take_opt_string(&tv, "original_file_name")?;
        let created_at = take_timestamp(&mut tv, "created_at")?;
        let updated_at = take_timestamp(&mut tv, "updated_at")?;
        let asset = Asset::decode(&tv)?;
        Ok(
            Attachment {
                id: AttachmentId(id),
                match_id: MatchId(match_id),
                user_id,
                url,
                description,
                original_file_name,
                created_at,
                updated_at,
                asset,
            },
        )
    }
}

/// A list of attachments, in the order the service returned them.
#[derive(Debug, Clone)]
pub struct Index(pub Vec<Attachment>);

impl Index {
    /// Decodes a JSON array of attachment payloads, in order, propagating
    /// the first failure.
    pub fn decode(value: JsonValue) -> (r: Result<Index, Error>)
        ensures
            match r {
                Ok(idx) => {
                    &&& value matches JsonValue::Array(arr)
                    &&& idx.0@.len() == arr@.len()
                    &&& forall|i: int|
                        0 <= i < arr@.len() ==> {
                            &&& (#[trigger] unwrapped_fields(
                                arr@[i],
                                "match_attachment"@,
                            )) matches Some(fields)
                            &&& attachment_fields_ok(fields)
                            &&& attachment_matches(fields, idx.0@[i])
                        }
                },
                Err(e) => {
                    ||| {
                        &&& !(value matches JsonValue::Array(_))
                        &&& e matches Error::Decode(d, offending)
                        &&& d@ == "Error decoding object"@
                        &&& offending == value
                    }
                    ||| (value matches JsonValue::Array(arr) && exists|i: int|
                        {
                            &&& 0 <= i < arr@.len()
                            &&& attachment_decode_error(#[trigger] arr@[i], e)
                            &&& forall|j: int|
                                0 <= j < i ==> attachment_decodes(#[trigger] arr@[j])
                        })
                },
            },
    {
        let decoder = Attachment::decode;
        match decode_array(value, decoder) {
            Ok(list) => Ok(Index(list)),
            Err(e) => {
                proof {
                    if value is Array {
                        let arrv = value->Array_0@;
                        let i = choose|i: int|
                            {
                                &&& 0 <= i < arrv.len()
                                &&& #[trigger] decoder.ensures((arrv[i],), Err::<Attachment, Error>(e))
                                &&& exists|prefix: Seq<Attachment>|
                                    {
                                        &&& #[trigger] prefix.len() == i
                                        &&& forall|j: int|
                                            0 <= j < i ==> #[trigger] decoder.ensures(
                                                (arrv[j],),
                                                Ok::<Attachment, Error>(prefix[j]),
                                            )
                                    }
                            };
                        let prefix = choose|prefix: Seq<Attachment>|
                            {
                                &&& #[trigger] prefix.len() == i
                                &&& forall|j: int|
                                    0 <= j < i ==> #[trigger] decoder.ensures(
                                        (arrv[j],),
                                        Ok::<Attachment, Error>(prefix[j]),
                                    )
                            };
                        assert(attachment_decode_error(arrv[i], e));
                        assert forall|j: int| 0 <= j < i implies attachment_decodes(
                            #[trigger] arrv[j],
                        ) by {
                            assert(decoder.ensures((arrv[j],), Ok::<Attachment, Error>(prefix[j])));
                        }
                    }
                }
                Err(e)
            },
        }
    }
}

} // verus!
