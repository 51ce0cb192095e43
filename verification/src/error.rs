//! Error taxonomy shared by every decode and encode operation.

use vstd::prelude::*;
use crate::json::JsonValue;

verus! {

/// Everything that can go wrong between sending a request and obtaining a
/// typed record.
///
/// No operation in this crate retries or swallows a failure: each decoder
/// and encoder either returns a fully valid value or one of these variants.
#[derive(Debug)]
pub enum Error {
    /// Transport failure reported by the HTTP collaborator; carries its
    /// message. Always fatal to the call.
    Reqwest(String),

    /// The response body was not valid JSON; carries the parser's message.
    Json(String),

    /// Valid JSON that does not match the expected structure: a fixed
    /// description of the failed expectation and the offending value.
    Decode(&'static str, JsonValue),

    /// Client-side usage error.
    Api(&'static str),

    /// A response with a non-success HTTP status: the status code and the
    /// raw body.
    Status(u16, String),

    /// A non-success response whose body carried the service's structured
    /// validation-error shape; holds the extracted field-error strings.
    Validation(Vec<String>),
}

impl Error {
    /// True when the error is a semantic decode failure with the given
    /// description.
    pub open spec fn is_decode_with(self, description: Seq<char>) -> bool {
        self matches Error::Decode(d, _) && d@ == description
    }

    /// Classifies a non-success response: a body in the service's
    /// structured validation-error shape becomes a `Validation` error
    /// carrying the extracted messages; any other body (or one that was
    /// not valid JSON, passed as `None`) becomes a `Status` error with the
    /// code and raw body.
    pub fn from_response(code: u16, body: String, body_json: Option<&JsonValue>) -> (r: Error)
        ensures
            match body_json {
                Some(v) => match crate::json::validation_messages(*v) {
                    Some(msgs) => {
                        &&& r matches Error::Validation(list)
                        &&& list@.len() == msgs.len()
                        &&& forall|i: int| 0 <= i < msgs.len() ==> list@[i]@ == msgs[i]
                    },
                    None => r matches Error::Status(c, b) && c == code && b == body,
                },
                None => r matches Error::Status(c, b) && c == code && b == body,
            },
    {
        if let Some(v) = body_json {
            if let Some(messages) = crate::json::validation_errors(v) {
                return Error::Validation(messages);
            }
        }
        Error::Status(code, body)
    }
}

} // verus!
