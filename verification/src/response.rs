//! What a handler produces, already reduced to wire data: status, content
//! type and body bytes. Nothing Python-shaped crosses back to the server.

use vstd::prelude::*;
use vstd::utf8::encode_utf8;

verus! {

/// The content type of plain-text responses.
pub open spec fn plain_text_type() -> Seq<char> {
    "text/plain; charset=utf-8"@
}

/// The content type of JSON responses.
pub open spec fn json_type() -> Seq<char> {
    "application/json"@
}

/// The body of every internal error response.
pub open spec fn internal_error_body() -> Seq<u8> {
    encode_utf8("Internal Server Error"@)
}

/// A handler's outcome as wire data.
pub struct HandlerResponse {
    pub status: u16,
    pub content_type: &'static str,
    pub body: Vec<u8>,
}

impl HandlerResponse {
    /// Whether this is the opaque 500 that every internal failure becomes.
    pub open spec fn is_internal_error(&self) -> bool {
        &&& self.status == 500
        &&& self.content_type@ == plain_text_type()
        &&& self.body@ == internal_error_body()
    }

    /// The opaque 500: error bodies stay generic, error logs carry detail.
    pub fn internal_error() -> (response: Self)
        ensures
            response.is_internal_error(),
    {
        let mut body: Vec<u8> = Vec::new();
        crate::json::append_str(&mut body, "Internal Server Error");
        HandlerResponse { status: 500, content_type: "text/plain; charset=utf-8", body }
    }

    /// The 204 a handler that returned nothing gets.
    pub fn no_content() -> (response: Self)
        ensures
            response.status == 204,
            response.content_type@ == plain_text_type(),
            response.body@ == Seq::<u8>::empty(),
    {
        HandlerResponse { status: 204, content_type: "text/plain; charset=utf-8", body: Vec::new() }
    }
}

/// A handler's return value, as far as the response depends on it.
pub enum HandlerOutput {
    /// The handler returned `None`.
    Nothing,
    /// The handler returned a string, with its UTF-8 bytes.
    Text(Vec<u8>),
    /// The handler returned a string that has no UTF-8 encoding.
    UndecodableText,
    /// Any other value, with its JSON serialization.
    Json(Vec<u8>),
    /// Any other value whose serialization failed.
    Unserializable,
}

/// The response for each kind of handler return value.
pub open spec fn output_response_matches(output: HandlerOutput, response: HandlerResponse) -> bool {
    match output {
        HandlerOutput::Nothing => response.status == 204 && response.content_type@ == plain_text_type()
            && response.body@ == Seq::<u8>::empty(),
        HandlerOutput::Text(bytes) => response.status == 200 && response.content_type@
            == plain_text_type() && response.body@ == bytes@,
        HandlerOutput::Json(bytes) => response.status == 200 && response.content_type@ == json_type()
            && response.body@ == bytes@,
        HandlerOutput::UndecodableText | HandlerOutput::Unserializable => response.is_internal_error(),
    }
}

/// Converts a handler's return value into wire data: `None` is a 204, a
/// string is a 200 plain-text body, anything else a 200 JSON body; a value
/// that cannot be encoded is the opaque 500.
pub fn response_from_output(output: HandlerOutput) -> (response: HandlerResponse)
    ensures
        output_response_matches(output, response),
{
    match output {
        HandlerOutput::Nothing => HandlerResponse::no_content(),
        HandlerOutput::Text(bytes) => HandlerResponse {
            status: 200,
            content_type: "text/plain; charset=utf-8",
            body: bytes,
        },
        HandlerOutput::Json(bytes) => HandlerResponse {
            status: 200,
            content_type: "application/json",
            body: bytes,
        },
        HandlerOutput::UndecodableText => HandlerResponse::internal_error(),
        HandlerOutput::Unserializable => HandlerResponse::internal_error(),
    }
}

/// The status put on the wire for a handler status: HTTP status codes are
/// the three-digit numbers 100 to 999; anything else goes out as 500.
pub fn wire_status(status: u16) -> (code: u16)
    ensures
        code == (if 100 <= status <= 999 { status } else { 500 }),
{
    if 100 <= status && status <= 999 {
        status
    } else {
        500
    }
}

} // verus!
