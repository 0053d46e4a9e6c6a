//! Messages and what comes with them.

use vstd::prelude::*;
use vstd::utf8::encode_utf8;

use crate::json::{document, serialized, to_bytes, Json};

verus! {

/// The payload of a message, as the stream decoder handed it over.
pub enum Payload {
    Json(simd_json::OwnedValue),
    Raw(Vec<u8>),
    Text(String),
    Proto(String),
    FlatBuffer(Vec<u8>),
}

/// What a [`Payload`] holds.
pub enum Content {
    Json(Json),
    Raw(Seq<u8>),
    Text(Seq<char>),
    Proto(Seq<char>),
    FlatBuffer(Seq<u8>),
}

impl View for Payload {
    type V = Content;

    open spec fn view(&self) -> Content {
        match self {
            Payload::Json(value) => Content::Json(document(*value)),
            Payload::Raw(bytes) => Content::Raw(bytes@),
            Payload::Text(text) => Content::Text(text@),
            Payload::Proto(text) => Content::Proto(text@),
            Payload::FlatBuffer(bytes) => Content::FlatBuffer(bytes@),
        }
    }
}

/// The bytes of a payload: those it consists of, the UTF-8 encoding of a text, the
/// serialization of a JSON document. Only a JSON document can fail to have bytes; then the text
/// of the error.
pub open spec fn content_bytes(content: Content) -> Result<Seq<u8>, Seq<char>> {
    match content {
        Content::Json(tree) => serialized(tree),
        Content::Raw(bytes) => Ok(bytes),
        Content::Text(text) => Ok(encode_utf8(text)),
        Content::Proto(text) => Ok(encode_utf8(text)),
        Content::FlatBuffer(bytes) => Ok(bytes),
    }
}

/// A copy of some bytes.
fn copy_bytes(bytes: &Vec<u8>) -> (copy: Vec<u8>)
    ensures
        copy@ == bytes@,
{
    let copy = bytes.clone();
    assert(copy@ =~= bytes@);
    copy
}

impl Payload {
    /// The bytes of the payload, or the text of the error where it cannot be serialized.
    pub fn try_to_bytes(&self) -> (bytes: Result<Vec<u8>, String>)
        ensures
            match bytes {
                Ok(bytes) => content_bytes(self@) == Ok::<Seq<u8>, Seq<char>>(bytes@),
                Err(error) => content_bytes(self@) == Err::<Seq<u8>, Seq<char>>(error@),
            },
    {
        match self {
            Payload::Json(value) => to_bytes(value),
            Payload::Raw(bytes) => Ok(copy_bytes(bytes)),
            Payload::Text(text) => Ok(text.as_str().as_bytes_vec()),
            Payload::Proto(text) => Ok(text.as_str().as_bytes_vec()),
            Payload::FlatBuffer(bytes) => Ok(copy_bytes(bytes)),
        }
    }
}

/// A message taken from a stream.
pub struct ConsumedMessage {
    pub id: u128,
    pub offset: u64,
    pub checksum: u64,
    pub timestamp: u64,
    pub origin_timestamp: u64,
    /// The headers of the message by their names, each with the bytes of its value.
    pub headers: Option<Vec<(String, Vec<u8>)>>,
    pub payload: Payload,
}

/// How the payloads of messages are encoded in their stream.
#[derive(Debug, Clone, Copy, PartialEq, Eq, Structural)]
pub enum PayloadSchema {
    Json,
    Raw,
    Text,
    Proto,
    FlatBuffer,
}

/// The stream and the topic that messages come from.
#[derive(Debug, Clone)]
pub struct TopicMetadata {
    pub stream: String,
    pub topic: String,
}

/// The partition that messages come from, the offset that was reached in it, and how their
/// payloads are encoded.
#[derive(Debug, Clone)]
pub struct MessagesMetadata {
    pub partition_id: u32,
    pub current_offset: u64,
    pub schema: PayloadSchema,
}

} // verus!
