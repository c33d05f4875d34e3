use vstd::prelude::*;

pub mod json;
pub mod protobuf;
pub mod text;
pub mod yaml;

verus! {

use vstd::utf8::{decode_utf8, valid_utf8};

/// Error raised by the message codecs, carrying a human-readable reason.
#[derive(Debug)]
pub struct EncodeError(pub String);

/// Relies on String::from_utf8: it accepts exactly the byte strings that are
/// valid UTF-8 and returns the text they encode.
#[verifier::external_body]
pub(crate) fn bytes_to_string(v: Vec<u8>) -> (r: Option<String>)
    ensures
        match r {
            Some(s) => valid_utf8(v@) && s@ == decode_utf8(v@),
            None => !valid_utf8(v@),
        },
{
    match String::from_utf8(v) {
        Ok(s) => Some(s),
        Err(_) => None,
    }
}

/// A message codec: every implementation turns a record into bytes and back.
pub trait Encoder<T> {
    fn encode(&self, value: &T) -> Result<Vec<u8>, EncodeError>;

    fn decode(&self, data: &[u8]) -> Result<T, EncodeError>;
}

} // verus!
