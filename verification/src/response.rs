//! Result wrappers and decode helpers: the collaborator-facing view of a
//! completed request.  A failure outcome carries a transport error description
//! as a value; decoding failures are local and leave the stored bytes alone.

use vstd::prelude::*;
use vstd::utf8::{decode_utf8, valid_utf8};

use crate::json::{json_ok, parse_json};

verus! {

/// A recorded outcome: the response body's bytes on success, a transport
/// error description on failure.
#[derive(Debug, Eq, PartialEq)]
pub struct ReqwestBytesResult(pub Result<Vec<u8>, String>);

/// Relies on `std::str::from_utf8`: it returns `Ok` exactly when the bytes
/// are valid UTF-8, and the resulting `str` views those bytes as the
/// characters they encode.
#[verifier::external_body]
fn str_from_utf8_bytes(b: &[u8]) -> (r: Option<&str>)
    ensures
        r is Some <==> valid_utf8(b@),
        r matches Some(s) ==> s@ == decode_utf8(b@),
{
    std::str::from_utf8(b).ok()
}

impl ReqwestBytesResult {
    /// The UTF-8 text of a successful outcome; `None` on a failure outcome or
    /// on bytes that are not valid UTF-8.
    pub fn as_str(&self) -> (r: Option<&str>)
        ensures
            r is Some <==> (self.0 matches Ok(b) && valid_utf8(b@)),
            r matches Some(s) ==> (self.0 matches Ok(b) && s@ == decode_utf8(b@)),
    {
        match &self.0 {
            Ok(bytes) => str_from_utf8_bytes(bytes.as_slice()),
            Err(_) => None,
        }
    }

    /// Owned variant of [`Self::as_str`].  The stored outcome is untouched.
    pub fn as_string(&mut self) -> (r: Option<String>)
        ensures
            *final(self) == *old(self),
            r is Some <==> (old(self).0 matches Ok(b) && valid_utf8(b@)),
            r matches Some(t) ==> (old(self).0 matches Ok(b) && t@ == decode_utf8(b@)),
    {
        match self.as_str() {
            Some(s) => Some(s.to_owned()),
            None => None,
        }
    }

    /// Parse a successful outcome's text as a JSON document.  `None` on a
    /// failure outcome, on invalid UTF-8 and on malformed JSON; the stored
    /// outcome is untouched either way.
    pub fn deserialize_json(&mut self) -> (r: Option<serde_json::Value>)
        ensures
            *final(self) == *old(self),
            r is Some <==> (old(self).0 matches Ok(b) && valid_utf8(b@) && json_ok(decode_utf8(b@))),
    {
        match self.as_str() {
            Some(s) => parse_json(s),
            None => None,
        }
    }
}

} // verus!
