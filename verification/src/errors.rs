//! The uniform failure shape used by every component: an HTTP-style status,
//! a stable machine-readable error code, a human description, a retryability
//! flag, and an accumulating context trail.

use vstd::prelude::*;

verus! {

/// One failure, as every component reports it. The context trail is
/// append-only diagnostic text, never used for control flow.
#[derive(Debug, Clone)]
pub struct FluffError {
    pub http_code: u16,
    pub http_reason: String,
    pub error_name: String,
    pub error_description: String,
    pub can_retry: bool,
    pub context: Vec<String>,
}

/// The canonical reason phrase for the HTTP status codes this service emits;
/// any other code falls back to a generic word.
pub open spec fn spec_reason_phrase(code: u16) -> Seq<char> {
    if code == 200 {
        "OK"@
    } else if code == 302 {
        "Found"@
    } else if code == 400 {
        "Bad Request"@
    } else if code == 401 {
        "Unauthorized"@
    } else if code == 404 {
        "Not Found"@
    } else if code == 500 {
        "Internal Server Error"@
    } else {
        "Error"@
    }
}

pub fn reason_phrase(code: u16) -> (r: &'static str)
    ensures
        r@ == spec_reason_phrase(code),
{
    if code == 200 {
        "OK"
    } else if code == 302 {
        "Found"
    } else if code == 400 {
        "Bad Request"
    } else if code == 401 {
        "Unauthorized"
    } else if code == 404 {
        "Not Found"
    } else if code == 500 {
        "Internal Server Error"
    } else {
        "Error"
    }
}

impl FluffError {
    /// Builds a failure from a numeric HTTP status, filling in the canonical
    /// reason phrase and an empty context trail.
    pub fn new_u16(http: u16, name: &str, description: &str, can_retry: bool) -> (r: FluffError)
        ensures
            r.http_code == http,
            r.http_reason@ == spec_reason_phrase(http),
            r.error_name@ == name@,
            r.error_description@ == description@,
            r.can_retry == can_retry,
            r.context@.len() == 0,
    {
        FluffError {
            http_code: http,
            http_reason: reason_phrase(http).to_owned(),
            error_name: name.to_owned(),
            error_description: description.to_owned(),
            can_retry,
            context: Vec::new(),
        }
    }

    /// Appends one diagnostic entry to the context trail, leaving every other
    /// field unchanged.
    pub fn add_context(self, text: &str) -> (r: Self)
        ensures
            r.http_code == self.http_code,
            r.http_reason == self.http_reason,
            r.error_name == self.error_name,
            r.error_description == self.error_description,
            r.can_retry == self.can_retry,
            r.context.deep_view() == self.context.deep_view().push(text@),
    {
        let mut e = self;
        e.context.push(text.to_owned());
        e
    }

    /// Empties the context trail, leaving every other field unchanged.
    pub fn reset_context(self) -> (r: Self)
        ensures
            r.http_code == self.http_code,
            r.http_reason == self.http_reason,
            r.error_name == self.error_name,
            r.error_description == self.error_description,
            r.can_retry == self.can_retry,
            r.context@.len() == 0,
    {
        let mut e = self;
        e.context = Vec::new();
        e
    }
}

} // verus!
