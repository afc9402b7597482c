//! HTTP statuses as the launcher reports them.
use vstd::prelude::*;

use crate::text::{decimal, u64_to_string};

verus! {

/// An HTTP status: its code and its reason phrase (as the HTTP client names
/// it).
#[derive(Debug)]
pub struct HttpStatus {
    pub code: u16,
    pub reason: String,
}

/// How a status reads in a message: the code, a space, the reason.
pub open spec fn status_text(s: HttpStatus) -> Seq<char> {
    decimal(s.code as nat) + seq![' '] + s.reason@
}

impl HttpStatus {
    pub fn text(&self) -> (t: String)
        ensures
            t@ == status_text(*self),
    {
        let mut t = u64_to_string(self.code as u64);
        t.push(' ');
        t.append(self.reason.as_str());
        t
    }

    /// Whether the status is a success (2xx).
    pub fn is_success(&self) -> (b: bool)
        ensures
            b == (200 <= self.code < 300),
    {
        200 <= self.code && self.code < 300
    }
}

} // verus!
