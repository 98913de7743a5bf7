//! Errors of the reversing pass (L2 toolpath back to an L1 design).
use crate::text::{push_str, string_from_str};
use vstd::prelude::*;

verus! {

/// Why a toolpath could not be reversed into a design.
#[derive(Debug, Clone, PartialEq, Eq)]
pub struct ReverseError {
    pub message: String,
}

impl ReverseError {
    /// The error's text, as it is displayed: `reverse error: {message}`.
    pub fn display_text(&self) -> (s: String)
        ensures
            s@ == "reverse error: "@ + self.message@,
    {
        let mut s = string_from_str("reverse error: ");
        push_str(&mut s, self.message.as_str());
        s
    }
}

} // verus!
