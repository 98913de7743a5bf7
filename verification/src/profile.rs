//! Machine/material profile data: firmware metadata, profile errors, the pre-flight compatibility
//! report and the Klipper `printer.cfg` importer.
use crate::text::string_from_str;
use vstd::prelude::*;

pub mod capability;
pub mod klipper;

verus! {

/// Firmware metadata for dialect-aware review.
#[derive(Debug, Clone, Default, PartialEq, Eq)]
pub struct FirmwareProfile {
    /// Firmware/dialect flavor such as `klipper`, `marlin`, or `duet`.
    pub flavor: Option<String>,
}

/// A profile parse or validation error.
#[derive(Debug, Clone, PartialEq, Eq)]
pub struct ProfileError {
    message: String,
}

impl ProfileError {
    pub fn new(message: &str) -> (e: ProfileError)
        ensures
            e.text() == message@,
    {
        ProfileError { message: string_from_str(message) }
    }

    /// The error's text, as it is displayed.
    pub closed spec fn text(&self) -> Seq<char> {
        self.message@
    }

    /// The error's text, as it is displayed.
    pub fn display_text(&self) -> (s: String)
        ensures
            s@ == self.text(),
    {
        self.message.clone()
    }
}

/// The profile schema version a profile document declares when it names none.
pub fn default_profile_version() -> (v: u32)
    ensures
        v == 1,
{
    1
}

} // verus!
