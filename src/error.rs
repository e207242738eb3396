//! The ways a version update can fail.

use vstd::prelude::*;
use vstd::string::*;

verus! {

/// Why a version could not be read, computed or accepted.
#[derive(Debug, Clone, Copy, PartialEq, Eq, Structural)]
pub enum VersionError {
    /// No line of the manifest mentions a version.
    ManifestMissingVersion,
    /// The version text lacks three '.'-separated parts, or its line has no '='.
    InvalidFormat,
    /// A part of the version is not a non-negative decimal number.
    InvalidDigit,
    /// A number does not fit the machine word, or its increment would not.
    Overflow,
    /// The proposed version is not the next one after the current version.
    VersionNotGreater,
}

/// The message shown for each error.
pub open spec fn error_message(e: VersionError) -> Seq<char> {
    match e {
        VersionError::ManifestMissingVersion => "Cargo.toml don't have a version tag"@,
        VersionError::InvalidFormat => "version must have three parts separated by '.'"@,
        VersionError::InvalidDigit => "invalid digit found in string"@,
        VersionError::Overflow => "number too large to fit in target type"@,
        VersionError::VersionNotGreater => "You can not set a version lower than the current version"@,
    }
}

impl VersionError {
    /// The message that describes this error.
    pub fn to_string(&self) -> (r: String)
        ensures
            r@ == error_message(*self),
    {
        match self {
            VersionError::ManifestMissingVersion => String::from_str(
                "Cargo.toml don't have a version tag",
            ),
            VersionError::InvalidFormat => String::from_str(
                "version must have three parts separated by '.'",
            ),
            VersionError::InvalidDigit => String::from_str("invalid digit found in string"),
            VersionError::Overflow => String::from_str("number too large to fit in target type"),
            VersionError::VersionNotGreater => String::from_str(
                "You can not set a version lower than the current version",
            ),
        }
    }
}

} // verus!
