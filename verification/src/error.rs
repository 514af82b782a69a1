//! The errors that the library returns.

use vstd::prelude::*;
use vstd::std_specs::convert::FromSpecImpl;

verus! {

/// An error of input or output, `std::io::Error`, of which nothing is read
/// here.
#[verifier::external_type_specification]
#[verifier::external_body]
pub struct ExIoError(std::io::Error);

/// What went wrong with the configuration of Steam.
#[derive(Debug)]
pub enum SteamConfigError {
    /// The configuration holds no `CompatToolMapping` group.
    NoDefaultCompatToolAttribute,
    /// Reading or writing the configuration failed.
    IoError { source: std::io::Error },
}

impl From<std::io::Error> for SteamConfigError {
    fn from(source: std::io::Error) -> (error: SteamConfigError) {
        SteamConfigError::IoError { source }
    }
}

impl FromSpecImpl<std::io::Error> for SteamConfigError {
    open spec fn obeys_from_spec() -> bool {
        true
    }

    open spec fn from_spec(source: std::io::Error) -> SteamConfigError {
        SteamConfigError::IoError { source }
    }
}

/// What went wrong with the configuration of Lutris.
#[derive(Debug)]
pub enum LutrisConfigError {
    /// The configuration holds no `version` attribute.
    NoVersionAttribute,
    /// Reading or writing the configuration failed.
    IoError { source: std::io::Error },
}

impl From<std::io::Error> for LutrisConfigError {
    fn from(source: std::io::Error) -> (error: LutrisConfigError) {
        LutrisConfigError::IoError { source }
    }
}

impl FromSpecImpl<std::io::Error> for LutrisConfigError {
    open spec fn obeys_from_spec() -> bool {
        true
    }

    open spec fn from_spec(source: std::io::Error) -> LutrisConfigError {
        LutrisConfigError::IoError { source }
    }
}

/// Why a tag kind could not be made.
#[derive(Debug, Clone, Copy, PartialEq, Eq, Structural)]
pub enum TagKindError {
    /// The string is none of the names of a tag kind.
    UnknownString,
}

/// Why a tag is outside the dialects that can be read as a version.
#[derive(Debug, Clone, Copy, PartialEq, Eq, Structural)]
pub enum TagParseError {
    /// The tag holds the release-candidate marker, but no run of digits
    /// behind the first one follows the marker anywhere in the tag.
    UnmatchedReleaseCandidate,
    /// A run of digits that counts as a version component is no decimal
    /// numeral for a number from 0 to 255.
    ComponentOutOfRange,
}

} // verus!
