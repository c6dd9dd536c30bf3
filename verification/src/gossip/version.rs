//! The software version a node announces.

use crate::primitives::SanitizeError;
use vstd::prelude::*;

verus! {

/// A release version: major, minor and patch numbers, the commit it was
/// built from when known, and the identifier of its feature set.
#[derive(Clone, Copy, Debug)]
pub struct Version {
    pub major: u16,
    pub minor: u16,
    pub patch: u16,
    pub commit: Option<u32>,
    pub feature_set: u32,
}

impl Default for Version {
    /// Version 0.0.0 with no commit and feature set 0.
    fn default() -> (v: Self)
        ensures
            v.major == 0 && v.minor == 0 && v.patch == 0 && v.commit is None && v.feature_set == 0,
    {
        Version { major: 0, minor: 0, patch: 0, commit: None, feature_set: 0 }
    }
}

impl Version {
    /// Every version is well formed on the wire.
    pub fn sanitize(&self) -> (r: Result<(), SanitizeError>)
        ensures
            r == Ok::<(), SanitizeError>(()),
    {
        Ok(())
    }
}

} // verus!
