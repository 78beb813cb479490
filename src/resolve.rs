//! The steps of a resolution session that surround the solver's own run.
use crate::error::ResolveError;
use crate::version::{pep440_version, Version};
use vstd::prelude::*;

verus! {

/// Reads the root version of a resolution; text that is not a version is
/// `InvalidVersion` holding that text.
pub fn parse_root_version<E>(text: &str) -> (r: Result<Version, ResolveError<E>>)
    ensures
        pep440_version(text@) matches Some(v) ==> (r matches Ok(x) && x@ == v),
        pep440_version(text@) is None ==> (r matches Err(ResolveError::InvalidVersion(t)) && t@ == text@),
{
    match Version::parse(text) {
        Some(v) => Ok(v),
        None => Err(ResolveError::InvalidVersion(text.to_owned())),
    }
}

} // verus!
