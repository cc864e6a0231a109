//! Snapshot archive paths found by a glob walk.

use std::path::PathBuf;
use vstd::prelude::*;

verus! {

#[verifier::external_type_specification]
#[verifier::external_body]
pub struct ExPathBuf(std::path::PathBuf);

#[verifier::external_type_specification]
#[verifier::external_body]
pub struct ExGlobError(glob::GlobError);

/// The path of a glob entry; `None` for an entry that could not be read.
pub fn valid_path(f: Result<PathBuf, glob::GlobError>) -> (r: Option<PathBuf>)
    ensures
        match f {
            Ok(p) => r == Some(p),
            Err(_) => r is None,
        },
{
    match f {
        Ok(path) => Some(path),
        Err(_) => None,
    }
}

} // verus!
