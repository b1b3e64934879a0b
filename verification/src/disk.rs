//! Questions the library asks the filesystem. Their answers depend on what is on
//! disk at the moment of the call, so nothing is promised about them; the
//! functions that ask state what holds whatever the answer was.

use vstd::prelude::*;

verus! {

/// `std::path::Path::exists`: whether something exists at `path`.
#[verifier::external_body]
pub(crate) fn path_exists(path: &str) -> bool {
    std::path::Path::new(path).exists()
}

/// `std::path::Path::is_dir`: whether `path` names an existing directory.
#[verifier::external_body]
pub(crate) fn path_is_dir(path: &str) -> bool {
    std::path::Path::new(path).is_dir()
}

/// `std::path::Path::is_file`: whether `path` names an existing regular file.
#[verifier::external_body]
pub(crate) fn path_is_file(path: &str) -> bool {
    std::path::Path::new(path).is_file()
}

} // verus!
