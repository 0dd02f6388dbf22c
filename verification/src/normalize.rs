//! The canonical form of a path, as the file system gives it.

use vstd::prelude::*;
use normpath::PathExt;

verus! {

/// Calls `normpath::PathExt::normalize` on `path`.
///
/// The call reads the file system: it resolves the path against the current
/// directory and fails where nothing exists under it. Nothing is claimed of
/// its result, which may differ from one call to the next. `None` stands for
/// its error, and for a canonical path that is not Unicode text.
#[verifier::external_body]
pub(crate) fn normalize_path(path: &str) -> (normalized: Option<String>) {
    match std::path::Path::new(path).normalize() {
        Ok(base) => base.into_os_string().into_string().ok(),
        Err(_) => None,
    }
}

} // verus!
