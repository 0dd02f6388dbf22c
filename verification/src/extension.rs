//! The extension of a program path: the key under which the association
//! store is asked.

use vstd::prelude::*;
use crate::error::Error;

verus! {

/// `i` is the position of the last `.` in `path`.
pub open spec fn is_last_dot(path: Seq<char>, i: int) -> bool {
    &&& 0 <= i < path.len()
    &&& path[i] == '.'
    &&& forall|j: int| i < j < path.len() ==> path[j] != '.'
}

/// The position of the last `.` in a path that holds one.
pub open spec fn last_dot(path: Seq<char>) -> int {
    choose|i: int| is_last_dot(path, i)
}

/// The text from the last `.` of `path` to its end, the dot included, or
/// `None` where `path` holds no `.`.
pub open spec fn extension(path: Seq<char>) -> Option<Seq<char>> {
    if path.contains('.') {
        Some(path.subrange(last_dot(path), path.len() as int))
    } else {
        None
    }
}

/// A path has at most one last dot, so `extension` is the text from it.
pub proof fn lemma_extension_at(path: Seq<char>, i: int)
    requires
        is_last_dot(path, i),
    ensures
        path.contains('.'),
        last_dot(path) == i,
        extension(path) == Some(path.subrange(i, path.len() as int)),
{
    assert(path.contains('.'));
    let k = last_dot(path);
    assert(is_last_dot(path, k));
    if k < i {
        assert(path[i] != '.');
    } else if i < k {
        assert(path[k] != '.');
    }
}

/// Finds the extension of `path` by a scan from its end.
///
/// Nothing is asked of the extension but that it starts at the last `.`:
/// `C:\a.b\c` has the extension `.b\c`.
pub fn find_ext(path: &str) -> (r: Result<&str, Error>)
    ensures
        match r {
            Ok(ext) => extension(path@) == Some(ext@),
            Err(e) => e == Error::NoExtension && extension(path@) is None,
        },
        r is Err <==> !path@.contains('.'),
{
    let n: usize = path.unicode_len();
    let mut i: usize = n;
    while i > 0
        invariant
            i <= n,
            n == path@.len(),
            forall|j: int| i <= j < n ==> path@[j] != '.',
        decreases i,
    {
        i -= 1;
        if path.get_char(i) == '.' {
            proof {
                lemma_extension_at(path@, i as int);
            }
            return Ok(path.substring_char(i, n));
        }
    }
    Err(Error::NoExtension)
}

} // verus!
