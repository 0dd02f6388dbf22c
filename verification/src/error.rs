//! The ways in which resolving a launch request can fail.

use vstd::prelude::*;

verus! {

/// Why no command could be resolved. Every failure ends the resolution: none
/// is retried, and nothing is launched.
#[derive(Clone, Copy, Debug, PartialEq, Eq, Structural)]
pub enum Error {
    /// The program path holds a NUL character and cannot serve as a lookup key.
    InvalidInput,
    /// The program path holds no `.`.
    NoExtension,
    /// The store has no command for the extension, nor for the wildcard.
    NoAssociation,
    /// The second query reported a longer command than the first one did.
    StoreInconsistent,
    /// The store failed with the given status code.
    StoreFailure(i32),
    /// The tokenizer itself failed with the given error code.
    TokenizerFailure(u32),
    /// The template holds no program: it has no token, or its first token
    /// stands for no value.
    EmptyTemplate,
    /// A token of the form `%X` whose designator `X` has no meaning.
    UnsupportedPlaceholder(char),
    /// The program path could not be brought into its canonical form.
    NormalizationFailure,
    /// A token asks for the working directory, the request names none, and
    /// that of the running process is not known.
    WorkingDirectoryUnavailable,
}

} // verus!
