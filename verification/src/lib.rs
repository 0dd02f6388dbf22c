//! Resolution of the shell "open" command registered for a file's extension,
//! and expansion of that command's placeholders against a launch request.
//!
//! A launch request names a program, its arguments, an optional working
//! directory and a list of environment changes. Resolution finds the
//! extension of the program path, asks the association store for the command
//! template bound to it, splits the template into tokens, and replaces every
//! placeholder token by the values it stands for. The store and the tokenizer
//! belong to the platform: the caller performs each query that
//! [`resolution::Resolution`] asks for and hands the reply back.

pub mod error;
pub mod command;
pub mod expand;
pub mod extension;
mod normalize;
pub mod placeholder;
pub mod resolution;
pub mod store;
