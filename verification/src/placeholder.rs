//! The placeholder codes that a command template may hold.

use vstd::prelude::*;

verus! {

/// What a token of a command template stands for.
#[derive(Clone, Copy, Debug, PartialEq, Eq, Structural)]
pub enum Placeholder {
    /// `%0`, `%1`, `%l`, `%L`, `%d`, `%D`: the program path of the request.
    Program,
    /// `%~`, `%*`: every argument of the request.
    AllArguments,
    /// `%2` to `%9`: the argument at the given position, `%2` being position 0.
    Argument(usize),
    /// `%w`, `%W`: the working directory.
    WorkingDirectory,
    /// Any other token of two characters that starts with `%`.
    Unsupported(char),
    /// Any other token: it stands for itself.
    Literal,
}

/// The meaning of the designator `c` in a token `%c`.
pub open spec fn designated(c: char) -> Placeholder {
    if c == '0' || c == '1' || c == 'l' || c == 'L' || c == 'd' || c == 'D' {
        Placeholder::Program
    } else if c == '~' || c == '*' {
        Placeholder::AllArguments
    } else if c == '2' {
        Placeholder::Argument(0)
    } else if c == '3' {
        Placeholder::Argument(1)
    } else if c == '4' {
        Placeholder::Argument(2)
    } else if c == '5' {
        Placeholder::Argument(3)
    } else if c == '6' {
        Placeholder::Argument(4)
    } else if c == '7' {
        Placeholder::Argument(5)
    } else if c == '8' {
        Placeholder::Argument(6)
    } else if c == '9' {
        Placeholder::Argument(7)
    } else if c == 'w' || c == 'W' {
        Placeholder::WorkingDirectory
    } else {
        Placeholder::Unsupported(c)
    }
}

/// The meaning of a whole token. Only a token of exactly two characters whose
/// first is `%` is a placeholder; every other token is literal text.
pub open spec fn classification(token: Seq<char>) -> Placeholder {
    if token.len() == 2 && token[0] == '%' {
        designated(token[1])
    } else {
        Placeholder::Literal
    }
}

/// Reads a token of a command template.
pub fn classify(token: &str) -> (p: Placeholder)
    ensures
        p == classification(token@),
{
    if token.unicode_len() != 2 {
        return Placeholder::Literal;
    }
    if token.get_char(0) != '%' {
        return Placeholder::Literal;
    }
    let c: char = token.get_char(1);
    if c == '0' || c == '1' || c == 'l' || c == 'L' || c == 'd' || c == 'D' {
        Placeholder::Program
    } else if c == '~' || c == '*' {
        Placeholder::AllArguments
    } else if c == '2' {
        Placeholder::Argument(0)
    } else if c == '3' {
        Placeholder::Argument(1)
    } else if c == '4' {
        Placeholder::Argument(2)
    } else if c == '5' {
        Placeholder::Argument(3)
    } else if c == '6' {
        Placeholder::Argument(4)
    } else if c == '7' {
        Placeholder::Argument(5)
    } else if c == '8' {
        Placeholder::Argument(6)
    } else if c == '9' {
        Placeholder::Argument(7)
    } else if c == 'w' || c == 'W' {
        Placeholder::WorkingDirectory
    } else {
        Placeholder::Unsupported(c)
    }
}

} // verus!
