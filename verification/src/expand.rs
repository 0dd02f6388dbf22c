//! Expansion of the tokens of a command template against a launch request.

use vstd::prelude::*;
use crate::command::{
    changes, environment, lemma_changes_push, lemma_texts_push, text_of, texts, CommandView, EnvChange,
    Invocation, ResolvedCommand,
};
use crate::error::Error;
use crate::normalize::normalize_path;
use crate::placeholder::{classification, classify, Placeholder};

verus! {

/// The values that one token stands for.
///
/// `normalized` is the canonical form of the request's program path, or
/// `None` where it has none. `process_dir` is the working directory of the
/// running process, or `None` where it is not known. A token may stand for no
/// value, for one, or for several.
pub open spec fn expansion(
    token: Seq<char>,
    request: CommandView,
    normalized: Option<Seq<char>>,
    process_dir: Option<Seq<char>>,
) -> Result<Seq<Seq<char>>, Error> {
    match classification(token) {
        Placeholder::Program => match normalized {
            Some(path) => Ok(seq![path]),
            None => Err(Error::NormalizationFailure),
        },
        Placeholder::AllArguments => Ok(request.args),
        Placeholder::Argument(position) => if position < request.args.len() {
            Ok(seq![request.args[position as int]])
        } else {
            Ok(Seq::empty())
        },
        Placeholder::WorkingDirectory => match request.current_dir {
            Some(dir) => Ok(seq![dir]),
            None => match process_dir {
                Some(dir) => Ok(seq![dir]),
                None => Err(Error::WorkingDirectoryUnavailable),
            },
        },
        Placeholder::Unsupported(designator) => Err(Error::UnsupportedPlaceholder(designator)),
        Placeholder::Literal => Ok(seq![token]),
    }
}

/// The values of all of `tokens`, in order, as one list. The first token that
/// fails decides the error.
pub open spec fn flattened(
    tokens: Seq<Seq<char>>,
    request: CommandView,
    normalized: Option<Seq<char>>,
    process_dir: Option<Seq<char>>,
) -> Result<Seq<Seq<char>>, Error>
    decreases tokens.len(),
{
    if tokens.len() == 0 {
        Ok(Seq::empty())
    } else {
        match flattened(tokens.drop_last(), request, normalized, process_dir) {
            Err(e) => Err(e),
            Ok(before) => match expansion(tokens.last(), request, normalized, process_dir) {
                Err(e) => Err(e),
                Ok(values) => Ok(before + values),
            },
        }
    }
}

/// The command that a tokenized template resolves to.
///
/// The first value of the first token is the program; its other values come
/// before those of the remaining tokens in the argument list. The working
/// directory and the environment changes are those of the request.
pub open spec fn resolved(
    tokens: Seq<Seq<char>>,
    request: CommandView,
    normalized: Option<Seq<char>>,
    process_dir: Option<Seq<char>>,
) -> Result<CommandView, Error> {
    if tokens.len() == 0 {
        Err(Error::EmptyTemplate)
    } else {
        match expansion(tokens[0], request, normalized, process_dir) {
            Err(e) => Err(e),
            Ok(head) => if head.len() == 0 {
                Err(Error::EmptyTemplate)
            } else {
                match flattened(tokens.skip(1), request, normalized, process_dir) {
                    Err(e) => Err(e),
                    Ok(rest) => Ok(
                        CommandView {
                            program: head[0],
                            args: head.skip(1) + rest,
                            current_dir: request.current_dir,
                            envs: request.envs,
                        },
                    ),
                }
            }
        }
    }
}

/// Some token of the template stands for the program path.
pub open spec fn names_program(tokens: Seq<Seq<char>>) -> bool {
    exists|i: int| 0 <= i < tokens.len() && classification(#[trigger] tokens[i]) == Placeholder::Program
}

/// A list of values, or the error in its place, as plain values.
pub open spec fn values_of(outcome: Result<Vec<String>, Error>) -> Result<Seq<Seq<char>>, Error> {
    match outcome {
        Ok(list) => Ok(texts(list@)),
        Err(e) => Err(e),
    }
}

/// A resolved command, or the error in its place, as plain values.
pub open spec fn command_of(outcome: Result<ResolvedCommand, Error>) -> Result<CommandView, Error> {
    match outcome {
        Ok(command) => Ok(command@),
        Err(e) => Err(e),
    }
}

fn copy_text(text: &Option<String>) -> (copy: Option<String>)
    ensures
        text_of(copy) == text_of(*text),
{
    match text {
        Some(t) => Some(t.clone()),
        None => None,
    }
}

fn append_texts(target: &mut Vec<String>, list: &Vec<String>)
    ensures
        texts(final(target)@) == texts(old(target)@) + texts(list@),
{
    let ghost before = texts(target@);
    let mut i: usize = 0;
    while i < list.len()
        invariant
            i <= list.len(),
            texts(target@) == before + texts(list@).take(i as int),
        decreases list.len() - i,
    {
        proof {
            lemma_texts_push(target@, list[i as int]);
        }
        target.push(list[i].clone());
        i += 1;
        assert(texts(list@).take(i as int) =~= texts(list@).take(i - 1).push(list[i - 1]@));
        assert(texts(target@) =~= before + texts(list@).take(i as int));
    }
    assert(texts(list@).take(list.len() as int) =~= texts(list@));
}

fn copy_changes(list: &Vec<EnvChange>) -> (copy: Vec<EnvChange>)
    ensures
        changes(copy@) == changes(list@),
{
    let mut copy: Vec<EnvChange> = Vec::new();
    let mut i: usize = 0;
    while i < list.len()
        invariant
            i <= list.len(),
            changes(copy@) == changes(list@).take(i as int),
        decreases list.len() - i,
    {
        let change = EnvChange { name: list[i].name.clone(), value: copy_text(&list[i].value) };
        proof {
            lemma_changes_push(copy@, change);
        }
        copy.push(change);
        i += 1;
        assert(changes(list@).take(i as int) =~= changes(list@).take(i - 1).push(list[i - 1]@));
    }
    assert(changes(list@).take(list.len() as int) =~= changes(list@));
    copy
}

/// Expands one token, given the canonical form of the request's program path
/// and the working directory of the running process.
pub fn expand_token(
    token: &str,
    request: &Invocation,
    normalized: &Option<String>,
    process_dir: &Option<String>,
) -> (outcome: Result<Vec<String>, Error>)
    ensures
        values_of(outcome) == expansion(
            token@,
            request@,
            text_of(*normalized),
            text_of(*process_dir),
        ),
{
    let mut values: Vec<String> = Vec::new();
    match classify(token) {
        Placeholder::Program => match normalized {
            Some(path) => {
                values.push(path.clone());
                assert(texts(values@) =~= seq![path@]);
            },
            None => {
                return Err(Error::NormalizationFailure);
            },
        },
        Placeholder::AllArguments => {
            append_texts(&mut values, &request.args);
            assert(texts(values@) =~= texts(request.args@));
        },
        Placeholder::Argument(position) => {
            if position < request.args.len() {
                values.push(request.args[position].clone());
                assert(texts(values@) =~= seq![request.args[position as int]@]);
            } else {
                assert(texts(values@) =~= Seq::empty());
            }
        },
        Placeholder::WorkingDirectory => match &request.current_dir {
            Some(dir) => {
                values.push(dir.clone());
                assert(texts(values@) =~= seq![dir@]);
            },
            None => match process_dir {
                Some(dir) => {
                    values.push(dir.clone());
                    assert(texts(values@) =~= seq![dir@]);
                },
                None => {
                    return Err(Error::WorkingDirectoryUnavailable);
                },
            },
        },
        Placeholder::Unsupported(designator) => {
            return Err(Error::UnsupportedPlaceholder(designator));
        },
        Placeholder::Literal => {
            values.push(token.to_owned());
            assert(texts(values@) =~= seq![token@]);
        },
    }
    Ok(values)
}

/// Expands one token of a command template against `request`.
///
/// Where the token stands for the program path, the path is brought into its
/// canonical form by the file system, and the outcome is that of
/// [`expand_token`] for whatever came back. For every other token the outcome
/// is fixed by the arguments.
pub fn with_substitutions(
    token: &str,
    request: &Invocation,
    process_dir: &Option<String>,
) -> (outcome: Result<Vec<String>, Error>)
    ensures
        classification(token@) != Placeholder::Program ==> values_of(outcome) == expansion(
            token@,
            request@,
            None,
            text_of(*process_dir),
        ),
        exists|normalized: Option<Seq<char>>|
            values_of(outcome) == expansion(token@, request@, normalized, text_of(*process_dir)),
{
    let normalized: Option<String> = match classify(token) {
        Placeholder::Program => normalize_path(request.program.as_str()),
        _ => None,
    };
    expand_token(token, request, &normalized, process_dir)
}

/// An error among the first tokens of a template is the error of the whole.
pub proof fn lemma_first_error_decides(
    tokens: Seq<Seq<char>>,
    k: int,
    request: CommandView,
    normalized: Option<Seq<char>>,
    process_dir: Option<Seq<char>>,
)
    requires
        0 <= k <= tokens.len(),
        flattened(tokens.take(k), request, normalized, process_dir) is Err,
    ensures
        flattened(tokens, request, normalized, process_dir) == flattened(
            tokens.take(k),
            request,
            normalized,
            process_dir,
        ),
    decreases tokens.len(),
{
    if k == tokens.len() {
        assert(tokens.take(k) =~= tokens);
    } else {
        assert(tokens.drop_last().take(k) =~= tokens.take(k));
        lemma_first_error_decides(tokens.drop_last(), k, request, normalized, process_dir);
    }
}

/// Whether some token of the template stands for the program path.
pub fn mentions_program(tokens: &Vec<String>) -> (found: bool)
    ensures
        found == names_program(texts(tokens@)),
{
    let mut i: usize = 0;
    while i < tokens.len()
        invariant
            i <= tokens.len(),
            forall|j: int|
                0 <= j < i ==> classification(#[trigger] texts(tokens@)[j]) != Placeholder::Program,
        decreases tokens.len() - i,
    {
        match classify(tokens[i].as_str()) {
            Placeholder::Program => {
                assert(classification(texts(tokens@)[i as int]) == Placeholder::Program);
                return true;
            },
            _ => {},
        }
        i += 1;
    }
    false
}

/// Expands a tokenized template into the command to launch, given the
/// canonical form of the request's program path and the working directory of
/// the running process.
///
/// Fails with `EmptyTemplate` where there is no token or the first token
/// stands for no value, and otherwise with the error of the first token that
/// has one.
pub fn expand_template_with(
    tokens: &Vec<String>,
    request: &Invocation,
    normalized: &Option<String>,
    process_dir: &Option<String>,
) -> (outcome: Result<ResolvedCommand, Error>)
    ensures
        command_of(outcome) == resolved(
            texts(tokens@),
            request@,
            text_of(*normalized),
            text_of(*process_dir),
        ),
{
    if tokens.len() == 0 {
        return Err(Error::EmptyTemplate);
    }
    let mut args: Vec<String> = match expand_token(
        tokens[0].as_str(),
        request,
        normalized,
        process_dir,
    ) {
        Ok(head) => head,
        Err(e) => {
            return Err(e);
        },
    };
    if args.len() == 0 {
        return Err(Error::EmptyTemplate);
    }
    let ghost head = texts(args@);
    let ghost rest_tokens = texts(tokens@).skip(1);
    let program: String = args.remove(0);
    assert(texts(args@) =~= head.skip(1));
    let mut i: usize = 1;
    while i < tokens.len()
        invariant
            1 <= i <= tokens.len(),
            rest_tokens == texts(tokens@).skip(1),
            head.len() > 0,
            expansion(
                texts(tokens@)[0],
                request@,
                text_of(*normalized),
                text_of(*process_dir),
            ) == Ok::<Seq<Seq<char>>, Error>(head),
            flattened(
                rest_tokens.take(i - 1),
                request@,
                text_of(*normalized),
                text_of(*process_dir),
            ) is Ok,
            texts(args@) == head.skip(1) + flattened(
                rest_tokens.take(i - 1),
                request@,
                text_of(*normalized),
                text_of(*process_dir),
            )->Ok_0,
        decreases tokens.len() - i,
    {
        assert(rest_tokens.take(i as int).drop_last() =~= rest_tokens.take(i - 1));
        assert(rest_tokens.take(i as int).last() == tokens[i as int]@);
        match expand_token(tokens[i].as_str(), request, normalized, process_dir) {
            Ok(values) => {
                append_texts(&mut args, &values);
                assert(texts(args@) =~= head.skip(1) + flattened(
                    rest_tokens.take(i as int),
                    request@,
                    text_of(*normalized),
                    text_of(*process_dir),
                )->Ok_0);
            },
            Err(e) => {
                proof {
                    lemma_first_error_decides(
                        rest_tokens,
                        i as int,
                        request@,
                        text_of(*normalized),
                        text_of(*process_dir),
                    );
                }
                return Err(e);
            },
        }
        i += 1;
    }
    assert(rest_tokens.take(i - 1) =~= rest_tokens);
    Ok(
        ResolvedCommand {
            program,
            args,
            current_dir: copy_text(&request.current_dir),
            envs: copy_changes(&request.envs),
        },
    )
}

/// Expands a tokenized template into the command to launch.
///
/// Where some token stands for the program path, the path is brought into
/// its canonical form by the file system, once, and the outcome is that of
/// [`expand_template_with`] for whatever came back. For a template without
/// such a token the outcome is fixed by the arguments.
pub fn expand_template(
    tokens: &Vec<String>,
    request: &Invocation,
    process_dir: &Option<String>,
) -> (outcome: Result<ResolvedCommand, Error>)
    ensures
        !names_program(texts(tokens@)) ==> command_of(outcome) == resolved(
            texts(tokens@),
            request@,
            None,
            text_of(*process_dir),
        ),
        exists|normalized: Option<Seq<char>>|
            command_of(outcome) == resolved(
                texts(tokens@),
                request@,
                normalized,
                text_of(*process_dir),
            ),
{
    let normalized: Option<String> = if mentions_program(tokens) {
        normalize_path(request.program.as_str())
    } else {
        None
    };
    expand_template_with(tokens, request, &normalized, process_dir)
}

/// Literal tokens stand for themselves, whatever the request holds.
pub proof fn lemma_literal_tokens_flatten(
    tokens: Seq<Seq<char>>,
    request: CommandView,
    normalized: Option<Seq<char>>,
    process_dir: Option<Seq<char>>,
)
    requires
        forall|i: int|
            0 <= i < tokens.len() ==> classification(#[trigger] tokens[i]) == Placeholder::Literal,
    ensures
        flattened(tokens, request, normalized, process_dir) == Ok::<Seq<Seq<char>>, Error>(tokens),
    decreases tokens.len(),
{
    if tokens.len() == 0 {
        assert(tokens =~= Seq::empty());
    } else {
        lemma_literal_tokens_flatten(tokens.drop_last(), request, normalized, process_dir);
        assert(classification(tokens[tokens.len() - 1]) == Placeholder::Literal);
        assert(tokens.drop_last() + seq![tokens.last()] =~= tokens);
    }
}

/// A template without placeholders resolves to itself: its first token is the
/// program and its other tokens are the arguments, word for word, whatever
/// the arguments of the request are. Only the working directory and the
/// environment changes come from the request.
pub proof fn lemma_literal_template(
    tokens: Seq<Seq<char>>,
    request: CommandView,
    normalized: Option<Seq<char>>,
    process_dir: Option<Seq<char>>,
)
    requires
        tokens.len() > 0,
        forall|i: int|
            0 <= i < tokens.len() ==> classification(#[trigger] tokens[i]) == Placeholder::Literal,
    ensures
        resolved(tokens, request, normalized, process_dir) == Ok::<CommandView, Error>(
            CommandView {
                program: tokens[0],
                args: tokens.skip(1),
                current_dir: request.current_dir,
                envs: request.envs,
            },
        ),
{
    assert(classification(tokens[0]) == Placeholder::Literal);
    assert forall|i: int| 0 <= i < tokens.skip(1).len() implies classification(
        #[trigger] tokens.skip(1)[i],
    ) == Placeholder::Literal by {
        assert(tokens.skip(1)[i] == tokens[i + 1]);
    }
    lemma_literal_tokens_flatten(tokens.skip(1), request, normalized, process_dir);
    assert(seq![tokens[0]].skip(1) + tokens.skip(1) =~= tokens.skip(1));
}

/// The canonical form of the program path matters only to a template that
/// has a token for it.
pub proof fn lemma_normalization_unused(
    tokens: Seq<Seq<char>>,
    request: CommandView,
    first: Option<Seq<char>>,
    second: Option<Seq<char>>,
    process_dir: Option<Seq<char>>,
)
    requires
        !names_program(tokens),
    ensures
        flattened(tokens, request, first, process_dir) == flattened(
            tokens,
            request,
            second,
            process_dir,
        ),
        resolved(tokens, request, first, process_dir) == resolved(
            tokens,
            request,
            second,
            process_dir,
        ),
    decreases tokens.len(),
{
    if tokens.len() > 0 {
        assert forall|i: int| 0 <= i < tokens.len() implies classification(#[trigger] tokens[i])
            != Placeholder::Program by {}
        assert(!names_program(tokens.drop_last())) by {
            if names_program(tokens.drop_last()) {
                let i = choose|i: int|
                    0 <= i < tokens.drop_last().len() && classification(
                        #[trigger] tokens.drop_last()[i],
                    ) == Placeholder::Program;
                assert(tokens.drop_last()[i] == tokens[i]);
            }
        }
        assert(!names_program(tokens.skip(1))) by {
            if names_program(tokens.skip(1)) {
                let i = choose|i: int|
                    0 <= i < tokens.skip(1).len() && classification(#[trigger] tokens.skip(1)[i])
                        == Placeholder::Program;
                assert(tokens.skip(1)[i] == tokens[i + 1]);
            }
        }
        lemma_normalization_unused(tokens.drop_last(), request, first, second, process_dir);
        lemma_normalization_unused(tokens.skip(1), request, first, second, process_dir);
        assert(classification(tokens[tokens.len() - 1]) != Placeholder::Program);
        assert(classification(tokens[0]) != Placeholder::Program);
    }
}

/// A resolved command launches in the working directory that the request
/// names, or inherits it where the request names none, and its environment is
/// that of the request over whatever is inherited.
pub proof fn lemma_context_carried_over(
    tokens: Seq<Seq<char>>,
    request: CommandView,
    normalized: Option<Seq<char>>,
    process_dir: Option<Seq<char>>,
    inherited: Map<Seq<char>, Seq<char>>,
)
    requires
        resolved(tokens, request, normalized, process_dir) is Ok,
    ensures
        resolved(tokens, request, normalized, process_dir)->Ok_0.current_dir == request.current_dir,
        environment(inherited, resolved(tokens, request, normalized, process_dir)->Ok_0.envs)
            == environment(inherited, request.envs),
{
}

} // verus!
