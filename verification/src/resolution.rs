//! The course of one resolution: which query is to be made next, and what
//! its reply leads to.
//!
//! The association store and the tokenizer belong to the platform. A
//! [`Resolution`] says which of them is to be asked and for what; the caller
//! asks, and hands the reply to [`Resolution::advance`] until the resolution
//! is [`Resolution::Resolved`] or [`Resolution::Failed`].

use vstd::prelude::*;
use crate::command::{text_of, texts, CommandView, Invocation, ResolvedCommand};
use crate::error::Error;
use crate::expand::{command_of, expand_template, expand_template_with, names_program, resolved};
use crate::extension::{extension, find_ext};
use crate::store::{
    grown, reported_length, required_length, template_of, template_text, LengthReply, TemplateReply,
    TemplateReplyView,
};

verus! {

/// The state of a resolution. The first three states each ask for one query.
#[derive(Clone, Debug, PartialEq, Eq)]
pub enum Resolution {
    /// Ask the store, with no buffer, how long the open command of `key` is.
    NeedLength { key: String },
    /// Ask the store for the open command of `key`, with a buffer for the
    /// `reported` characters that the first query found and a terminator.
    NeedTemplate { key: String, reported: u32 },
    /// Split `template` into tokens.
    NeedTokens { template: Vec<u16> },
    /// The command to launch.
    Resolved(ResolvedCommand),
    /// The resolution has failed, and nothing is launched.
    Failed(Error),
}

/// What the tokenizer made of a template.
#[derive(Clone, Debug, PartialEq, Eq)]
pub enum TokenReply {
    /// The tokenizer itself failed with this error code.
    Failed(u32),
    /// The tokens of the template, in order; there may be none.
    Tokens(Vec<String>),
}

/// The reply to a query.
#[derive(Clone, Debug, PartialEq, Eq)]
pub enum Reply {
    /// To the store query without a buffer.
    Length(LengthReply),
    /// To the store query with a buffer.
    Template(TemplateReply),
    /// To the tokenizer.
    Tokens(TokenReply),
}

/// The state of a resolution as plain values.
pub enum ResolutionView {
    NeedLength { key: Seq<char> },
    NeedTemplate { key: Seq<char>, reported: u32 },
    NeedTokens { template: Seq<u16> },
    Resolved(CommandView),
    Failed(Error),
}

/// A tokenizer's reply as plain values.
pub enum TokenReplyView {
    Failed(u32),
    Tokens(Seq<Seq<char>>),
}

/// A reply as plain values.
pub enum ReplyView {
    Length(LengthReply),
    Template(TemplateReplyView),
    Tokens(TokenReplyView),
}

impl View for Resolution {
    type V = ResolutionView;

    open spec fn view(&self) -> ResolutionView {
        match *self {
            Resolution::NeedLength { key } => ResolutionView::NeedLength { key: key@ },
            Resolution::NeedTemplate { key, reported } => ResolutionView::NeedTemplate {
                key: key@,
                reported,
            },
            Resolution::NeedTokens { template } => ResolutionView::NeedTokens {
                template: template@,
            },
            Resolution::Resolved(command) => ResolutionView::Resolved(command@),
            Resolution::Failed(e) => ResolutionView::Failed(e),
        }
    }
}

impl View for TokenReply {
    type V = TokenReplyView;

    open spec fn view(&self) -> TokenReplyView {
        match *self {
            TokenReply::Failed(code) => TokenReplyView::Failed(code),
            TokenReply::Tokens(tokens) => TokenReplyView::Tokens(texts(tokens@)),
        }
    }
}

impl View for Reply {
    type V = ReplyView;

    open spec fn view(&self) -> ReplyView {
        match *self {
            Reply::Length(reply) => ReplyView::Length(reply),
            Reply::Template(reply) => ReplyView::Template(reply@),
            Reply::Tokens(reply) => ReplyView::Tokens(reply@),
        }
    }
}

/// The state in which the resolution of a request for `program` starts.
///
/// A path that holds a NUL cannot be a lookup key. Any other path is looked
/// up under its extension.
pub open spec fn initial(program: Seq<char>) -> ResolutionView {
    if program.contains('\0') {
        ResolutionView::Failed(Error::InvalidInput)
    } else {
        match extension(program) {
            Some(key) => ResolutionView::NeedLength { key },
            None => ResolutionView::Failed(Error::NoExtension),
        }
    }
}

/// The state that `reply` leads to from `state`.
///
/// A reply moves the resolution on only where it answers the query that the
/// state asks for; any other reply leaves the state as it is, and so does
/// every reply once the resolution is over. `normalized` is the canonical
/// form of the request's program path, `process_dir` the working directory of
/// the running process.
pub open spec fn next(
    state: ResolutionView,
    reply: ReplyView,
    request: CommandView,
    normalized: Option<Seq<char>>,
    process_dir: Option<Seq<char>>,
) -> ResolutionView {
    match (state, reply) {
        (ResolutionView::NeedLength { key }, ReplyView::Length(found)) => match required_length(
            found,
        ) {
            Ok(reported) => ResolutionView::NeedTemplate { key, reported },
            Err(e) => ResolutionView::Failed(e),
        },
        (
            ResolutionView::NeedTemplate { key, reported },
            ReplyView::Template(filled),
        ) => match template_of(reported, filled) {
            Ok(template) => ResolutionView::NeedTokens { template },
            Err(e) => ResolutionView::Failed(e),
        },
        (ResolutionView::NeedTokens { template }, ReplyView::Tokens(split)) => match split {
            TokenReplyView::Failed(code) => ResolutionView::Failed(Error::TokenizerFailure(code)),
            TokenReplyView::Tokens(tokens) => match resolved(
                tokens,
                request,
                normalized,
                process_dir,
            ) {
                Ok(command) => ResolutionView::Resolved(command),
                Err(e) => ResolutionView::Failed(e),
            },
        },
        _ => state,
    }
}

/// The reply hands tokens to a state that waits for them, and one of them
/// stands for the program path: the step needs the path's canonical form.
pub open spec fn needs_normalization(state: ResolutionView, reply: ReplyView) -> bool {
    &&& state is NeedTokens
    &&& reply matches ReplyView::Tokens(TokenReplyView::Tokens(tokens))
    &&& names_program(tokens)
}

fn holds_nul(text: &str) -> (found: bool)
    ensures
        found == text@.contains('\0'),
{
    let n: usize = text.unicode_len();
    let mut i: usize = 0;
    while i < n
        invariant
            i <= n,
            n == text@.len(),
            forall|j: int| 0 <= j < i ==> text@[j] != '\0',
        decreases n - i,
    {
        if text.get_char(i) == '\0' {
            return true;
        }
        i += 1;
    }
    false
}

fn outcome_state(outcome: Result<ResolvedCommand, Error>) -> (state: Resolution)
    ensures
        state@ == match outcome {
            Ok(command) => ResolutionView::Resolved(command@),
            Err(e) => ResolutionView::Failed(e),
        },
{
    match outcome {
        Ok(command) => Resolution::Resolved(command),
        Err(e) => Resolution::Failed(e),
    }
}

impl Resolution {
    /// Starts the resolution of `request`: finds the extension of its program
    /// path, under which the store is to be asked.
    pub fn begin(request: &Invocation) -> (state: Resolution)
        ensures
            state@ == initial(request@.program),
    {
        if holds_nul(request.program.as_str()) {
            return Resolution::Failed(Error::InvalidInput);
        }
        match find_ext(request.program.as_str()) {
            Ok(key) => Resolution::NeedLength { key: key.to_owned() },
            Err(e) => Resolution::Failed(e),
        }
    }

    /// Whether the resolution is over: resolved or failed.
    pub fn is_over(&self) -> (over: bool)
        ensures
            over == (self@ is Resolved || self@ is Failed),
    {
        match self {
            Resolution::Resolved(_) => true,
            Resolution::Failed(_) => true,
            _ => false,
        }
    }

    /// Moves the resolution on by one reply, given the canonical form of the
    /// request's program path and the working directory of the running
    /// process.
    pub fn advance_with(
        self,
        reply: Reply,
        request: &Invocation,
        normalized: &Option<String>,
        process_dir: &Option<String>,
    ) -> (state: Resolution)
        ensures
            state@ == next(
                self@,
                reply@,
                request@,
                text_of(*normalized),
                text_of(*process_dir),
            ),
    {
        match (self, reply) {
            (Resolution::NeedLength { key }, Reply::Length(found)) => match reported_length(found) {
                Ok(reported) => Resolution::NeedTemplate { key, reported },
                Err(e) => Resolution::Failed(e),
            },
            (Resolution::NeedTemplate { key, reported }, Reply::Template(filled)) => {
                match template_text(reported, &filled) {
                    Ok(template) => Resolution::NeedTokens { template },
                    Err(e) => Resolution::Failed(e),
                }
            },
            (Resolution::NeedTokens { template }, Reply::Tokens(split)) => match split {
                TokenReply::Failed(code) => Resolution::Failed(Error::TokenizerFailure(code)),
                TokenReply::Tokens(tokens) => outcome_state(
                    expand_template_with(&tokens, request, normalized, process_dir),
                ),
            },
            (state, _) => state,
        }
    }

    /// Moves the resolution on by one reply.
    ///
    /// Where the reply hands over tokens of which one stands for the program
    /// path, the path is brought into its canonical form by the file system,
    /// and the new state is that of [`Resolution::advance_with`] for whatever
    /// came back. Every other step is fixed by the arguments.
    pub fn advance(
        self,
        reply: Reply,
        request: &Invocation,
        process_dir: &Option<String>,
    ) -> (state: Resolution)
        ensures
            !needs_normalization(self@, reply@) ==> state@ == next(
                self@,
                reply@,
                request@,
                None,
                text_of(*process_dir),
            ),
            exists|normalized: Option<Seq<char>>|
                state@ == next(self@, reply@, request@, normalized, text_of(*process_dir)),
    {
        let ghost before = self@;
        let ghost answer = reply@;
        let ghost dir = text_of(*process_dir);
        match (self, reply) {
            (Resolution::NeedTokens { template }, Reply::Tokens(TokenReply::Tokens(tokens))) => {
                let outcome = expand_template(&tokens, request, process_dir);
                let state = outcome_state(outcome);
                proof {
                    let normalized = choose|normalized: Option<Seq<char>>|
                        command_of(outcome) == resolved(
                            texts(tokens@),
                            request@,
                            normalized,
                            dir,
                        );
                    assert(state@ == next(before, answer, request@, normalized, dir));
                }
                state
            },
            (state, reply) => {
                let state = state.advance_with(reply, request, &None, process_dir);
                assert(state@ == next(before, answer, request@, None, dir));
                state
            },
        }
    }
}

/// The reply answers the query that the state asks for.
pub open spec fn answers(state: ResolutionView, reply: ReplyView) -> bool {
    ||| state is NeedLength && reply is Length
    ||| state is NeedTemplate && reply is Template
    ||| state is NeedTokens && reply is Tokens
}

/// The number of queries that may still be needed from `state` on.
pub open spec fn queries_left(state: ResolutionView) -> nat {
    match state {
        ResolutionView::NeedLength { .. } => 3,
        ResolutionView::NeedTemplate { .. } => 2,
        ResolutionView::NeedTokens { .. } => 1,
        ResolutionView::Resolved(_) => 0,
        ResolutionView::Failed(_) => 0,
    }
}

/// Every reply that answers the state's query brings the resolution closer to
/// its end, so three queries are enough; every other reply changes nothing,
/// and a resolution that is over stays as it is.
pub proof fn lemma_resolution_progress(
    state: ResolutionView,
    reply: ReplyView,
    request: CommandView,
    normalized: Option<Seq<char>>,
    process_dir: Option<Seq<char>>,
)
    ensures
        answers(state, reply) ==> queries_left(
            next(state, reply, request, normalized, process_dir),
        ) < queries_left(state),
        !answers(state, reply) ==> next(state, reply, request, normalized, process_dir) == state,
        queries_left(state) == 0 ==> next(state, reply, request, normalized, process_dir) == state,
{
}

/// A reply to the second query that reports more characters than the first
/// query found fails the resolution with `StoreInconsistent`: the command is
/// never taken from a buffer that was too short for it.
pub proof fn lemma_grown_command_is_inconsistent(
    key: Seq<char>,
    reported: u32,
    reply: TemplateReplyView,
    request: CommandView,
    normalized: Option<Seq<char>>,
    process_dir: Option<Seq<char>>,
)
    requires
        grown(reported, reply),
    ensures
        next(
            ResolutionView::NeedTemplate { key, reported },
            ReplyView::Template(reply),
            request,
            normalized,
            process_dir,
        ) == ResolutionView::Failed(Error::StoreInconsistent),
{
}

} // verus!
