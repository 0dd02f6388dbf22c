//! The two queries that the association store is asked, and what its replies
//! mean.
//!
//! The store is asked twice for the open command of an extension: first with
//! no buffer, to learn how long the command is, then with a buffer of that
//! length and one more character for the terminator. Both queries fall back
//! to the wildcard association and forbid truncation. The store may change
//! between them; a command that grew meanwhile is reported, never cut.

use vstd::prelude::*;
use crate::error::Error;

verus! {

/// The status with which the store says that nothing is registered for an
/// extension: the system error 1155 as a status code.
pub const NO_ASSOCIATION: i32 = -2147023741;

/// The store's reply to the query without a buffer.
#[derive(Clone, Copy, Debug, PartialEq, Eq, Structural)]
pub enum LengthReply {
    /// Nothing is registered.
    NotFound,
    /// The store failed with this status code.
    Failed(i32),
    /// A command is registered, and this is its length in characters.
    Required(u32),
}

/// The store's reply to the query with a buffer.
#[derive(Clone, Debug, PartialEq, Eq)]
pub enum TemplateReply {
    /// Nothing is registered.
    NotFound,
    /// The store failed with the status `code`, and reported `length`.
    Failed { code: i32, length: u32 },
    /// The store wrote `length` characters into `buffer`.
    Filled { buffer: Vec<u16>, length: u32 },
}

/// A reply to the query with a buffer, as plain values.
pub enum TemplateReplyView {
    NotFound,
    Failed { code: i32, length: u32 },
    Filled { buffer: Seq<u16>, length: u32 },
}

impl View for TemplateReply {
    type V = TemplateReplyView;

    open spec fn view(&self) -> TemplateReplyView {
        match *self {
            TemplateReply::NotFound => TemplateReplyView::NotFound,
            TemplateReply::Failed { code, length } => TemplateReplyView::Failed { code, length },
            TemplateReply::Filled { buffer, length } => TemplateReplyView::Filled {
                buffer: buffer@,
                length,
            },
        }
    }
}

/// What a status code and the length beside it say of the first query. A
/// negative status is a failure; of those, one says that nothing is
/// registered.
pub open spec fn length_reply_of(status: i32, length: u32) -> LengthReply {
    if status == NO_ASSOCIATION {
        LengthReply::NotFound
    } else if status < 0 {
        LengthReply::Failed(status)
    } else {
        LengthReply::Required(length)
    }
}

/// What a status code, the length beside it and the buffer say of the second
/// query.
pub open spec fn template_reply_of(status: i32, length: u32, buffer: Seq<u16>) -> TemplateReplyView {
    if status == NO_ASSOCIATION {
        TemplateReplyView::NotFound
    } else if status < 0 {
        TemplateReplyView::Failed { code: status, length }
    } else {
        TemplateReplyView::Filled { buffer, length }
    }
}

/// The length that the first query found, or why there is none.
pub open spec fn required_length(reply: LengthReply) -> Result<u32, Error> {
    match reply {
        LengthReply::NotFound => Err(Error::NoAssociation),
        LengthReply::Failed(code) => Err(Error::StoreFailure(code)),
        LengthReply::Required(length) => Ok(length),
    }
}

/// `k` is where the text of `buffer` ends: at its first NUL, or at its end
/// where it holds none.
pub open spec fn ends_text(buffer: Seq<u16>, k: int) -> bool {
    &&& 0 <= k <= buffer.len()
    &&& forall|j: int| 0 <= j < k ==> buffer[j] != 0
    &&& k < buffer.len() ==> buffer[k] == 0
}

/// The characters of `buffer` before its first NUL, or all of them where it
/// holds none.
pub open spec fn before_terminator(buffer: Seq<u16>) -> Seq<u16> {
    buffer.take(choose|k: int| ends_text(buffer, k))
}

/// The text of a buffer ends in one place only.
pub proof fn lemma_terminator_at(buffer: Seq<u16>, k: int)
    requires
        ends_text(buffer, k),
    ensures
        before_terminator(buffer) == buffer.take(k),
{
    let c = choose|c: int| ends_text(buffer, c);
    assert(ends_text(buffer, c));
    if c < k {
        assert(buffer[c] != 0);
    } else if k < c {
        assert(buffer[k] != 0);
    }
}

/// The characters that the store wrote: the first `length` of the buffer.
pub open spec fn written(buffer: Seq<u16>, length: u32) -> Seq<u16> {
    if length <= buffer.len() {
        buffer.take(length as int)
    } else {
        buffer
    }
}

/// The number of characters that a reply to the second query reports, where
/// it reports one.
pub open spec fn length_of(reply: TemplateReplyView) -> Option<u32> {
    match reply {
        TemplateReplyView::NotFound => None,
        TemplateReplyView::Failed { length, .. } => Some(length),
        TemplateReplyView::Filled { length, .. } => Some(length),
    }
}

/// The reply reports more characters than the first query found.
pub open spec fn grown(reported: u32, reply: TemplateReplyView) -> bool {
    match length_of(reply) {
        Some(length) => length > reported,
        None => false,
    }
}

/// The command template that the second query gave, or why there is none.
///
/// A reply that reports more characters than the first query found fails
/// with `StoreInconsistent`, whatever else it says.
pub open spec fn template_of(reported: u32, reply: TemplateReplyView) -> Result<Seq<u16>, Error> {
    match reply {
        TemplateReplyView::NotFound => Err(Error::NoAssociation),
        TemplateReplyView::Failed { code, length } => if length > reported {
            Err(Error::StoreInconsistent)
        } else {
            Err(Error::StoreFailure(code))
        },
        TemplateReplyView::Filled { buffer, length } => if length > reported {
            Err(Error::StoreInconsistent)
        } else {
            Ok(before_terminator(written(buffer, length)))
        },
    }
}

/// Reads the outcome of the query without a buffer.
pub fn length_reply(status: i32, length: u32) -> (reply: LengthReply)
    ensures
        reply == length_reply_of(status, length),
{
    if status == NO_ASSOCIATION {
        LengthReply::NotFound
    } else if status < 0 {
        LengthReply::Failed(status)
    } else {
        LengthReply::Required(length)
    }
}

/// The length that the first query found, or the error that its reply
/// stands for.
pub fn reported_length(reply: LengthReply) -> (outcome: Result<u32, Error>)
    ensures
        outcome == required_length(reply),
{
    match reply {
        LengthReply::NotFound => Err(Error::NoAssociation),
        LengthReply::Failed(code) => Err(Error::StoreFailure(code)),
        LengthReply::Required(length) => Ok(length),
    }
}

/// Reads the outcome of the query with a buffer.
pub fn template_reply(status: i32, length: u32, buffer: Vec<u16>) -> (reply: TemplateReply)
    ensures
        reply@ == template_reply_of(status, length, buffer@),
{
    if status == NO_ASSOCIATION {
        TemplateReply::NotFound
    } else if status < 0 {
        TemplateReply::Failed { code: status, length }
    } else {
        TemplateReply::Filled { buffer, length }
    }
}

/// The number of characters of the buffer for the second query: the length
/// that the first query found, and one for the terminator.
pub fn buffer_len(reported: u32) -> (len: u64)
    ensures
        len == reported + 1,
{
    let wide: u64 = reported as u64;
    wide + 1
}

/// A command template, or the error in its place, as plain values.
pub open spec fn template_view(outcome: Result<Vec<u16>, Error>) -> Result<Seq<u16>, Error> {
    match outcome {
        Ok(template) => Ok(template@),
        Err(e) => Err(e),
    }
}

/// Checks the reply to the second query against the length that the first
/// one found, and takes the command template out of the buffer.
pub fn template_text(reported: u32, reply: &TemplateReply) -> (outcome: Result<Vec<u16>, Error>)
    ensures
        template_view(outcome) == template_of(reported, reply@),
        grown(reported, reply@) ==> outcome == Err::<Vec<u16>, Error>(Error::StoreInconsistent),
{
    match reply {
        TemplateReply::NotFound => Err(Error::NoAssociation),
        TemplateReply::Failed { code, length } => {
            if *length > reported {
                Err(Error::StoreInconsistent)
            } else {
                Err(Error::StoreFailure(*code))
            }
        },
        TemplateReply::Filled { buffer, length } => {
            if *length > reported {
                return Err(Error::StoreInconsistent);
            }
            let limit: usize = if (*length as usize) <= buffer.len() {
                *length as usize
            } else {
                buffer.len()
            };
            let ghost units = written(buffer@, *length);
            assert(units =~= buffer@.take(limit as int));
            let mut template: Vec<u16> = Vec::new();
            let mut k: usize = 0;
            while k < limit && buffer[k] != 0
                invariant
                    k <= limit <= buffer.len(),
                    units == buffer@.take(limit as int),
                    template@ == units.take(k as int),
                    forall|j: int| 0 <= j < k ==> units[j] != 0,
                decreases limit - k,
            {
                template.push(buffer[k]);
                k += 1;
                assert(template@ =~= units.take(k as int));
            }
            proof {
                lemma_terminator_at(units, k as int);
            }
            Ok(template)
        },
    }
}

} // verus!
