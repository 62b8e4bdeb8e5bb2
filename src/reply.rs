//! What a resolver answers, and how the outcome of reading a file maps to it.

use vstd::prelude::*;

verus! {

/// The answer to one request.
pub enum Reply<B> {
    /// Found: the content, with a content type where one is known.
    Content { body: B, content_type: Option<String> },
    /// Nothing to serve at the requested path.
    NotFound,
    /// The requested path leaves the served root.
    Forbidden,
}

impl<B> Reply<B> {
    /// The HTTP status code of the answer.
    pub fn status(&self) -> (r: u16)
        ensures
            r == match self {
                Reply::Content { .. } => 200u16,
                Reply::NotFound => 404u16,
                Reply::Forbidden => 403u16,
            },
    {
        match self {
            Reply::Content { .. } => 200,
            Reply::NotFound => 404,
            Reply::Forbidden => 403,
        }
    }
}

/// The outcome of reading a file from its store.
pub enum FileRead<B, E> {
    /// The read succeeded with this content.
    Found(B),
    /// The store reports that the file does not exist.
    Missing,
    /// Any other failure of the read.
    Failed(E),
}

/// The answer owed for a read outcome: the content on success, not found when
/// the file does not exist, and the failure itself otherwise.
pub open spec fn settled<B, E>(read: FileRead<B, E>) -> Result<Reply<B>, E> {
    match read {
        FileRead::Found(b) => Ok(Reply::Content { body: b, content_type: None }),
        FileRead::Missing => Ok(Reply::NotFound),
        FileRead::Failed(e) => Err(e),
    }
}

/// Maps the outcome of reading a file to the answer, passing any failure
/// other than a missing file on to the caller.
pub fn settle_read<B, E>(read: FileRead<B, E>) -> (r: Result<Reply<B>, E>)
    ensures
        r == settled(read),
{
    match read {
        FileRead::Found(b) => Ok(Reply::Content { body: b, content_type: None }),
        FileRead::Missing => Ok(Reply::NotFound),
        FileRead::Failed(e) => Err(e),
    }
}

/// An answer with its body as bytes, as values.
pub ghost enum Answer {
    Content(Seq<u8>, Option<Seq<char>>),
    NotFound,
    Forbidden,
}

/// The value of an answer whose body is bytes.
pub open spec fn answer_of(r: Reply<Vec<u8>>) -> Answer {
    match r {
        Reply::Content { body, content_type } => Answer::Content(
            body@,
            match content_type {
                Some(t) => Some(t@),
                None => None,
            },
        ),
        Reply::NotFound => Answer::NotFound,
        Reply::Forbidden => Answer::Forbidden,
    }
}

} // verus!
