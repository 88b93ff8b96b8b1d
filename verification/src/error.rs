//! The failures of a query, by the layer they come from.

use vstd::prelude::*;

verus! {

/// `mailparse::MailParseError`: why bytes could not be read as a message,
/// or a body not be decoded.
#[verifier::external_type_specification]
#[verifier::external_body]
pub struct ExParseError(mailparse::MailParseError);

/// What a failed query reports: the layer that failed, with its message.
#[derive(Debug, PartialEq)]
pub enum Error {
    /// The mail server rejected or failed a command.
    IMap(String),
    /// A message could not be read as MIME.
    Parse(String),
    /// The encrypted connection could not be set up or broke.
    Tls(String),
}

/// An error as character sequences.
pub enum ErrorView {
    IMap(Seq<char>),
    Parse(Seq<char>),
    Tls(Seq<char>),
}

impl ErrorView {
    /// The message of the layer that failed.
    pub open spec fn message(self) -> Seq<char> {
        match self {
            ErrorView::IMap(text) => text,
            ErrorView::Parse(text) => text,
            ErrorView::Tls(text) => text,
        }
    }
}

impl View for Error {
    type V = ErrorView;

    open spec fn view(&self) -> ErrorView {
        match self {
            Error::IMap(text) => ErrorView::IMap(text@),
            Error::Parse(text) => ErrorView::Parse(text@),
            Error::Tls(text) => ErrorView::Tls(text@),
        }
    }
}

/// The description that a `mailparse::MailParseError` gives of itself.
pub uninterp spec fn parse_failure(error: mailparse::MailParseError) -> Seq<char>;

/// `std::error::Error::description` of `mailparse::MailParseError`: the
/// description of a wrapped decoding error, the text of an encoding error,
/// one fixed sentence for every other.
#[verifier::external_body]
fn describe_parse(error: &mailparse::MailParseError) -> (text: String)
    ensures
        text@ == parse_failure(*error),
{
    std::error::Error::description(error).to_owned()
}

impl Error {
    /// The message of the layer that failed.
    pub fn to_string(&self) -> (text: String)
        ensures
            text@ == self@.message(),
    {
        match self {
            Error::IMap(text) => text.clone(),
            Error::Parse(text) => text.clone(),
            Error::Tls(text) => text.clone(),
        }
    }
}

impl From<mailparse::MailParseError> for Error {
    /// The parse error with the description of the parser's error.
    fn from(error: mailparse::MailParseError) -> (e: Error)
        ensures
            e@ == ErrorView::Parse(parse_failure(error)),
    {
        Error::Parse(describe_parse(&error))
    }
}

/// `from` states what it returns by the view of the error; of two errors
/// of one view neither is said to be the other.
impl vstd::std_specs::convert::FromSpecImpl<mailparse::MailParseError> for Error {
    open spec fn obeys_from_spec() -> bool {
        false
    }

    open spec fn from_spec(error: mailparse::MailParseError) -> Error {
        choose|e: Error| e@ == ErrorView::Parse(parse_failure(error))
    }
}

} // verus!
