//! What can be wrong with a command.

use vstd::prelude::*;

verus! {

/// A command that breaks the rules of the protocol.
#[derive(Debug, PartialEq, Eq)]
pub enum ProtocolError {
    /// The command has the wrong number of arguments.
    WrongArgCount(&'static str),
    /// The named argument is not what it should be.
    InvalidArgument(&'static str),
    /// The command cannot be read.
    SyntaxError,
    /// The key holds a value of another kind.
    WrongType,
}

/// What can be wrong with a command.
#[derive(Debug, PartialEq, Eq)]
pub enum CacheCatError {
    Protocol(ProtocolError),
}

/// A broken rule as plain data.
#[verifier::ext_equal]
pub enum ErrorModel {
    WrongArgCount(Seq<char>),
    InvalidArgument(Seq<char>),
    SyntaxError,
    WrongType,
}

impl View for ProtocolError {
    type V = ErrorModel;

    open spec fn view(&self) -> ErrorModel {
        match *self {
            ProtocolError::WrongArgCount(command) => ErrorModel::WrongArgCount(command@),
            ProtocolError::InvalidArgument(name) => ErrorModel::InvalidArgument(name@),
            ProtocolError::SyntaxError => ErrorModel::SyntaxError,
            ProtocolError::WrongType => ErrorModel::WrongType,
        }
    }
}

impl View for CacheCatError {
    type V = ErrorModel;

    open spec fn view(&self) -> ErrorModel {
        match *self {
            CacheCatError::Protocol(error) => error@,
        }
    }
}

/// An error is what it says, also as an error of the whole.
pub proof fn law_errors_are_what_they_say(text: &'static str, error: ProtocolError)
    ensures
        ProtocolError::WrongArgCount(text)@ == ErrorModel::WrongArgCount(text@),
        ProtocolError::InvalidArgument(text)@ == ErrorModel::InvalidArgument(text@),
        ProtocolError::SyntaxError@ == ErrorModel::SyntaxError,
        ProtocolError::WrongType@ == ErrorModel::WrongType,
        CacheCatError::Protocol(error)@ == error@,
{
}

} // verus!
