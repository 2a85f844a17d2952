//! The error type shared by every fallible operation of the crate.
use vstd::prelude::*;
use crate::text::{lossy_string, lossy_text};

verus! {

/// What went wrong.
#[derive(Debug, Clone, Copy, PartialEq, Eq, Structural)]
pub enum ErrorKind {
    /// A required argument was never given.
    MissingArgument,
    /// An option that needs a value was the last argument.
    MissingValue,
    /// An option that the program does not accept, or one given twice.
    UnexpectedArgument,
    /// A positional argument that the program does not accept, or one given twice.
    UnexpectedPositional,
    /// A value was attached with `=` to an option whose value was never read.
    UnexpectedValue,
    /// A value could not be interpreted.
    InvalidValue,
    /// A value had to be text but is not valid UTF-8.
    InvalidUtf8,
    /// An option name is empty or not valid UTF-8.
    InvalidOptionName,
    /// A value was asked for where none can be taken.
    ValueUnavailable,
}

/// The mathematical content of an [`Error`]: its kind and the argument it refers to,
/// as raw bytes.
pub struct ErrorModel {
    pub kind: ErrorKind,
    pub argument: Option<Seq<u8>>,
}

/// An error with the argument (raw bytes) that caused it, where there is one.
#[derive(Debug)]
pub struct Error {
    kind: ErrorKind,
    argument: Option<Vec<u8>>,
}

/// The error model with the given kind and argument.
pub open spec fn error_model(kind: ErrorKind, argument: Option<Seq<u8>>) -> ErrorModel {
    ErrorModel { kind, argument }
}

impl View for Error {
    type V = ErrorModel;

    closed spec fn view(&self) -> ErrorModel {
        ErrorModel {
            kind: self.kind,
            argument: match self.argument {
                Some(a) => Some(a@),
                None => None,
            },
        }
    }
}

/// The message that introduces each kind of error.
pub open spec fn message_of(kind: ErrorKind) -> &'static str {
    match kind {
        ErrorKind::MissingArgument => "missing required argument",
        ErrorKind::MissingValue => "missing value for option",
        ErrorKind::UnexpectedArgument => "unexpected argument",
        ErrorKind::UnexpectedPositional => "unexpected positional argument",
        ErrorKind::UnexpectedValue => "unexpected value for option",
        ErrorKind::InvalidValue => "invalid value",
        ErrorKind::InvalidUtf8 => "argument is not valid UTF-8",
        ErrorKind::InvalidOptionName => "option name is invalid or not valid UTF-8",
        ErrorKind::ValueUnavailable => "no value is available",
    }
}

/// The text of an error: its kind's message, then `": "` and the argument (read as
/// text, invalid UTF-8 replaced) where there is one.
pub open spec fn error_text(m: ErrorModel) -> Seq<char> {
    match m.argument {
        Some(a) => message_of(m.kind)@ + ": "@ + lossy_text(a),
        None => message_of(m.kind)@,
    }
}

fn message(kind: ErrorKind) -> (r: &'static str)
    ensures
        r@ == message_of(kind)@,
{
    match kind {
        ErrorKind::MissingArgument => "missing required argument",
        ErrorKind::MissingValue => "missing value for option",
        ErrorKind::UnexpectedArgument => "unexpected argument",
        ErrorKind::UnexpectedPositional => "unexpected positional argument",
        ErrorKind::UnexpectedValue => "unexpected value for option",
        ErrorKind::InvalidValue => "invalid value",
        ErrorKind::InvalidUtf8 => "argument is not valid UTF-8",
        ErrorKind::InvalidOptionName => "option name is invalid or not valid UTF-8",
        ErrorKind::ValueUnavailable => "no value is available",
    }
}

impl Error {
    /// An error of the given kind about the given argument.
    pub(crate) fn with_argument(kind: ErrorKind, argument: Vec<u8>) -> (e: Error)
        ensures
            e@ == error_model(kind, Some(argument@)),
    {
        Error { kind, argument: Some(argument) }
    }

    /// An error of the given kind, with the argument if there is one.
    pub(crate) fn with_optional_argument(kind: ErrorKind, argument: Option<Vec<u8>>) -> (e: Error)
        ensures
            e@ == error_model(
                kind,
                match argument {
                    Some(a) => Some(a@),
                    None => None,
                },
            ),
    {
        Error { kind, argument }
    }

    /// A required argument, described by `name`, was never given.
    pub fn missing_argument_for(name: Vec<u8>) -> (e: Error)
        ensures
            e@ == error_model(ErrorKind::MissingArgument, Some(name@)),
    {
        Error::with_argument(ErrorKind::MissingArgument, name)
    }

    /// The option `option` needs a value and none followed it.
    pub fn missing_value_for(option: Vec<u8>) -> (e: Error)
        ensures
            e@ == error_model(ErrorKind::MissingValue, Some(option@)),
    {
        Error::with_argument(ErrorKind::MissingValue, option)
    }

    /// The positional argument `value` is not accepted.
    pub fn unexpected_positional(value: Vec<u8>) -> (e: Error)
        ensures
            e@ == error_model(ErrorKind::UnexpectedPositional, Some(value@)),
    {
        Error::with_argument(ErrorKind::UnexpectedPositional, value)
    }

    /// The argument `value` had to be text and is not valid UTF-8.
    pub fn invalid_utf8(value: Vec<u8>) -> (e: Error)
        ensures
            e@ == error_model(ErrorKind::InvalidUtf8, Some(value@)),
    {
        Error::with_argument(ErrorKind::InvalidUtf8, value)
    }

    /// No value can be taken for the option `option`.
    pub fn value_unavailable_for(option: Vec<u8>) -> (e: Error)
        ensures
            e@ == error_model(ErrorKind::ValueUnavailable, Some(option@)),
    {
        Error::with_argument(ErrorKind::ValueUnavailable, option)
    }

    /// The kind of this error.
    pub fn kind(&self) -> (r: ErrorKind)
        ensures
            r == self@.kind,
    {
        self.kind
    }

    /// The argument this error refers to, as raw bytes, if there is one.
    pub fn argument(&self) -> (r: Option<&[u8]>)
        ensures
            r is Some <==> self@.argument is Some,
            r matches Some(a) ==> a@ == self@.argument.unwrap(),
    {
        match &self.argument {
            Some(a) => Some(a.as_slice()),
            None => None,
        }
    }

    /// The human-readable text of this error.
    pub fn to_string(&self) -> (r: String)
        ensures
            r@ == error_text(self@),
    {
        let mut s = message(self.kind).to_owned();
        match &self.argument {
            Some(a) => {
                s.append(": ");
                let text = lossy_string(a.as_slice());
                s.append(text.as_str());
            },
            None => {},
        }
        s
    }
}

} // verus!
