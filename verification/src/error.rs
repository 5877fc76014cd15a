//! What can go wrong while a document is read, and how it is worded.
use vstd::prelude::*;
use vstd::string::*;
use crate::trace_key::TraceKey;

verus! {

/// The kinds of error, without what they are about.
#[derive(Debug, Clone, Copy, PartialEq, Eq, Structural)]
pub enum ErrorKind {
    Message,
    Eof,
    ExpectedBoolean,
    ExpectedInteger,
    ExpectedDouble,
    ExpectedString,
    ExpectedBytes,
    ExpectedNull,
    ExpectedArray,
    ExpectedMap,
    ExpectedEnum,
    CouldNotConvertNumber,
    ExpectedArrayEnd,
}

/// An error of reading. But for `Message` and `Eof`, each carries the path
/// of the value it is about, and but for `ExpectedArrayEnd` the text of that
/// value.
#[derive(Debug, Clone, PartialEq)]
pub enum Error {
    Message(String),
    Eof,
    ExpectedBoolean(TraceKey, String),
    ExpectedInteger(TraceKey, String),
    ExpectedDouble(TraceKey, String),
    ExpectedString(TraceKey, String),
    ExpectedBytes(TraceKey, String),
    ExpectedNull(TraceKey, String),
    ExpectedArray(TraceKey, String),
    ExpectedMap(TraceKey, String),
    ExpectedEnum(TraceKey, String),
    CouldNotConvertNumber(TraceKey, String),
    ExpectedArrayEnd(TraceKey),
}

impl ErrorKind {
    /// The word for the shape that an expectation names; empty for the
    /// kinds that are no expectation.
    pub open spec fn noun(self) -> Seq<char> {
        match self {
            ErrorKind::ExpectedBoolean => "boolean"@,
            ErrorKind::ExpectedInteger => "integer"@,
            ErrorKind::ExpectedDouble => "double"@,
            ErrorKind::ExpectedString => "string"@,
            ErrorKind::ExpectedBytes => "bytes"@,
            ErrorKind::ExpectedNull => "null"@,
            ErrorKind::ExpectedArray => "array"@,
            ErrorKind::ExpectedMap => "map"@,
            ErrorKind::ExpectedEnum => "enum"@,
            _ => Seq::empty(),
        }
    }
}

/// The wording of an expectation that was not met.
pub open spec fn expectation_text(noun: Seq<char>, key: Seq<char>, value: Seq<char>) -> Seq<char> {
    "A "@ + noun + " value was expected for "@ + key + ", but it was "@ + value
}

/// The wording of a number that does not fit its destination.
pub open spec fn conversion_text(key: Seq<char>, value: Seq<char>) -> Seq<char> {
    "Could not convert "@ + value + ", the value of "@ + key + ", to the expected type."@
}

/// The wording of an array that is longer than its destination.
pub open spec fn array_end_text(key: Seq<char>) -> Seq<char> {
    "The length of the array is invalid. key: "@ + key
}

impl Error {
    /// The kind of the error.
    pub open spec fn spec_kind(self) -> ErrorKind {
        match self {
            Error::Message(_) => ErrorKind::Message,
            Error::Eof => ErrorKind::Eof,
            Error::ExpectedBoolean(_, _) => ErrorKind::ExpectedBoolean,
            Error::ExpectedInteger(_, _) => ErrorKind::ExpectedInteger,
            Error::ExpectedDouble(_, _) => ErrorKind::ExpectedDouble,
            Error::ExpectedString(_, _) => ErrorKind::ExpectedString,
            Error::ExpectedBytes(_, _) => ErrorKind::ExpectedBytes,
            Error::ExpectedNull(_, _) => ErrorKind::ExpectedNull,
            Error::ExpectedArray(_, _) => ErrorKind::ExpectedArray,
            Error::ExpectedMap(_, _) => ErrorKind::ExpectedMap,
            Error::ExpectedEnum(_, _) => ErrorKind::ExpectedEnum,
            Error::CouldNotConvertNumber(_, _) => ErrorKind::CouldNotConvertNumber,
            Error::ExpectedArrayEnd(_) => ErrorKind::ExpectedArrayEnd,
        }
    }

    /// The path of the value the error is about, if it is about one.
    pub open spec fn spec_key(self) -> Option<TraceKey> {
        match self {
            Error::Message(_) => None,
            Error::Eof => None,
            Error::ExpectedBoolean(key, _) => Some(key),
            Error::ExpectedInteger(key, _) => Some(key),
            Error::ExpectedDouble(key, _) => Some(key),
            Error::ExpectedString(key, _) => Some(key),
            Error::ExpectedBytes(key, _) => Some(key),
            Error::ExpectedNull(key, _) => Some(key),
            Error::ExpectedArray(key, _) => Some(key),
            Error::ExpectedMap(key, _) => Some(key),
            Error::ExpectedEnum(key, _) => Some(key),
            Error::CouldNotConvertNumber(key, _) => Some(key),
            Error::ExpectedArrayEnd(key) => Some(key),
        }
    }

    /// The text the error carries: the message of a `Message`, the text of
    /// the value it is about otherwise, nothing where it carries none.
    pub open spec fn spec_value(self) -> Seq<char> {
        match self {
            Error::Message(message) => message@,
            Error::Eof => Seq::empty(),
            Error::ExpectedBoolean(_, value) => value@,
            Error::ExpectedInteger(_, value) => value@,
            Error::ExpectedDouble(_, value) => value@,
            Error::ExpectedString(_, value) => value@,
            Error::ExpectedBytes(_, value) => value@,
            Error::ExpectedNull(_, value) => value@,
            Error::ExpectedArray(_, value) => value@,
            Error::ExpectedMap(_, value) => value@,
            Error::ExpectedEnum(_, value) => value@,
            Error::CouldNotConvertNumber(_, value) => value@,
            Error::ExpectedArrayEnd(_) => Seq::empty(),
        }
    }

    /// Whether the error is of kind `kind`, about the value at `key` whose
    /// text is `value`.
    pub open spec fn reports(self, kind: ErrorKind, key: TraceKey, value: Seq<char>) -> bool {
        &&& self.spec_kind() == kind
        &&& self.spec_key() == Some(key)
        &&& self.spec_value() == value
    }

    /// The message of the error.
    pub open spec fn text(self) -> Seq<char> {
        match self {
            Error::Message(message) => message@,
            Error::Eof => "unexpected end of input"@,
            Error::CouldNotConvertNumber(key, value) => conversion_text(key.text(), value@),
            Error::ExpectedArrayEnd(key) => array_end_text(key.text()),
            _ => expectation_text(
                self.spec_kind().noun(),
                self.spec_key().unwrap().text(),
                self.spec_value(),
            ),
        }
    }

    /// The error of kind `kind` about the value at `key` whose text is
    /// `value`.
    pub(crate) fn mismatch(kind: ErrorKind, key: TraceKey, value: String) -> (error: Error)
        requires
            kind != ErrorKind::Message,
            kind != ErrorKind::Eof,
            kind != ErrorKind::ExpectedArrayEnd,
        ensures
            error.reports(kind, key, value@),
    {
        match kind {
            ErrorKind::ExpectedBoolean => Error::ExpectedBoolean(key, value),
            ErrorKind::ExpectedInteger => Error::ExpectedInteger(key, value),
            ErrorKind::ExpectedDouble => Error::ExpectedDouble(key, value),
            ErrorKind::ExpectedString => Error::ExpectedString(key, value),
            ErrorKind::ExpectedBytes => Error::ExpectedBytes(key, value),
            ErrorKind::ExpectedNull => Error::ExpectedNull(key, value),
            ErrorKind::ExpectedArray => Error::ExpectedArray(key, value),
            ErrorKind::ExpectedMap => Error::ExpectedMap(key, value),
            ErrorKind::ExpectedEnum => Error::ExpectedEnum(key, value),
            _ => Error::CouldNotConvertNumber(key, value),
        }
    }

    /// The kind of the error.
    pub fn kind(&self) -> (kind: ErrorKind)
        ensures
            kind == self.spec_kind(),
    {
        match self {
            Error::Message(_) => ErrorKind::Message,
            Error::Eof => ErrorKind::Eof,
            Error::ExpectedBoolean(_, _) => ErrorKind::ExpectedBoolean,
            Error::ExpectedInteger(_, _) => ErrorKind::ExpectedInteger,
            Error::ExpectedDouble(_, _) => ErrorKind::ExpectedDouble,
            Error::ExpectedString(_, _) => ErrorKind::ExpectedString,
            Error::ExpectedBytes(_, _) => ErrorKind::ExpectedBytes,
            Error::ExpectedNull(_, _) => ErrorKind::ExpectedNull,
            Error::ExpectedArray(_, _) => ErrorKind::ExpectedArray,
            Error::ExpectedMap(_, _) => ErrorKind::ExpectedMap,
            Error::ExpectedEnum(_, _) => ErrorKind::ExpectedEnum,
            Error::CouldNotConvertNumber(_, _) => ErrorKind::CouldNotConvertNumber,
            Error::ExpectedArrayEnd(_) => ErrorKind::ExpectedArrayEnd,
        }
    }

    /// Writes the message of the error.
    pub fn to_string(&self) -> (s: String)
        ensures
            s@ == self.text(),
    {
        match self {
            Error::Message(message) => message.clone(),
            Error::Eof => String::from_str("unexpected end of input"),
            Error::ExpectedBoolean(key, value) => expectation("boolean", key, value),
            Error::ExpectedInteger(key, value) => expectation("integer", key, value),
            Error::ExpectedDouble(key, value) => expectation("double", key, value),
            Error::ExpectedString(key, value) => expectation("string", key, value),
            Error::ExpectedBytes(key, value) => expectation("bytes", key, value),
            Error::ExpectedNull(key, value) => expectation("null", key, value),
            Error::ExpectedArray(key, value) => expectation("array", key, value),
            Error::ExpectedMap(key, value) => expectation("map", key, value),
            Error::ExpectedEnum(key, value) => expectation("enum", key, value),
            Error::CouldNotConvertNumber(key, value) => {
                let mut s = String::from_str("Could not convert ");
                s.append(value.as_str());
                s.append(", the value of ");
                s.append(key.to_string().as_str());
                s.append(", to the expected type.");
                s
            },
            Error::ExpectedArrayEnd(key) => {
                let mut s = String::from_str("The length of the array is invalid. key: ");
                s.append(key.to_string().as_str());
                s
            },
        }
    }
}

/// Writes an expectation that was not met.
fn expectation(noun: &str, key: &TraceKey, value: &String) -> (s: String)
    ensures
        s@ == expectation_text(noun@, key.text(), value@),
{
    let mut s = String::from_str("A ");
    s.append(noun);
    s.append(" value was expected for ");
    s.append(key.to_string().as_str());
    s.append(", but it was ");
    s.append(value.as_str());
    s
}

} // verus!
