//! What can go wrong with the parameters of a request.  Each error stands
//! for a bad request and carries the text that tells the client why.

use crate::text::joined;
use vstd::prelude::*;
use vstd::std_specs::cmp::PartialEqSpecImpl;
use vstd::std_specs::convert::FromSpecImpl;

verus! {

/// The status of every failure of this crate: the request was bad.
pub const BAD_REQUEST: u16 = 400;

/// Why encoded parameters could not be decoded.
#[derive(Clone, Copy, Debug, PartialEq, Eq, Structural)]
pub enum DecodeError {
    /// At byte `offset` stands a `%` that two hexadecimal digits do not follow.
    InvalidEscape { offset: usize },
    /// With the escapes replaced, the bytes are not UTF-8.
    InvalidUtf8,
}

impl DecodeError {
    /// What this cause reads as in a message.
    pub open spec fn text(self) -> Seq<char> {
        match self {
            DecodeError::InvalidEscape { .. } => "incomplete percent escape"@,
            DecodeError::InvalidUtf8 => "decoded bytes are not UTF-8"@,
        }
    }

    /// A short description of the cause.
    pub fn description(&self) -> (r: &'static str)
        ensures
            r@ == self.text(),
    {
        match self {
            DecodeError::InvalidEscape { .. } => "incomplete percent escape",
            DecodeError::InvalidUtf8 => "decoded bytes are not UTF-8",
        }
    }
}

/// Encoded parameters could not be decoded.  No map comes with it: one bad
/// part refuses the whole input.
#[derive(Clone, Copy, Debug, PartialEq, Eq, Structural)]
pub struct DecodeFailure {
    /// What the decoder found.
    pub cause: DecodeError,
}

impl DecodeFailure {
    /// What the message of this failure reads.
    pub open spec fn text(self) -> Seq<char> {
        "Malformed parameters: "@ + self.cause.text()
    }

    /// The failure that `cause` gives rise to.
    pub fn new(cause: DecodeError) -> (r: DecodeFailure)
        ensures
            r.cause == cause,
    {
        DecodeFailure { cause }
    }

    /// The status to answer with.
    pub fn status(&self) -> (r: u16)
        ensures
            r == BAD_REQUEST,
    {
        BAD_REQUEST
    }

    /// The text to answer with: it names the cause.
    pub fn message(&self) -> (r: String)
        ensures
            r@ == self.text(),
    {
        joined("Malformed parameters: ", self.cause.description())
    }
}

/// A parameter that was asked for is not there.
#[derive(Debug)]
pub struct MissingParamError {
    name: String,
}

impl View for MissingParamError {
    type V = Seq<char>;

    /// The name that was asked for.
    closed spec fn view(&self) -> Seq<char> {
        self.name@
    }
}

impl PartialEq for MissingParamError {
    fn eq(&self, other: &MissingParamError) -> (r: bool) {
        self.name == other.name
    }
}

impl PartialEqSpecImpl for MissingParamError {
    open spec fn obeys_eq_spec() -> bool {
        true
    }

    open spec fn eq_spec(&self, other: &MissingParamError) -> bool {
        self@ == other@
    }
}

impl MissingParamError {
    /// What the message of this error reads.
    pub open spec fn text(&self) -> Seq<char> {
        "Missing parameter "@ + self@
    }

    /// The error that tells that `name` is missing.
    pub fn new(name: String) -> (r: MissingParamError)
        ensures
            r@ == name@,
    {
        MissingParamError { name }
    }

    /// The name that was asked for.
    pub fn name(&self) -> (r: &String)
        ensures
            r@ == self@,
    {
        &self.name
    }

    /// What kind of error this is, whatever the name.
    pub fn description(&self) -> (r: &'static str)
        ensures
            r@ == "Missing parameter"@,
    {
        "Missing parameter"
    }

    /// The status to answer with.
    pub fn status(&self) -> (r: u16)
        ensures
            r == BAD_REQUEST,
    {
        BAD_REQUEST
    }

    /// The text to answer with: it names the parameter.
    pub fn message(&self) -> (r: String)
        ensures
            r@ == self.text(),
    {
        joined("Missing parameter ", self.name.as_str())
    }
}

/// Either failure of this crate, for a handler that decodes and then asks
/// for parameters.
#[derive(Debug)]
pub enum ParamError {
    /// The encoded input was refused.
    Decode(DecodeFailure),
    /// A parameter that was asked for is not there.
    Missing(MissingParamError),
}

impl From<DecodeFailure> for ParamError {
    fn from(failure: DecodeFailure) -> (r: ParamError) {
        ParamError::Decode(failure)
    }
}

impl FromSpecImpl<DecodeFailure> for ParamError {
    open spec fn obeys_from_spec() -> bool {
        true
    }

    open spec fn from_spec(failure: DecodeFailure) -> ParamError {
        ParamError::Decode(failure)
    }
}

impl From<MissingParamError> for ParamError {
    fn from(missing: MissingParamError) -> (r: ParamError) {
        ParamError::Missing(missing)
    }
}

impl FromSpecImpl<MissingParamError> for ParamError {
    open spec fn obeys_from_spec() -> bool {
        true
    }

    open spec fn from_spec(missing: MissingParamError) -> ParamError {
        ParamError::Missing(missing)
    }
}

impl ParamError {
    /// What the message of this error reads.
    pub open spec fn text(&self) -> Seq<char> {
        match self {
            ParamError::Decode(failure) => failure.text(),
            ParamError::Missing(missing) => missing.text(),
        }
    }

    /// The status to answer with, the same for both.
    pub fn status(&self) -> (r: u16)
        ensures
            r == BAD_REQUEST,
    {
        BAD_REQUEST
    }

    /// The text to answer with.
    pub fn message(&self) -> (r: String)
        ensures
            r@ == self.text(),
    {
        match self {
            ParamError::Decode(failure) => failure.message(),
            ParamError::Missing(missing) => missing.message(),
        }
    }

    /// The status and the text to answer with.
    pub fn response(&self) -> (r: (u16, String))
        ensures
            r.0 == BAD_REQUEST,
            r.1@ == self.text(),
    {
        (self.status(), self.message())
    }
}

} // verus!
