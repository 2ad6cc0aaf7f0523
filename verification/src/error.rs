use vstd::prelude::*;

verus! {

/// The kind of a JSON value, used to report the shape a failed union
/// resolution actually observed.
#[derive(Clone, Copy, Debug, PartialEq, Eq, Structural)]
pub enum JsonKind {
    NullKind,
    BoolKind,
    NumKind,
    StrKind,
    ArrKind,
    ObjKind,
}

/// A terminal wire-shape error raised while decoding a message.
///
/// The union's alternatives are fixed at schema-compile time (an array of
/// strings, then a bare string), so `NoMatchingVariant` reports only the
/// shape that was actually observed.
#[derive(Clone, Copy, Debug, PartialEq, Eq, Structural)]
pub enum DecodeError {
    /// The input text is not valid JSON.
    InvalidJson,
    /// A value does not have the JSON type the schema asks for.
    TypeMismatch,
    /// The required `accounts` field is absent.
    MissingRequiredField,
    /// An inner key is outside the closed enum of account entry keys.
    InvalidEnumValue,
    /// An inner value matched none of the union's alternatives.
    NoMatchingVariant(JsonKind),
}

/// The message text of each decode error.
pub open spec fn decode_error_text(e: DecodeError) -> Seq<char> {
    match e {
        DecodeError::InvalidJson => "invalid JSON"@,
        DecodeError::TypeMismatch => "value does not have the expected JSON type"@,
        DecodeError::MissingRequiredField => "missing required field"@,
        DecodeError::InvalidEnumValue => "invalid value"@,
        DecodeError::NoMatchingVariant(_) => "data did not match any variant"@,
    }
}

impl DecodeError {
    /// The message text of this error.
    pub fn message(&self) -> (r: &'static str)
        ensures
            r@ == decode_error_text(*self),
    {
        match self {
            DecodeError::InvalidJson => "invalid JSON",
            DecodeError::TypeMismatch => "value does not have the expected JSON type",
            DecodeError::MissingRequiredField => "missing required field",
            DecodeError::InvalidEnumValue => "invalid value",
            DecodeError::NoMatchingVariant(_) => "data did not match any variant",
        }
    }
}

/// Error from a fallible conversion, carrying its message text.
#[derive(Debug)]
pub struct ConversionError {
    msg: String,
}

impl View for ConversionError {
    type V = Seq<char>;

    closed spec fn view(&self) -> Seq<char> {
        self.msg@
    }
}

impl ConversionError {
    pub fn new(msg: String) -> (r: ConversionError)
        ensures
            r@ == msg@,
    {
        ConversionError { msg }
    }

    /// The message text carried by this error.
    pub fn message(&self) -> (r: &String)
        ensures
            r@ == self@,
    {
        &self.msg
    }
}

impl From<&'static str> for ConversionError {
    fn from(value: &'static str) -> (r: ConversionError)
        ensures
            r@ == value@,
    {
        ConversionError { msg: value.to_owned() }
    }
}

impl vstd::std_specs::convert::FromSpecImpl<&'static str> for ConversionError {
    open spec fn obeys_from_spec() -> bool {
        false
    }

    open spec fn from_spec(v: &'static str) -> ConversionError {
        arbitrary()
    }
}

impl From<String> for ConversionError {
    fn from(value: String) -> (r: ConversionError)
        ensures
            r@ == value@,
    {
        ConversionError { msg: value }
    }
}

impl vstd::std_specs::convert::FromSpecImpl<String> for ConversionError {
    open spec fn obeys_from_spec() -> bool {
        true
    }

    closed spec fn from_spec(v: String) -> ConversionError {
        ConversionError { msg: v }
    }
}

} // verus!
