//! Loaders for osci memory images.
//!
//! A loader turns the contents of an image file into a `SliceMemory`. Raw
//! images are a sequence of big-endian words, hex images are text.
use vstd::prelude::*;

pub mod hexloader;
pub mod rawloader;

verus! {

/// The word with the bits of `value`, a number below `2^32`: the number
/// itself, or, from `2^31` on, the negative number that two's complement
/// gives.
pub open spec fn word_of(value: nat) -> i32 {
    if value >= 0x8000_0000 {
        (value - 0x1_0000_0000) as i32
    } else {
        value as i32
    }
}

/// Why a token of digits is no numeral that fits a word.
#[derive(Clone, Copy, Debug, PartialEq, Eq)]
pub enum NumeralError {
    /// There is no digit, or something that is no digit.
    InvalidDigit,
    /// The number is too large.
    PosOverflow,
    /// The number is too small.
    NegOverflow,
}

/// Error type for all loaders.
#[derive(Debug)]
pub enum LoadError {
    /// Loading failed, and nothing more is known.
    Unspecified,
    /// Reading the image failed, with what the failed read reported.
    IoErr(String),
    /// The image holds a numeral that is malformed.
    ParseIntErr(NumeralError),
    /// Writing a message failed.
    FormatErr,
    Message(String),
}

/// The model of a `LoadError`: the same error, with its text as a sequence of
/// characters.
pub enum LoadErrorModel {
    Unspecified,
    IoErr(Seq<char>),
    ParseIntErr(NumeralError),
    FormatErr,
    Message(Seq<char>),
}

impl View for LoadError {
    type V = LoadErrorModel;

    open spec fn view(&self) -> LoadErrorModel {
        match self {
            LoadError::Unspecified => LoadErrorModel::Unspecified,
            LoadError::IoErr(text) => LoadErrorModel::IoErr(text@),
            LoadError::ParseIntErr(kind) => LoadErrorModel::ParseIntErr(*kind),
            LoadError::FormatErr => LoadErrorModel::FormatErr,
            LoadError::Message(text) => LoadErrorModel::Message(text@),
        }
    }
}

impl NumeralError {
    /// A short description of the error.
    pub open spec fn spec_description(self) -> Seq<char> {
        match self {
            NumeralError::InvalidDigit => "invalid digit found in string"@,
            NumeralError::PosOverflow => "number too large to fit in target type"@,
            NumeralError::NegOverflow => "number too small to fit in target type"@,
        }
    }

    /// A short description of the error.
    pub fn description(&self) -> (text: &'static str)
        ensures
            text@ == self.spec_description(),
    {
        match self {
            NumeralError::InvalidDigit => "invalid digit found in string",
            NumeralError::PosOverflow => "number too large to fit in target type",
            NumeralError::NegOverflow => "number too small to fit in target type",
        }
    }
}

impl LoadErrorModel {
    /// A short description of the error: its own text where it has one, else
    /// a text that names the kind of error.
    pub open spec fn description(self) -> Seq<char> {
        match self {
            LoadErrorModel::Unspecified => "Loading failed"@,
            LoadErrorModel::Message(text) => text,
            LoadErrorModel::IoErr(text) => text,
            LoadErrorModel::ParseIntErr(kind) => kind.spec_description(),
            LoadErrorModel::FormatErr => "an error occurred when formatting"@,
        }
    }
}

impl LoadError {
    pub fn new() -> (error: LoadError)
        ensures
            error@ == LoadErrorModel::Unspecified,
    {
        LoadError::Unspecified
    }

    pub fn from_message(msg: String) -> (error: LoadError)
        ensures
            error@ == LoadErrorModel::Message(msg@),
    {
        LoadError::Message(msg)
    }

    /// A short description of the error.
    pub fn description(&self) -> (text: String)
        ensures
            text@ == self@.description(),
    {
        match self {
            LoadError::Unspecified => "Loading failed".to_owned(),
            LoadError::Message(text) => text.clone(),
            LoadError::IoErr(text) => text.clone(),
            LoadError::ParseIntErr(kind) => kind.description().to_owned(),
            LoadError::FormatErr => "an error occurred when formatting".to_owned(),
        }
    }
}

} // verus!
