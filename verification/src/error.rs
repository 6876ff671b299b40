//! The ways in which reading a header value fails.

use vstd::prelude::*;

verus! {

/// The seven fields of the header value, in the order in which they stand.
#[derive(Debug, Copy, Clone, PartialEq, Eq, Hash, Structural)]
pub enum Field {
    Executable,
    AppVersion,
    Bundle,
    AppBuild,
    OsName,
    OsVersion,
    AlamofireVersion,
}

/// Why reading failed. `...ReadFailed`: the field's delimiter was not found
/// before the input ended. `...ParseFailed`: the field's bytes were found
/// but are no value of the field. `Other`: a fixed part of the grammar was
/// not where it belongs. Each carries a message.
#[derive(Debug, Clone)]
pub enum DefaultUserAgentParseError {
    ExecutableReadFailed(String),
    ExecutableParseFailed(String),
    AppVersionReadFailed(String),
    AppVersionParseFailed(String),
    BundleReadFailed(String),
    BundleParseFailed(String),
    AppBuildReadFailed(String),
    AppBuildParseFailed(String),
    OsNameReadFailed(String),
    OsNameParseFailed(String),
    OsVersionReadFailed(String),
    OsVersionParseFailed(String),
    AlamofireVersionReadFailed(String),
    AlamofireVersionParseFailed(String),
    Other(&'static str),
}

/// What went wrong, apart from the message.
pub enum Failure {
    /// The delimiter of a field was not found.
    Read(Field),
    /// The bytes of a field are no value of it.
    Parse(Field),
    /// A fixed part of the grammar is missing.
    Structure,
}

/// An error as a mathematical value.
pub ghost struct ParseErrorView {
    pub failure: Failure,
    pub message: Seq<char>,
}

impl ParseErrorView {
    pub open spec fn read(field: Field, message: Seq<char>) -> ParseErrorView {
        ParseErrorView { failure: Failure::Read(field), message }
    }

    pub open spec fn parse(field: Field, message: Seq<char>) -> ParseErrorView {
        ParseErrorView { failure: Failure::Parse(field), message }
    }

    pub open spec fn structure(message: Seq<char>) -> ParseErrorView {
        ParseErrorView { failure: Failure::Structure, message }
    }
}

impl View for DefaultUserAgentParseError {
    type V = ParseErrorView;

    open spec fn view(&self) -> ParseErrorView {
        match self {
            Self::ExecutableReadFailed(m) => ParseErrorView::read(Field::Executable, m@),
            Self::ExecutableParseFailed(m) => ParseErrorView::parse(Field::Executable, m@),
            Self::AppVersionReadFailed(m) => ParseErrorView::read(Field::AppVersion, m@),
            Self::AppVersionParseFailed(m) => ParseErrorView::parse(Field::AppVersion, m@),
            Self::BundleReadFailed(m) => ParseErrorView::read(Field::Bundle, m@),
            Self::BundleParseFailed(m) => ParseErrorView::parse(Field::Bundle, m@),
            Self::AppBuildReadFailed(m) => ParseErrorView::read(Field::AppBuild, m@),
            Self::AppBuildParseFailed(m) => ParseErrorView::parse(Field::AppBuild, m@),
            Self::OsNameReadFailed(m) => ParseErrorView::read(Field::OsName, m@),
            Self::OsNameParseFailed(m) => ParseErrorView::parse(Field::OsName, m@),
            Self::OsVersionReadFailed(m) => ParseErrorView::read(Field::OsVersion, m@),
            Self::OsVersionParseFailed(m) => ParseErrorView::parse(Field::OsVersion, m@),
            Self::AlamofireVersionReadFailed(m) => ParseErrorView::read(
                Field::AlamofireVersion,
                m@,
            ),
            Self::AlamofireVersionParseFailed(m) => ParseErrorView::parse(
                Field::AlamofireVersion,
                m@,
            ),
            Self::Other(m) => ParseErrorView::structure(m@),
        }
    }
}

impl DefaultUserAgentParseError {
    /// The error of a field whose delimiter was not found.
    pub fn read_failed(field: Field, message: String) -> (e: Self)
        ensures
            e@ == ParseErrorView::read(field, message@),
    {
        match field {
            Field::Executable => Self::ExecutableReadFailed(message),
            Field::AppVersion => Self::AppVersionReadFailed(message),
            Field::Bundle => Self::BundleReadFailed(message),
            Field::AppBuild => Self::AppBuildReadFailed(message),
            Field::OsName => Self::OsNameReadFailed(message),
            Field::OsVersion => Self::OsVersionReadFailed(message),
            Field::AlamofireVersion => Self::AlamofireVersionReadFailed(message),
        }
    }

    /// The error of a field whose bytes are no value of it.
    pub fn parse_failed(field: Field, message: String) -> (e: Self)
        ensures
            e@ == ParseErrorView::parse(field, message@),
    {
        match field {
            Field::Executable => Self::ExecutableParseFailed(message),
            Field::AppVersion => Self::AppVersionParseFailed(message),
            Field::Bundle => Self::BundleParseFailed(message),
            Field::AppBuild => Self::AppBuildParseFailed(message),
            Field::OsName => Self::OsNameParseFailed(message),
            Field::OsVersion => Self::OsVersionParseFailed(message),
            Field::AlamofireVersion => Self::AlamofireVersionParseFailed(message),
        }
    }
}

} // verus!
