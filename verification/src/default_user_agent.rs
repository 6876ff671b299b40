//! The descriptor that a header value stands for, read from bytes and
//! written as text.

pub use crate::app_build::DefaultUserAgentAppBuild;
pub use crate::error::DefaultUserAgentParseError;
use crate::error::{Field, ParseErrorView};
use crate::grammar::{
    alamofire_version_at, app_build_at, app_version_at, bundle_at, executable_at, fixed,
    is_field_text, os_name_at, os_version_at, parse_spec, text_field, version_of,
    DefaultUserAgentView, Step,
};
use crate::laws::lemma_round_trip;
pub use crate::os_name::DefaultUserAgentOsName;
use crate::scan::{count_byte, find_byte, lemma_first_index, starts_with_at};
use crate::text::{
    lemma_count_encoded, opt_view, sentinel_to_absent, str_eq, string_from_utf8, CLOSE_PAREN,
    NEWLINE, SEMICOLON, SLASH, SPACE,
};
use crate::version::{Version, VersionView};
use vstd::prelude::*;
use vstd::slice::slice_subrange;
use vstd::string::*;
use vstd::utf8::encode_utf8;

verus! {

/// What a header value says of the application that sent it, of the system
/// it runs on and of the library that wrote it.
#[derive(Debug, Clone, PartialEq, Eq)]
pub struct DefaultUserAgent {
    /// The name of the application, where it is known.
    pub executable: Option<String>,
    /// The version of the application, where it is known.
    pub app_version: Option<Version>,
    /// The identifier of the application's bundle, where it is known.
    pub bundle: Option<String>,
    /// The build number of the application, where it is known.
    pub app_build: Option<DefaultUserAgentAppBuild>,
    /// The operating system, where it is known.
    pub os_name: Option<DefaultUserAgentOsName>,
    /// The version of the operating system.
    pub os_version: Version,
    /// The version of the library.
    pub alamofire_version: Version,
}

impl View for DefaultUserAgent {
    type V = DefaultUserAgentView;

    open spec fn view(&self) -> DefaultUserAgentView {
        DefaultUserAgentView {
            executable: opt_view(self.executable),
            app_version: opt_view(self.app_version),
            bundle: opt_view(self.bundle),
            app_build: opt_view(self.app_build),
            os_name: self.os_name,
            os_version: self.os_version@,
            alamofire_version: self.alamofire_version@,
        }
    }
}

/// The view of one step of the reading.
pub open spec fn step_view<T, V>(
    r: Result<(T, usize), DefaultUserAgentParseError>,
    view: spec_fn(T) -> V,
) -> Step<V> {
    match r {
        Ok((value, next)) => Ok((view(value), next as int)),
        Err(e) => Err(e@),
    }
}

/// Reads the text of a field up to its delimiter.
fn read_text(bytes: &[u8], pos: usize, delim: u8, field: Field) -> (r: Result<
    (String, usize),
    DefaultUserAgentParseError,
>)
    requires
        pos <= bytes@.len(),
    ensures
        step_view(r, |text: String| text@) == text_field(bytes@, pos as int, delim, field),
        r matches Ok((_, next)) ==> next <= bytes@.len(),
{
    proof {
        lemma_first_index(bytes@, pos as int, delim);
    }
    let len = bytes.len();
    match find_byte(bytes, pos, delim) {
        None => Err(DefaultUserAgentParseError::read_failed(field, String::from_str("Invalid"))),
        Some(end) => match string_from_utf8(slice_subrange(bytes, pos, end)) {
            Err(message) => Err(DefaultUserAgentParseError::parse_failed(field, message)),
            Ok(text) => Ok((text, end + 1)),
        },
    }
}

/// Passes a fixed part of the grammar.
fn expect<T>(bytes: &[u8], value: T, pos: usize, part: &'static str, message: &'static str) -> (r:
    Result<(T, usize), DefaultUserAgentParseError>)
    requires
        pos <= bytes@.len(),
    ensures
        step_view(r, |v: T| v) == fixed(bytes@, value, pos as int, part@, message@),
        r matches Ok((_, next)) ==> next <= bytes@.len(),
{
    let len = bytes.len();
    if starts_with_at(bytes, pos, part.as_bytes()) {
        Ok((value, pos + part.len()))
    } else {
        Err(DefaultUserAgentParseError::Other(message))
    }
}

/// Reads a version that a field must hold.
fn read_version(text: &str, field: Field) -> (r: Result<Version, DefaultUserAgentParseError>)
    ensures
        match r {
            Ok(version) => version_of(text@, field) == Ok::<VersionView, ParseErrorView>(
                version@,
            ),
            Err(e) => version_of(text@, field) == Err::<VersionView, ParseErrorView>(e@),
        },
{
    match Version::parse(text) {
        Ok(version) => Ok(version),
        Err(message) => Err(DefaultUserAgentParseError::parse_failed(field, message)),
    }
}

fn read_executable(bytes: &[u8], pos: usize) -> (r: Result<
    (Option<String>, usize),
    DefaultUserAgentParseError,
>)
    requires
        pos <= bytes@.len(),
    ensures
        step_view(r, |v: Option<String>| opt_view(v)) == executable_at(bytes@, pos as int),
        r matches Ok((_, next)) ==> next <= bytes@.len(),
{
    let (text, next) = read_text(bytes, pos, SLASH, Field::Executable)?;
    Ok((sentinel_to_absent(text), next))
}

fn read_app_version(bytes: &[u8], pos: usize) -> (r: Result<
    (Option<Version>, usize),
    DefaultUserAgentParseError,
>)
    requires
        pos <= bytes@.len(),
    ensures
        step_view(r, |v: Option<Version>| opt_view(v)) == app_version_at(bytes@, pos as int),
        r matches Ok((_, next)) ==> next <= bytes@.len(),
{
    let (text, next) = read_text(bytes, pos, SPACE, Field::AppVersion)?;
    let app_version = if str_eq(text.as_str(), "Unknown") {
        None
    } else {
        Some(read_version(text.as_str(), Field::AppVersion)?)
    };
    expect(bytes, app_version, next, "(", "Mismatch AppVersion end")
}

fn read_bundle(bytes: &[u8], pos: usize) -> (r: Result<
    (Option<String>, usize),
    DefaultUserAgentParseError,
>)
    requires
        pos <= bytes@.len(),
    ensures
        step_view(r, |v: Option<String>| opt_view(v)) == bundle_at(bytes@, pos as int),
        r matches Ok((_, next)) ==> next <= bytes@.len(),
{
    let (text, next) = read_text(bytes, pos, SEMICOLON, Field::Bundle)?;
    expect(bytes, sentinel_to_absent(text), next, " build:", "Mismatch Bundle end")
}

fn read_app_build(bytes: &[u8], pos: usize) -> (r: Result<
    (Option<DefaultUserAgentAppBuild>, usize),
    DefaultUserAgentParseError,
>)
    requires
        pos <= bytes@.len(),
    ensures
        step_view(r, |v: Option<DefaultUserAgentAppBuild>| opt_view(v)) == app_build_at(
            bytes@,
            pos as int,
        ),
        r matches Ok((_, next)) ==> next <= bytes@.len(),
{
    let (text, next) = read_text(bytes, pos, SEMICOLON, Field::AppBuild)?;
    match DefaultUserAgentAppBuild::parse(text.as_str()) {
        Err(message) => Err(DefaultUserAgentParseError::AppBuildParseFailed(message)),
        Ok(app_build) => expect(bytes, app_build, next, " ", "Mismatch AppBuild end"),
    }
}

fn read_os_name(bytes: &[u8], pos: usize) -> (r: Result<
    (Option<DefaultUserAgentOsName>, usize),
    DefaultUserAgentParseError,
>)
    requires
        pos <= bytes@.len(),
    ensures
        step_view(r, |v: Option<DefaultUserAgentOsName>| v) == os_name_at(bytes@, pos as int),
        r matches Ok((_, next)) ==> next <= bytes@.len(),
{
    let (text, next) = read_text(bytes, pos, SPACE, Field::OsName)?;
    match DefaultUserAgentOsName::parse(text.as_str()) {
        Err(message) => Err(
            DefaultUserAgentParseError::OsNameParseFailed(String::from_str(message)),
        ),
        Ok(os_name) => Ok((os_name, next)),
    }
}

fn read_os_version(bytes: &[u8], pos: usize) -> (r: Result<
    (Version, usize),
    DefaultUserAgentParseError,
>)
    requires
        pos <= bytes@.len(),
    ensures
        step_view(r, |v: Version| v@) == os_version_at(bytes@, pos as int),
        r matches Ok((_, next)) ==> next <= bytes@.len(),
{
    let (text, next) = read_text(bytes, pos, CLOSE_PAREN, Field::OsVersion)?;
    let os_version = read_version(text.as_str(), Field::OsVersion)?;
    expect(bytes, os_version, next, " Alamofire/", "Mismatch OsVersion end")
}

fn read_alamofire_version(bytes: &[u8], pos: usize) -> (r: Result<
    Version,
    DefaultUserAgentParseError,
>)
    requires
        pos <= bytes@.len(),
    ensures
        match r {
            Ok(version) => alamofire_version_at(bytes@, pos as int) == Ok::<
                VersionView,
                ParseErrorView,
            >(version@),
            Err(e) => alamofire_version_at(bytes@, pos as int) == Err::<
                VersionView,
                ParseErrorView,
            >(e@),
        },
{
    proof {
        lemma_first_index(bytes@, pos as int, NEWLINE);
    }
    let len = bytes.len();
    let end = match find_byte(bytes, pos, NEWLINE) {
        Some(end) => {
            if end + 1 < len {
                return Err(DefaultUserAgentParseError::Other("Mismatch AlamofireVersion end"));
            }
            end
        },
        None => len,
    };
    match string_from_utf8(slice_subrange(bytes, pos, end)) {
        Err(message) => Err(DefaultUserAgentParseError::AlamofireVersionParseFailed(message)),
        Ok(text) => read_version(text.as_str(), Field::AlamofireVersion),
    }
}

/// Whether an optional text field can be told from its text when `delim`
/// ends it.
fn is_field_str(field: &Option<String>, delim: u8) -> (r: bool)
    requires
        delim < 0x80,
    ensures
        r == is_field_text(opt_view(*field), delim as char),
{
    match field {
        None => true,
        Some(text) => {
            proof {
                lemma_count_encoded(text@, delim as char);
            }
            !str_eq(text.as_str(), "Unknown") && count_byte(text.as_str().as_bytes(), delim) == 0
        },
    }
}

impl DefaultUserAgent {
    /// Whether the descriptor is one that its text stands for. Where it is,
    /// reading what `to_string` writes gives the descriptor back.
    pub fn is_canonical(&self) -> (r: bool)
        ensures
            r == self@.is_canonical(),
            r ==> parse_spec(encode_utf8(self@.text())) == Ok::<
                DefaultUserAgentView,
                ParseErrorView,
            >(self@),
    {
        let app_version = match &self.app_version {
            None => true,
            Some(version) => version.is_canonical(),
        };
        let app_build = match &self.app_build {
            None => true,
            Some(build) => build.0.pre.as_str().is_empty() && build.0.build.as_str().is_empty()
                && build.0.is_canonical(),
        };
        let r = is_field_str(&self.executable, SLASH) && app_version && is_field_str(
            &self.bundle,
            SEMICOLON,
        ) && app_build && self.os_version.is_canonical() && self.alamofire_version.is_canonical();
        proof {
            if r {
                lemma_round_trip(self@);
            }
        }
        r
    }

    /// The view of a result of `parse`.
    pub open spec fn result_view(r: Result<Self, DefaultUserAgentParseError>) -> Result<
        DefaultUserAgentView,
        ParseErrorView,
    > {
        match r {
            Ok(agent) => Ok(agent@),
            Err(e) => Err(e@),
        }
    }

    /// Reads a header value. The fields are read in order, each up to its
    /// delimiter, and the first failure ends the reading.
    pub fn parse(bytes: &[u8]) -> (r: Result<Self, DefaultUserAgentParseError>)
        ensures
            Self::result_view(r) == parse_spec(bytes@),
    {
        let (executable, pos) = read_executable(bytes, 0)?;
        let (app_version, pos) = read_app_version(bytes, pos)?;
        let (bundle, pos) = read_bundle(bytes, pos)?;
        let (app_build, pos) = read_app_build(bytes, pos)?;
        let (os_name, pos) = read_os_name(bytes, pos)?;
        let (os_version, pos) = read_os_version(bytes, pos)?;
        let alamofire_version = read_alamofire_version(bytes, pos)?;
        Ok(
            DefaultUserAgent {
                executable,
                app_version,
                bundle,
                app_build,
                os_name,
                os_version,
                alamofire_version,
            },
        )
    }

    /// Writes the header value: every field in order, the sentinel for
    /// each absent one.
    pub fn to_string(&self) -> (r: String)
        ensures
            r@ == self@.text(),
    {
        let mut r = String::new();
        match &self.executable {
            Some(executable) => r.append(executable.as_str()),
            None => r.append("Unknown"),
        }
        r.append("/");
        match &self.app_version {
            Some(app_version) => r.append(app_version.to_string().as_str()),
            None => r.append("Unknown"),
        }
        r.append(" (");
        match &self.bundle {
            Some(bundle) => r.append(bundle.as_str()),
            None => r.append("Unknown"),
        }
        r.append("; build:");
        match &self.app_build {
            Some(app_build) => r.append(app_build.to_string().as_str()),
            None => r.append("Unknown"),
        }
        r.append("; ");
        match &self.os_name {
            Some(os_name) => r.append(os_name.as_str()),
            None => r.append("Unknown"),
        }
        r.append(" ");
        r.append(self.os_version.to_string().as_str());
        r.append(") Alamofire/");
        r.append(self.alamofire_version.to_string().as_str());
        assert(r@ =~= self@.text());
        r
    }
}

impl Default for DefaultUserAgent {
    /// The descriptor that says nothing of the application, with the
    /// system's version 0.0.0 and the library's version 5.6.4.
    fn default() -> (r: Self)
        ensures
            r@ == DefaultUserAgentView::initial(),
    {
        DefaultUserAgent {
            executable: None,
            app_version: None,
            bundle: None,
            app_build: None,
            os_name: None,
            os_version: Version::new(0, 0, 0),
            alamofire_version: Version::new(5, 6, 4),
        }
    }
}

impl std::str::FromStr for DefaultUserAgent {
    type Err = DefaultUserAgentParseError;

    /// Reads a header value from a string, as `parse` reads it from bytes.
    fn from_str(s: &str) -> (r: Result<Self, DefaultUserAgentParseError>)
        ensures
            Self::result_view(r) == parse_spec(encode_utf8(s@)),
    {
        Self::parse(s.as_bytes())
    }
}

} // verus!
