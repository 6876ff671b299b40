//! The grammar of the header value, as specification functions: what a
//! descriptor is written as, and what a byte string is read as.
//!
//! ```text
//! <executable>/<appVersion> (<bundle>; build:<appBuild>; <osName> <osVersion>) Alamofire/<version>
//! ```

use crate::app_build::DefaultUserAgentAppBuild;
use crate::error::{Field, ParseErrorView};
use crate::os_name::DefaultUserAgentOsName;
use crate::scan::{count_of, first_index, has_prefix_at};
use crate::text::{
    absent_if_unknown, decoded, text_or_unknown, unknown, CLOSE_PAREN, NEWLINE, SEMICOLON, SLASH,
    SPACE,
};
use crate::version::{semver_parsed, VersionView};
use vstd::prelude::*;
use vstd::utf8::encode_utf8;

verus! {

/// A descriptor as a mathematical value.
pub ghost struct DefaultUserAgentView {
    pub executable: Option<Seq<char>>,
    pub app_version: Option<VersionView>,
    pub bundle: Option<Seq<char>>,
    pub app_build: Option<VersionView>,
    pub os_name: Option<DefaultUserAgentOsName>,
    pub os_version: VersionView,
    pub alamofire_version: VersionView,
}

/// An optional version as the grammar writes it.
pub open spec fn version_or_unknown(version: Option<VersionView>) -> Seq<char> {
    match version {
        Some(version) => version.text(),
        None => unknown(),
    }
}

/// Whether an optional text field can be told from its text when `delim`
/// ends it: a text that is present is not the sentinel and is free of
/// `delim`.
pub open spec fn is_field_text(field: Option<Seq<char>>, delim: char) -> bool {
    field matches Some(text) ==> text != unknown() && count_of(text, delim) == 0
}

impl DefaultUserAgentView {
    /// Whether the descriptor is one that its text stands for: the
    /// executable and the bundle can be told from their texts, every version
    /// is canonical, and the build number has no tags.
    pub open spec fn is_canonical(self) -> bool {
        &&& is_field_text(self.executable, '/')
        &&& (self.app_version matches Some(version) ==> version.is_canonical())
        &&& is_field_text(self.bundle, ';')
        &&& (self.app_build matches Some(build) ==> build.is_plain() && build.is_canonical())
        &&& self.os_version.is_canonical()
        &&& self.alamofire_version.is_canonical()
    }

    /// The text of one field of a descriptor.
    pub open spec fn field_text(self, field: Field) -> Seq<char> {
        match field {
            Field::Executable => text_or_unknown(self.executable),
            Field::AppVersion => version_or_unknown(self.app_version),
            Field::Bundle => text_or_unknown(self.bundle),
            Field::AppBuild => DefaultUserAgentAppBuild::text_or_unknown(self.app_build),
            Field::OsName => DefaultUserAgentOsName::text_or_unknown(self.os_name),
            Field::OsVersion => self.os_version.text(),
            Field::AlamofireVersion => self.alamofire_version.text(),
        }
    }

    /// The text of a descriptor cut short within the given field, after
    /// the first `keep` characters of the field's text.
    pub open spec fn text_cut(self, field: Field, keep: int) -> Seq<char> {
        let part = self.field_text(field).take(keep);
        match field {
            Field::Executable => part,
            Field::AppVersion => self.text_up_to(Field::Executable) + "/"@ + part,
            Field::Bundle => self.text_up_to(Field::AppVersion) + " ("@ + part,
            Field::AppBuild => self.text_up_to(Field::Bundle) + "; build:"@ + part,
            Field::OsName => self.text_up_to(Field::AppBuild) + "; "@ + part,
            Field::OsVersion => self.text_up_to(Field::OsName) + " "@ + part,
            Field::AlamofireVersion => self.text_up_to(Field::OsVersion) + ") Alamofire/"@ + part,
        }
    }

    /// The text of a descriptor cut short after the given field, before the
    /// delimiter that ends the field.
    pub open spec fn text_up_to(self, field: Field) -> Seq<char> {
        let executable = text_or_unknown(self.executable);
        let app_version = executable + "/"@ + version_or_unknown(self.app_version);
        let bundle = app_version + " ("@ + text_or_unknown(self.bundle);
        let app_build = bundle + "; build:"@ + DefaultUserAgentAppBuild::text_or_unknown(
            self.app_build,
        );
        let os_name = app_build + "; "@ + DefaultUserAgentOsName::text_or_unknown(self.os_name);
        let os_version = os_name + " "@ + self.os_version.text();
        match field {
            Field::Executable => executable,
            Field::AppVersion => app_version,
            Field::Bundle => bundle,
            Field::AppBuild => app_build,
            Field::OsName => os_name,
            Field::OsVersion => os_version,
            Field::AlamofireVersion => os_version + ") Alamofire/"@
                + self.alamofire_version.text(),
        }
    }

    /// The descriptor that says nothing of the application, with the
    /// system's version 0.0.0 and the library's version 5.6.4.
    pub open spec fn initial() -> DefaultUserAgentView {
        DefaultUserAgentView {
            executable: None,
            app_version: None,
            bundle: None,
            app_build: None,
            os_name: None,
            os_version: VersionView::plain(0, 0, 0),
            alamofire_version: VersionView::plain(5, 6, 4),
        }
    }

    /// The text of a descriptor: its fields in order, the sentinel for
    /// each absent one, and the fixed parts of the grammar between them.
    pub open spec fn text(self) -> Seq<char> {
        text_or_unknown(self.executable) + "/"@ + version_or_unknown(self.app_version) + " ("@
            + text_or_unknown(self.bundle) + "; build:"@
            + DefaultUserAgentAppBuild::text_or_unknown(self.app_build) + "; "@
            + DefaultUserAgentOsName::text_or_unknown(self.os_name) + " "@
            + self.os_version.text() + ") Alamofire/"@ + self.alamofire_version.text()
    }
}

/// The outcome of reading one field at a position: the field's value and
/// the position after it, or the error that ends the reading.
pub type Step<T> = Result<(T, int), ParseErrorView>;

/// The bytes from `pos` up to the next `delim`, with the position after
/// that `delim`; nothing where no `delim` follows.
pub open spec fn field_at(bytes: Seq<u8>, pos: int, delim: u8) -> Option<(Seq<u8>, int)> {
    let end = first_index(bytes, pos, delim);
    if end < bytes.len() {
        Some((bytes.subrange(pos, end), end + 1))
    } else {
        None
    }
}

/// A field read as text: its delimiter must follow, and its bytes must be
/// UTF-8.
pub open spec fn text_field(bytes: Seq<u8>, pos: int, delim: u8, field: Field) -> Step<
    Seq<char>,
> {
    match field_at(bytes, pos, delim) {
        None => Err(ParseErrorView::read(field, "Invalid"@)),
        Some((raw, next)) => match decoded(raw) {
            Err(message) => Err(ParseErrorView::parse(field, message)),
            Ok(text) => Ok((text, next)),
        },
    }
}

/// A fixed part of the grammar: it must stand at `pos`, and the reading
/// goes on after it.
pub open spec fn fixed<T>(bytes: Seq<u8>, value: T, pos: int, part: Seq<char>, message: Seq<char>)
    -> Step<T> {
    if has_prefix_at(bytes, pos, encode_utf8(part)) {
        Ok((value, pos + encode_utf8(part).len()))
    } else {
        Err(ParseErrorView::structure(message))
    }
}

/// A version read from a text that the `semver` crate must accept.
pub open spec fn version_of(text: Seq<char>, field: Field) -> Result<VersionView, ParseErrorView> {
    match semver_parsed(text) {
        Ok(version) => Ok(version),
        Err(message) => Err(ParseErrorView::parse(field, message)),
    }
}

/// The executable: the text up to `/`.
pub open spec fn executable_at(bytes: Seq<u8>, pos: int) -> Step<Option<Seq<char>>> {
    match text_field(bytes, pos, SLASH, Field::Executable) {
        Err(e) => Err(e),
        Ok((text, next)) => Ok((absent_if_unknown(text), next)),
    }
}

/// The application's version: the text up to a space, the sentinel or a
/// version; `(` must follow.
pub open spec fn app_version_at(bytes: Seq<u8>, pos: int) -> Step<Option<VersionView>> {
    match text_field(bytes, pos, SPACE, Field::AppVersion) {
        Err(e) => Err(e),
        Ok((text, next)) => if text == unknown() {
            fixed(bytes, None, next, "("@, "Mismatch AppVersion end"@)
        } else {
            match version_of(text, Field::AppVersion) {
                Err(e) => Err(e),
                Ok(version) => fixed(bytes, Some(version), next, "("@, "Mismatch AppVersion end"@),
            }
        },
    }
}

/// The bundle: the text up to `;`; ` build:` must follow.
pub open spec fn bundle_at(bytes: Seq<u8>, pos: int) -> Step<Option<Seq<char>>> {
    match text_field(bytes, pos, SEMICOLON, Field::Bundle) {
        Err(e) => Err(e),
        Ok((text, next)) => fixed(
            bytes,
            absent_if_unknown(text),
            next,
            " build:"@,
            "Mismatch Bundle end"@,
        ),
    }
}

/// The build number: the text up to `;`, read as a build number; a space
/// must follow.
pub open spec fn app_build_at(bytes: Seq<u8>, pos: int) -> Step<Option<VersionView>> {
    match text_field(bytes, pos, SEMICOLON, Field::AppBuild) {
        Err(e) => Err(e),
        Ok((text, next)) => match DefaultUserAgentAppBuild::parse_spec(text) {
            Err(message) => Err(ParseErrorView::parse(Field::AppBuild, message)),
            Ok(build) => fixed(bytes, build, next, " "@, "Mismatch AppBuild end"@),
        },
    }
}

/// The operating system: the text up to a space, read as a name.
pub open spec fn os_name_at(bytes: Seq<u8>, pos: int) -> Step<Option<DefaultUserAgentOsName>> {
    match text_field(bytes, pos, SPACE, Field::OsName) {
        Err(e) => Err(e),
        Ok((text, next)) => match DefaultUserAgentOsName::parse_spec(text) {
            Err(message) => Err(ParseErrorView::parse(Field::OsName, message)),
            Ok(name) => Ok((name, next)),
        },
    }
}

/// The operating system's version: the text up to `)`, a version;
/// ` Alamofire/` must follow.
pub open spec fn os_version_at(bytes: Seq<u8>, pos: int) -> Step<VersionView> {
    match text_field(bytes, pos, CLOSE_PAREN, Field::OsVersion) {
        Err(e) => Err(e),
        Ok((text, next)) => match version_of(text, Field::OsVersion) {
            Err(e) => Err(e),
            Ok(version) => fixed(bytes, version, next, " Alamofire/"@, "Mismatch OsVersion end"@),
        },
    }
}

/// The library's version: the rest of the input, without the line
/// terminator that may end it, a version. Nothing may follow the line
/// terminator.
pub open spec fn alamofire_version_at(bytes: Seq<u8>, pos: int) -> Result<
    VersionView,
    ParseErrorView,
> {
    let end = first_index(bytes, pos, NEWLINE);
    if end + 1 < bytes.len() {
        Err(ParseErrorView::structure("Mismatch AlamofireVersion end"@))
    } else {
        match decoded(bytes.subrange(pos, end)) {
            Err(message) => Err(ParseErrorView::parse(Field::AlamofireVersion, message)),
            Ok(text) => version_of(text, Field::AlamofireVersion),
        }
    }
}

/// What a byte string is read as: the descriptor whose fields stand in it
/// in order, or the first error on the way.
pub open spec fn parse_spec(bytes: Seq<u8>) -> Result<DefaultUserAgentView, ParseErrorView> {
    match executable_at(bytes, 0) {
        Err(e) => Err(e),
        Ok((executable, next)) => match app_version_at(bytes, next) {
            Err(e) => Err(e),
            Ok((app_version, next)) => match bundle_at(bytes, next) {
                Err(e) => Err(e),
                Ok((bundle, next)) => match app_build_at(bytes, next) {
                    Err(e) => Err(e),
                    Ok((app_build, next)) => match os_name_at(bytes, next) {
                        Err(e) => Err(e),
                        Ok((os_name, next)) => match os_version_at(bytes, next) {
                            Err(e) => Err(e),
                            Ok((os_version, next)) => match alamofire_version_at(bytes, next) {
                                Err(e) => Err(e),
                                Ok(alamofire_version) => Ok(
                                    DefaultUserAgentView {
                                        executable,
                                        app_version,
                                        bundle,
                                        app_build,
                                        os_name,
                                        os_version,
                                        alamofire_version,
                                    },
                                ),
                            },
                        },
                    },
                },
            },
        },
    }
}

} // verus!
