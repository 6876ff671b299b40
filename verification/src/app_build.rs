//! The build number of the application: a version written with one, two or
//! three numbers.

use crate::scan::{count_byte, count_of, lemma_count_concat};
use crate::text::{lemma_count_encoded, lemma_free, lemma_unknown, str_eq, unknown};
use crate::version::{
    decimal, lemma_decimal, semver_parsed, triple_text, triple_to_string, u64_to_string, Version,
    VersionView,
};
use vstd::prelude::*;
use vstd::string::*;

verus! {

/// A build number. It is held as a full version; its text leaves out the
/// numbers that are zero at the end.
#[derive(Debug, Clone, PartialEq, Eq)]
pub struct DefaultUserAgentAppBuild(pub Version);

impl View for DefaultUserAgentAppBuild {
    type V = VersionView;

    open spec fn view(&self) -> VersionView {
        self.0@
    }
}

impl DefaultUserAgentAppBuild {
    /// The number of segments that the dots of a text separate.
    pub open spec fn segments(s: Seq<char>) -> nat {
        count_of(s, '.') + 1
    }

    /// The text of three segments that stands for a text of one, two or
    /// three: missing segments are zero. A text of more segments stands for
    /// nothing.
    pub open spec fn padded(s: Seq<char>) -> Option<Seq<char>> {
        if Self::segments(s) == 1 {
            Some(s + ".0.0"@)
        } else if Self::segments(s) == 2 {
            Some(s + ".0"@)
        } else if Self::segments(s) == 3 {
            Some(s)
        } else {
            None
        }
    }

    /// The build number that a version read from the padded text gives.
    pub open spec fn lifted(parsed: Result<VersionView, Seq<char>>) -> Result<
        Option<VersionView>,
        Seq<char>,
    > {
        match parsed {
            Ok(version) => Ok(Some(version)),
            Err(message) => Err(message),
        }
    }

    /// What a text gives as a build number: none for the sentinel, an
    /// error for a text of more than three segments, and otherwise what the
    /// padded text gives as a version.
    pub open spec fn parse_spec(s: Seq<char>) -> Result<Option<VersionView>, Seq<char>> {
        if s == unknown() {
            Ok(None)
        } else {
            match Self::padded(s) {
                None => Err("Invalid"@),
                Some(text) => Self::lifted(semver_parsed(text)),
            }
        }
    }

    /// The text of a build number: its numbers without the zeros at the end,
    /// and at least the first.
    pub open spec fn text(build: VersionView) -> Seq<char> {
        if build.minor == 0 && build.patch == 0 {
            decimal(build.major as nat)
        } else if build.patch == 0 {
            decimal(build.major as nat) + "."@ + decimal(build.minor as nat)
        } else {
            triple_text(build.major, build.minor, build.patch)
        }
    }

    /// An optional build number as the grammar writes it.
    pub open spec fn text_or_unknown(build: Option<VersionView>) -> Seq<char> {
        match build {
            Some(build) => Self::text(build),
            None => unknown(),
        }
    }

    /// The view of a result of `parse`.
    pub open spec fn result_view(r: Result<Option<Self>, String>) -> Result<
        Option<VersionView>,
        Seq<char>,
    > {
        match r {
            Ok(Some(build)) => Ok(Some(build@)),
            Ok(None) => Ok(None),
            Err(message) => Err(message@),
        }
    }

    /// A text of one or two segments gives what it gives when written out
    /// with zeros for the segments that it leaves out.
    pub proof fn lemma_precision(s: Seq<char>)
        requires
            s != unknown(),
        ensures
            Self::segments(s) == 1 ==> Self::parse_spec(s + ".0.0"@) == Self::parse_spec(s),
            Self::segments(s) == 2 ==> Self::parse_spec(s + ".0"@) == Self::parse_spec(s),
    {
        reveal_strlit(".0.0");
        reveal_strlit(".0");
        lemma_unknown();
        lemma_free(unknown(), '.');
        lemma_count_concat(s, ".0.0"@, '.');
        lemma_count_concat(s, ".0"@, '.');
        reveal_with_fuel(count_of, 5);
        assert(count_of(".0.0"@, '.') == 2);
        assert(count_of(".0"@, '.') == 1);
    }

    /// The text of a build number is digits and dots, is not the sentinel,
    /// and has as many segments as numbers.
    pub proof fn lemma_text(build: VersionView)
        ensures
            Self::text(build).len() >= 1,
            '0' <= Self::text(build)[0] <= '9',
            forall|i: int|
                0 <= i < Self::text(build).len() ==> {
                    let c = #[trigger] Self::text(build)[i];
                    '0' <= c <= '9' || c == '.'
                },
            Self::text(build) != unknown(),
            Self::segments(Self::text(build)) == if build.minor == 0 && build.patch == 0 {
                1nat
            } else if build.patch == 0 {
                2nat
            } else {
                3nat
            },
    {
        reveal_strlit(".");
        lemma_unknown();
        let major = decimal(build.major as nat);
        let minor = decimal(build.minor as nat);
        let patch = decimal(build.patch as nat);
        lemma_decimal(build.major as nat);
        lemma_decimal(build.minor as nat);
        lemma_decimal(build.patch as nat);
        lemma_free(major, '.');
        lemma_free(minor, '.');
        lemma_free(patch, '.');
        reveal_with_fuel(count_of, 2);
        assert(count_of("."@, '.') == 1);
        lemma_count_concat(major, "."@, '.');
        lemma_count_concat(major + "."@, minor, '.');
        lemma_count_concat(major + "."@ + minor, "."@, '.');
        lemma_count_concat(major + "."@ + minor + "."@, patch, '.');
    }

    /// A build number without tags that is canonical as a version is read
    /// back from its text.
    pub proof fn lemma_parse_text(build: VersionView)
        requires
            build.is_plain(),
            build.is_canonical(),
        ensures
            Self::parse_spec(Self::text(build)) == Ok::<Option<VersionView>, Seq<char>>(
                Some(build),
            ),
    {
        Self::lemma_text(build);
        reveal_strlit(".");
        reveal_strlit(".0");
        reveal_strlit(".0.0");
        reveal_strlit("0123456789");
        reveal_strlit("-");
        reveal_strlit("+");
        let triple = triple_text(build.major, build.minor, build.patch);
        assert(build.text() =~= triple);
        assert(decimal(0) =~= seq!['0']);
        if build.minor == 0 && build.patch == 0 {
            assert(Self::text(build) + ".0.0"@ =~= triple);
        } else if build.patch == 0 {
            assert(Self::text(build) + ".0"@ =~= triple);
        }
    }

    /// Pads a text of one or two segments to three.
    pub fn pad(s: &str) -> (r: Option<String>)
        ensures
            crate::text::opt_view(r) == Self::padded(s@),
    {
        proof {
            lemma_count_encoded(s@, '.');
        }
        let dots = count_byte(s.as_bytes(), 0x2e);
        if dots == 0 {
            let mut padded = String::from_str(s);
            padded.append(".0.0");
            Some(padded)
        } else if dots == 1 {
            let mut padded = String::from_str(s);
            padded.append(".0");
            Some(padded)
        } else if dots == 2 {
            Some(String::from_str(s))
        } else {
            None
        }
    }

    /// Makes the build number of a version read from a padded text.
    pub fn from_parsed(parsed: Result<Version, String>) -> (r: Result<Option<Self>, String>)
        ensures
            Self::result_view(r) == Self::lifted(crate::version::version_result(parsed)),
    {
        match parsed {
            Ok(version) => Ok(Some(DefaultUserAgentAppBuild(version))),
            Err(message) => Err(message),
        }
    }

    /// Reads a build number from a text of one to three numbers, or none
    /// from the sentinel.
    pub fn parse(s: &str) -> (r: Result<Option<Self>, String>)
        ensures
            Self::result_view(r) == Self::parse_spec(s@),
    {
        if str_eq(s, "Unknown") {
            return Ok(None);
        }
        match Self::pad(s) {
            None => Err(String::from_str("Invalid")),
            Some(text) => Self::from_parsed(Version::parse(text.as_str())),
        }
    }

    /// Writes the build number as text.
    pub fn to_string(&self) -> (r: String)
        ensures
            r@ == Self::text(self@),
    {
        if self.0.minor == 0 && self.0.patch == 0 {
            u64_to_string(self.0.major)
        } else if self.0.patch == 0 {
            let mut r = u64_to_string(self.0.major);
            r.append(".");
            r.append(u64_to_string(self.0.minor).as_str());
            r
        } else {
            triple_to_string(self.0.major, self.0.minor, self.0.patch)
        }
    }
}

} // verus!
