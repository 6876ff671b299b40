//! The operating systems that the header can name.

use crate::text::{str_eq, unknown};
use vstd::prelude::*;
use vstd::string::*;

verus! {

/// An operating system, one of seven.
#[allow(non_camel_case_types)]
#[derive(Debug, Copy, Clone, PartialEq, Eq, Hash, Structural)]
pub enum DefaultUserAgentOsName {
    macOSCatalyst,
    iOS,
    watchOS,
    tvOS,
    macOS,
    Linux,
    Windows,
}

impl DefaultUserAgentOsName {
    /// The one spelling of this operating system.
    pub open spec fn text(self) -> Seq<char> {
        match self {
            Self::macOSCatalyst => "macOS(Catalyst)"@,
            Self::iOS => "iOS"@,
            Self::watchOS => "watchOS"@,
            Self::tvOS => "tvOS"@,
            Self::macOS => "macOS"@,
            Self::Linux => "Linux"@,
            Self::Windows => "Windows"@,
        }
    }

    /// What a text names: an operating system by its exact spelling, none
    /// by the sentinel, and an error for any other text.
    pub open spec fn parse_spec(s: Seq<char>) -> Result<Option<Self>, Seq<char>> {
        if s == Self::macOSCatalyst.text() {
            Ok(Some(Self::macOSCatalyst))
        } else if s == Self::iOS.text() {
            Ok(Some(Self::iOS))
        } else if s == Self::watchOS.text() {
            Ok(Some(Self::watchOS))
        } else if s == Self::tvOS.text() {
            Ok(Some(Self::tvOS))
        } else if s == Self::macOS.text() {
            Ok(Some(Self::macOS))
        } else if s == Self::Linux.text() {
            Ok(Some(Self::Linux))
        } else if s == Self::Windows.text() {
            Ok(Some(Self::Windows))
        } else if s == unknown() {
            Ok(None)
        } else {
            Err("Mismatch"@)
        }
    }

    /// An optional operating system as the grammar writes it.
    pub open spec fn text_or_unknown(name: Option<Self>) -> Seq<char> {
        match name {
            Some(name) => name.text(),
            None => unknown(),
        }
    }

    /// Reads an operating system from its spelling, or none from the
    /// sentinel.
    pub fn parse(s: &str) -> (r: Result<Option<Self>, &'static str>)
        ensures
            match r {
                Ok(name) => Self::parse_spec(s@) == Ok::<Option<Self>, Seq<char>>(name),
                Err(message) => Self::parse_spec(s@) == Err::<Option<Self>, Seq<char>>(message@),
            },
    {
        if str_eq(s, "macOS(Catalyst)") {
            Ok(Some(Self::macOSCatalyst))
        } else if str_eq(s, "iOS") {
            Ok(Some(Self::iOS))
        } else if str_eq(s, "watchOS") {
            Ok(Some(Self::watchOS))
        } else if str_eq(s, "tvOS") {
            Ok(Some(Self::tvOS))
        } else if str_eq(s, "macOS") {
            Ok(Some(Self::macOS))
        } else if str_eq(s, "Linux") {
            Ok(Some(Self::Linux))
        } else if str_eq(s, "Windows") {
            Ok(Some(Self::Windows))
        } else if str_eq(s, "Unknown") {
            Ok(None)
        } else {
            Err("Mismatch")
        }
    }

    /// The spelling of this operating system.
    pub fn as_str(&self) -> (r: &'static str)
        ensures
            r@ == self.text(),
    {
        match self {
            Self::macOSCatalyst => "macOS(Catalyst)",
            Self::iOS => "iOS",
            Self::watchOS => "watchOS",
            Self::tvOS => "tvOS",
            Self::macOS => "macOS",
            Self::Linux => "Linux",
            Self::Windows => "Windows",
        }
    }

    /// Writes the operating system as text.
    pub fn to_string(&self) -> (r: String)
        ensures
            r@ == self.text(),
    {
        String::from_str(self.as_str())
    }

    /// The spellings are ASCII letters and parentheses, none is the
    /// sentinel, and no two are the same.
    pub proof fn lemma_texts(a: Self, b: Self)
        ensures
            a.text() != unknown(),
            a.text() == b.text() ==> a == b,
            a.text().len() > 0,
            forall|i: int|
                0 <= i < a.text().len() ==> {
                    let c = #[trigger] a.text()[i];
                    'A' <= c <= 'Z' || 'a' <= c <= 'z' || c == '(' || c == ')'
                },
    {
        reveal_strlit("macOS(Catalyst)");
        reveal_strlit("iOS");
        reveal_strlit("watchOS");
        reveal_strlit("tvOS");
        reveal_strlit("macOS");
        reveal_strlit("Linux");
        reveal_strlit("Windows");
        reveal_strlit("Unknown");
        assert(a.text()[0] != unknown()[0]);
        if a != b {
            if a.text().len() == b.text().len() {
                assert(a.text()[0] != b.text()[0]);
            }
        }
    }

    /// Every spelling reads back as its operating system.
    pub proof fn lemma_parse_text(name: Self)
        ensures
            Self::parse_spec(name.text()) == Ok::<Option<Self>, Seq<char>>(Some(name)),
    {
        Self::lemma_texts(name, Self::macOSCatalyst);
        Self::lemma_texts(name, Self::iOS);
        Self::lemma_texts(name, Self::watchOS);
        Self::lemma_texts(name, Self::tvOS);
        Self::lemma_texts(name, Self::macOS);
        Self::lemma_texts(name, Self::Linux);
        Self::lemma_texts(name, Self::Windows);
    }

    /// The set of spellings is closed: a text reads as an operating system
    /// only where it is that system's spelling, as none only where it is the
    /// sentinel, and any other text is a mismatch.
    pub proof fn lemma_parse_closed(s: Seq<char>)
        ensures
            forall|name: Self|
                Self::parse_spec(s) == Ok::<Option<Self>, Seq<char>>(Some(name)) <==> s
                    == #[trigger] name.text(),
            Self::parse_spec(s) == Ok::<Option<Self>, Seq<char>>(None) <==> s == unknown(),
            Self::parse_spec(s) is Err <==> s != unknown() && forall|name: Self|
                s != #[trigger] name.text(),
            Self::parse_spec(s) is Err ==> Self::parse_spec(s) == Err::<Option<Self>, Seq<char>>(
                "Mismatch"@,
            ),
    {
        assert forall|name: Self|
            Self::parse_spec(s) == Ok::<Option<Self>, Seq<char>>(Some(name)) <==> s
                == #[trigger] name.text() by {
            if s == name.text() {
                Self::lemma_parse_text(name);
            }
        }
        Self::lemma_texts(Self::macOSCatalyst, Self::iOS);
        Self::lemma_texts(Self::iOS, Self::iOS);
        Self::lemma_texts(Self::watchOS, Self::iOS);
        Self::lemma_texts(Self::tvOS, Self::iOS);
        Self::lemma_texts(Self::macOS, Self::iOS);
        Self::lemma_texts(Self::Linux, Self::iOS);
        Self::lemma_texts(Self::Windows, Self::iOS);
        if s != unknown() && Self::parse_spec(s) is Ok {
            let name = Self::parse_spec(s)->Ok_0->Some_0;
            assert(s == name.text());
        }
    }
}

} // verus!
