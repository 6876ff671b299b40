//! Semantic versions: the value, its text, and the call into the `semver`
//! crate that reads one.

use crate::text::str_eq;
use vstd::prelude::*;
use vstd::string::*;
use vstd::utf8::is_ascii_chars;

verus! {

/// A semantic version: three numbers, a pre-release tag and build metadata,
/// the last two empty where the version has none.
#[derive(Debug, Clone, PartialEq, Eq)]
pub struct Version {
    /// The first number.
    pub major: u64,
    /// The second number.
    pub minor: u64,
    /// The third number.
    pub patch: u64,
    /// The pre-release tag, written after `-`; empty where there is none.
    pub pre: String,
    /// The build metadata, written after `+`; empty where there is none.
    pub build: String,
}

/// A version as a mathematical value.
pub ghost struct VersionView {
    pub major: u64,
    pub minor: u64,
    pub patch: u64,
    pub pre: Seq<char>,
    pub build: Seq<char>,
}

impl View for Version {
    type V = VersionView;

    open spec fn view(&self) -> VersionView {
        VersionView {
            major: self.major,
            minor: self.minor,
            patch: self.patch,
            pre: self.pre@,
            build: self.build@,
        }
    }
}

/// The character of a decimal digit.
pub open spec fn digit(d: nat) -> char
    recommends
        d < 10,
{
    "0123456789"@[d as int]
}

/// A number in decimal, without leading zeros.
pub open spec fn decimal(n: nat) -> Seq<char>
    decreases n,
{
    if n < 10 {
        seq![digit(n)]
    } else {
        decimal(n / 10).push(digit(n % 10))
    }
}

/// A tag with the mark that introduces it, or nothing for an empty tag.
pub open spec fn tagged(mark: Seq<char>, tag: Seq<char>) -> Seq<char> {
    if tag.len() == 0 {
        tag
    } else {
        mark + tag
    }
}

/// The three numbers of a version, joined by dots.
pub open spec fn triple_text(major: u64, minor: u64, patch: u64) -> Seq<char> {
    decimal(major as nat) + "."@ + decimal(minor as nat) + "."@ + decimal(patch as nat)
}

/// Whether a character may stand in a pre-release tag or in build metadata:
/// a digit, an ASCII letter, a hyphen or a dot.
pub open spec fn is_tag_char(c: char) -> bool {
    ||| '0' <= c <= '9'
    ||| 'A' <= c <= 'Z'
    ||| 'a' <= c <= 'z'
    ||| c == '-'
    ||| c == '.'
}

/// Whether a tag holds tag characters only.
pub open spec fn is_tag(tag: Seq<char>) -> bool {
    forall|i: int| 0 <= i < tag.len() ==> is_tag_char(#[trigger] tag[i])
}

/// Whether a character may stand in the text of a version with tags of tag
/// characters.
pub open spec fn is_version_char(c: char) -> bool {
    is_tag_char(c) || c == '+'
}

impl VersionView {
    /// Whether the version is one that its text stands for: its tags hold
    /// tag characters only, and the `semver` crate reads its text as this
    /// version.
    pub open spec fn is_canonical(self) -> bool {
        &&& is_tag(self.pre)
        &&& is_tag(self.build)
        &&& semver_parsed(self.text()) == Ok::<VersionView, Seq<char>>(self)
    }

    /// Whether the version has neither pre-release tag nor build metadata.
    pub open spec fn is_plain(self) -> bool {
        self.pre.len() == 0 && self.build.len() == 0
    }

    /// The version with the given numbers and no tags.
    pub open spec fn plain(major: u64, minor: u64, patch: u64) -> VersionView {
        VersionView { major, minor, patch, pre: Seq::empty(), build: Seq::empty() }
    }

    /// The text of a version: `major.minor.patch`, then `-` and the
    /// pre-release tag, then `+` and the build metadata.
    pub open spec fn text(self) -> Seq<char> {
        triple_text(self.major, self.minor, self.patch) + tagged("-"@, self.pre) + tagged(
            "+"@,
            self.build,
        )
    }
}

/// What `semver::Version::parse` makes of a text: the version that it reads,
/// or the message of its error.
pub uninterp spec fn semver_parsed(text: Seq<char>) -> Result<VersionView, Seq<char>>;

/// `semver::Version::parse`. Trusted: what the call returns is a function of
/// the text alone, the one that `semver_parsed` names. A version that was
/// read comes back field by field, an error as its message.
#[verifier::external_body]
fn semver_parse(text: &str) -> (r: Result<Version, String>)
    ensures
        match r {
            Ok(version) => semver_parsed(text@) == Ok::<VersionView, Seq<char>>(version@),
            Err(message) => semver_parsed(text@) == Err::<VersionView, Seq<char>>(message@),
        },
{
    match semver::Version::parse(text) {
        Ok(version) => Ok(
            Version {
                major: version.major,
                minor: version.minor,
                patch: version.patch,
                pre: version.pre.as_str().to_owned(),
                build: version.build.as_str().to_owned(),
            },
        ),
        Err(error) => Err(error.to_string()),
    }
}

/// The view of a parsed version or of the message in its place.
pub open spec fn version_result(r: Result<Version, String>) -> Result<VersionView, Seq<char>> {
    match r {
        Ok(version) => Ok(version@),
        Err(message) => Err(message@),
    }
}

/// A number in decimal is one digit or more, and digits only.
pub proof fn lemma_decimal(n: nat)
    ensures
        decimal(n).len() >= 1,
        forall|i: int| 0 <= i < decimal(n).len() ==> '0' <= #[trigger] decimal(n)[i] <= '9',
    decreases n,
{
    reveal_strlit("0123456789");
    if n >= 10 {
        lemma_decimal(n / 10);
    }
}

/// Three numbers joined by dots are digits and dots, and begin with a
/// digit.
pub proof fn lemma_triple_text(major: u64, minor: u64, patch: u64)
    ensures
        triple_text(major, minor, patch).len() >= 5,
        '0' <= triple_text(major, minor, patch)[0] <= '9',
        forall|i: int|
            0 <= i < triple_text(major, minor, patch).len() ==> {
                let c = #[trigger] triple_text(major, minor, patch)[i];
                '0' <= c <= '9' || c == '.'
            },
{
    reveal_strlit(".");
    lemma_decimal(major as nat);
    lemma_decimal(minor as nat);
    lemma_decimal(patch as nat);
}

/// The text of a version with tags of tag characters begins with a digit
/// and holds version characters only.
pub proof fn lemma_version_text(version: VersionView)
    requires
        is_tag(version.pre),
        is_tag(version.build),
    ensures
        version.text().len() >= 5,
        '0' <= version.text()[0] <= '9',
        forall|i: int|
            0 <= i < version.text().len() ==> is_version_char(#[trigger] version.text()[i]),
{
    reveal_strlit("-");
    reveal_strlit("+");
    lemma_triple_text(version.major, version.minor, version.patch);
    let triple = triple_text(version.major, version.minor, version.patch);
    let pre = tagged("-"@, version.pre);
    let build = tagged("+"@, version.build);
    assert forall|i: int| 0 <= i < pre.len() implies is_version_char(#[trigger] pre[i]) by {
        if i > 0 {
            assert(pre[i] == version.pre[i - 1]);
        }
    }
    assert forall|i: int| 0 <= i < build.len() implies is_version_char(#[trigger] build[i]) by {
        if i > 0 {
            assert(build[i] == version.build[i - 1]);
        }
    }
    assert forall|i: int| 0 <= i < version.text().len() implies is_version_char(
        #[trigger] version.text()[i],
    ) by {
        if i < triple.len() {
            assert(version.text()[i] == triple[i]);
        } else if i < triple.len() + pre.len() {
            assert(version.text()[i] == pre[i - triple.len()]);
        } else {
            assert(version.text()[i] == build[i - triple.len() - pre.len()]);
        }
    }
    assert(version.text()[0] == triple[0]);
}

/// The text of a decimal digit.
fn digit_str(d: u64) -> (r: &'static str)
    requires
        d < 10,
    ensures
        r@ == seq![digit(d as nat)],
{
    proof {
        reveal_strlit("0123456789");
        reveal_strlit("0");
        reveal_strlit("1");
        reveal_strlit("2");
        reveal_strlit("3");
        reveal_strlit("4");
        reveal_strlit("5");
        reveal_strlit("6");
        reveal_strlit("7");
        reveal_strlit("8");
        reveal_strlit("9");
    }
    let r = if d == 0 {
        "0"
    } else if d == 1 {
        "1"
    } else if d == 2 {
        "2"
    } else if d == 3 {
        "3"
    } else if d == 4 {
        "4"
    } else if d == 5 {
        "5"
    } else if d == 6 {
        "6"
    } else if d == 7 {
        "7"
    } else if d == 8 {
        "8"
    } else {
        "9"
    };
    assert(r@ =~= seq![digit(d as nat)]);
    r
}

/// Writes a number in decimal.
pub fn u64_to_string(n: u64) -> (r: String)
    ensures
        r@ == decimal(n as nat),
    decreases n,
{
    if n < 10 {
        String::from_str(digit_str(n))
    } else {
        let mut r = u64_to_string(n / 10);
        r.append(digit_str(n % 10));
        assert(r@ =~= decimal(n as nat));
        r
    }
}

/// Appends a tag with its mark to `out`, or nothing for an empty tag.
fn append_tagged(out: &mut String, mark: &str, tag: &str)
    ensures
        final(out)@ == old(out)@ + tagged(mark@, tag@),
{
    if !tag.is_empty() {
        out.append(mark);
        out.append(tag);
    }
    assert(final(out)@ =~= old(out)@ + tagged(mark@, tag@));
}

/// Writes three numbers joined by dots.
pub fn triple_to_string(major: u64, minor: u64, patch: u64) -> (r: String)
    ensures
        r@ == triple_text(major, minor, patch),
{
    let mut r = u64_to_string(major);
    r.append(".");
    r.append(u64_to_string(minor).as_str());
    r.append(".");
    r.append(u64_to_string(patch).as_str());
    r
}

/// Whether a tag holds tag characters only.
pub fn is_tag_str(tag: &str) -> (r: bool)
    ensures
        r == is_tag(tag@),
{
    if !tag.is_ascii() {
        proof {
            let i = choose|i: int|
                0 <= i < tag@.len() && !('\0' <= #[trigger] tag@[i] <= '\u{7f}');
            assert(!is_tag_char(tag@[i]));
        }
        return false;
    }
    let bytes = tag.as_bytes();
    proof {
        is_ascii_spec_bytes(tag);
    }
    let n = bytes.len();
    let mut i: usize = 0;
    while i < n
        invariant
            n == bytes@.len(),
            n == tag@.len(),
            i <= n,
            is_ascii_chars(tag@),
            forall|j: int| 0 <= j < n ==> bytes@[j] == tag@[j] as u8,
            forall|j: int| 0 <= j < i ==> is_tag_char(#[trigger] tag@[j]),
        decreases n - i,
    {
        let b = bytes[i];
        let ok = (0x30 <= b && b <= 0x39) || (0x41 <= b && b <= 0x5a) || (0x61 <= b && b <= 0x7a)
            || b == 0x2d || b == 0x2e;
        assert(ok == is_tag_char(tag@[i as int])) by {
            let c = tag@[i as int];
            assert('\0' <= c <= '\u{7f}');
            assert(b == c as u8);
        }
        if !ok {
            return false;
        }
        i += 1;
    }
    true
}

impl Version {
    /// Whether the version is one that its text stands for: whether its
    /// tags hold tag characters only and the `semver` crate reads its text as
    /// this version.
    pub fn is_canonical(&self) -> (r: bool)
        ensures
            r == self@.is_canonical(),
    {
        if !is_tag_str(self.pre.as_str()) || !is_tag_str(self.build.as_str()) {
            return false;
        }
        match semver_parse(self.to_string().as_str()) {
            Ok(read) => read.major == self.major && read.minor == self.minor && read.patch
                == self.patch && str_eq(read.pre.as_str(), self.pre.as_str()) && str_eq(
                read.build.as_str(),
                self.build.as_str(),
            ),
            Err(_) => false,
        }
    }

    /// The version with the given numbers and no tags.
    pub fn new(major: u64, minor: u64, patch: u64) -> (r: Version)
        ensures
            r@ == VersionView::plain(major, minor, patch),
    {
        Version { major, minor, patch, pre: String::new(), build: String::new() }
    }

    /// Reads a version from its text, as the `semver` crate does.
    pub fn parse(text: &str) -> (r: Result<Version, String>)
        ensures
            version_result(r) == semver_parsed(text@),
    {
        semver_parse(text)
    }

    /// Writes the version as text.
    pub fn to_string(&self) -> (r: String)
        ensures
            r@ == self@.text(),
    {
        let mut r = triple_to_string(self.major, self.minor, self.patch);
        append_tagged(&mut r, "-", self.pre.as_str());
        append_tagged(&mut r, "+", self.build.as_str());
        r
    }
}

impl std::str::FromStr for Version {
    type Err = String;

    /// Reads a version from its text, as `parse` does.
    fn from_str(s: &str) -> (r: Result<Self, String>)
        ensures
            version_result(r) == semver_parsed(s@),
    {
        Version::parse(s)
    }
}

} // verus!
