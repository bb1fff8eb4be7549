//! Release versions: `major.minor.patch`, without pre-release or build suffix.

use crate::error::ArgError;
use vstd::prelude::*;

verus! {

/// A release version. Versions are ordered by major, then minor, then patch.
#[derive(Clone, Copy, Debug, PartialEq, Eq, Hash, PartialOrd, Ord, Structural)]
pub struct Version {
    pub major: u64,
    pub minor: u64,
    pub patch: u64,
}

impl Version {
    /// `self` comes before `other` in version order.
    pub open spec fn precedes(self, other: Version) -> bool {
        ||| self.major < other.major
        ||| self.major == other.major && self.minor < other.minor
        ||| self.major == other.major && self.minor == other.minor && self.patch < other.patch
    }

    /// The version as text: its three numbers in decimal, with a dot between
    /// them.
    pub open spec fn text(self) -> Seq<char> {
        decimal_text(self.major as nat) + "."@ + decimal_text(self.minor as nat) + "."@ + decimal_text(
            self.patch as nat,
        )
    }

    /// Returns the version as text, as in `1.2.0`.
    pub fn to_text(&self) -> (text: String)
        ensures
            text@ == self.text(),
    {
        let mut text = String::new();
        append_decimal(&mut text, self.major);
        text.append(".");
        append_decimal(&mut text, self.minor);
        text.append(".");
        append_decimal(&mut text, self.patch);
        assert(text@ == self.text());
        text
    }

    /// Tells whether `self` is an earlier version than `other`.
    pub fn is_before(&self, other: &Version) -> (earlier: bool)
        ensures
            earlier == self.precedes(*other),
    {
        if self.major != other.major {
            self.major < other.major
        } else if self.minor != other.minor {
            self.minor < other.minor
        } else {
            self.patch < other.patch
        }
    }
}

/// The decimal digit that stands for `digit`.
pub open spec fn digit_text(digit: nat) -> Seq<char> {
    if digit == 0 {
        "0"@
    } else if digit == 1 {
        "1"@
    } else if digit == 2 {
        "2"@
    } else if digit == 3 {
        "3"@
    } else if digit == 4 {
        "4"@
    } else if digit == 5 {
        "5"@
    } else if digit == 6 {
        "6"@
    } else if digit == 7 {
        "7"@
    } else if digit == 8 {
        "8"@
    } else {
        "9"@
    }
}

/// The decimal numeral of `n`, without leading zeros.
pub open spec fn decimal_text(n: nat) -> Seq<char>
    decreases n,
{
    if n < 10 {
        digit_text(n)
    } else {
        decimal_text(n / 10) + digit_text(n % 10)
    }
}

/// Returns the decimal digit that stands for `digit`.
fn digit_str(digit: u64) -> (text: &'static str)
    requires
        digit < 10,
    ensures
        text@ == digit_text(digit as nat),
{
    if digit == 0 {
        "0"
    } else if digit == 1 {
        "1"
    } else if digit == 2 {
        "2"
    } else if digit == 3 {
        "3"
    } else if digit == 4 {
        "4"
    } else if digit == 5 {
        "5"
    } else if digit == 6 {
        "6"
    } else if digit == 7 {
        "7"
    } else if digit == 8 {
        "8"
    } else {
        "9"
    }
}

/// Puts the decimal numeral of `n` at the end of `text`.
fn append_decimal(text: &mut String, n: u64)
    ensures
        final(text)@ == old(text)@ + decimal_text(n as nat),
    decreases n,
{
    if n >= 10 {
        append_decimal(text, n / 10);
    }
    text.append(digit_str(n % 10));
    assert(old(text)@ + decimal_text((n / 10) as nat) + digit_text((n % 10) as nat) == old(text)@ + (decimal_text(
        (n / 10) as nat,
    ) + digit_text((n % 10) as nat)));
}

/// What a semantic-version string holds once it has been parsed.
pub struct SemverParts {
    pub major: u64,
    pub minor: u64,
    pub patch: u64,
    /// The pre-release suffix without its `-`, empty when there is none.
    pub pre: String,
    /// The build metadata without its `+`, empty when there is none.
    pub build: String,
}

/// The mathematical content of a [`SemverParts`].
pub ghost struct SemverText {
    pub major: u64,
    pub minor: u64,
    pub patch: u64,
    pub pre: Seq<char>,
    pub build: Seq<char>,
}

impl DeepView for SemverParts {
    type V = SemverText;

    open spec fn deep_view(&self) -> SemverText {
        SemverText {
            major: self.major,
            minor: self.minor,
            patch: self.patch,
            pre: self.pre@,
            build: self.build@,
        }
    }
}

/// What `semver::Version::parse` makes of `text`: the parts of the version,
/// or `None` where it reports an error.
pub uninterp spec fn semver_parse(text: Seq<char>) -> Option<SemverText>;

/// Calls `semver::Version::parse`. The result is the parsed version's three
/// numbers with the text of its pre-release and build parts, or `None` where
/// the parser returned an error; this is named `semver_parse(text@)`.
#[verifier::external_body]
fn parse_semver(text: &str) -> (parts: Option<SemverParts>)
    ensures
        parts.deep_view() == semver_parse(text@),
{
    match semver::Version::parse(text) {
        Ok(v) => Some(SemverParts {
            major: v.major,
            minor: v.minor,
            patch: v.patch,
            pre: v.pre.as_str().to_string(),
            build: v.build.as_str().to_string(),
        }),
        Err(_) => None,
    }
}

/// The release version that parsed parts stand for, or the reason for which
/// they are rejected: a pre-release suffix first, then build metadata.
pub open spec fn release_of(parts: SemverText) -> Result<Version, ArgError> {
    if parts.pre.len() > 0 {
        Err(ArgError::Prerelease)
    } else if parts.build.len() > 0 {
        Err(ArgError::BuildMetadata)
    } else {
        Ok(Version { major: parts.major, minor: parts.minor, patch: parts.patch })
    }
}

/// The outcome of reading `text` as a release version, given what the
/// semantic-version parser made of it.
pub open spec fn version_of(parsed: Option<SemverText>) -> Result<Version, ArgError> {
    match parsed {
        None => Err(ArgError::InvalidVersion),
        Some(parts) => release_of(parts),
    }
}

/// Accepts parsed parts that carry neither a pre-release suffix nor build
/// metadata, and returns their three numbers unchanged.
pub fn release_version(parts: &SemverParts) -> (release: Result<Version, ArgError>)
    ensures
        release == release_of(parts.deep_view()),
{
    if !parts.pre.as_str().is_empty() {
        Err(ArgError::Prerelease)
    } else if !parts.build.as_str().is_empty() {
        Err(ArgError::BuildMetadata)
    } else {
        Ok(Version { major: parts.major, minor: parts.minor, patch: parts.patch })
    }
}

/// Reads `text` as a release version.
///
/// Fails with `InvalidVersion` where `text` is no semantic version, with
/// `Prerelease` or `BuildMetadata` where it is one but carries such a suffix.
pub fn parse_version(text: &str) -> (release: Result<Version, ArgError>)
    ensures
        release == version_of(semver_parse(text@)),
{
    match parse_semver(text) {
        None => Err(ArgError::InvalidVersion),
        Some(parts) => release_version(&parts),
    }
}

} // verus!
