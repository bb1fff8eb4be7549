//! The reasons for which one decorator call is rejected.

use vstd::prelude::*;

verus! {

/// The keyword arguments that `@brint.feature(..)` accepts.
#[derive(Clone, Copy, Debug, PartialEq, Eq, Hash, Structural)]
pub enum Field {
    Name,
    Version,
    Author,
    Description,
    New,
    Old,
}

/// Why a `@brint.feature(..)` call was rejected.
#[derive(Clone, Copy, Debug, PartialEq, Eq, Hash, Structural)]
pub enum ArgError {
    /// The call has a positional argument.
    PositionalArgument,
    /// The keyword is not one of the six accepted ones.
    UnknownKeyword,
    /// The keyword occurs a second time.
    Duplicate(Field),
    /// The value has the wrong shape: `name`, `version`, `author` and
    /// `description` take a string literal, `old` and `new` a bare identifier.
    WrongValue(Field),
    /// The version string is not a semantic version.
    InvalidVersion,
    /// The version carries a pre-release suffix.
    Prerelease,
    /// The version carries build metadata.
    BuildMetadata,
    /// No `version` keyword was given.
    MissingVersion,
    /// No `name` keyword was given.
    MissingName,
    /// Both `old` and `new` were given.
    OldAndNew,
}

impl ArgError {
    /// The text of the diagnostic for this error.
    pub open spec fn message_text(self) -> Seq<char> {
        match self {
            ArgError::PositionalArgument => "@brint.feature(..) does not accept positional argument"@,
            ArgError::UnknownKeyword => "@brint.feature(..) has unknown keyword argument"@,
            ArgError::Duplicate(Field::Name) => "@brint.feature(..) has two name keyword arguments"@,
            ArgError::Duplicate(Field::Version) => "@brint.feature(..) has two version keyword arguments"@,
            ArgError::Duplicate(Field::Author) => "@brint.feature(..) has two author keyword arguments"@,
            ArgError::Duplicate(Field::Description) => "@brint.feature(..) has two description keyword arguments"@,
            ArgError::Duplicate(Field::New) => "@brint.feature(..) has two new keyword arguments"@,
            ArgError::Duplicate(Field::Old) => "@brint.feature(..) has two old keyword arguments"@,
            ArgError::WrongValue(Field::Name) => "@brint.feature(..)'s name only accepts literal string"@,
            ArgError::WrongValue(Field::Version) => "@brint.feature(..)'s version only accepts literal string"@,
            ArgError::WrongValue(Field::Author) => "@brint.feature(..)'s author only accepts literal string"@,
            ArgError::WrongValue(Field::Description) => "@brint.feature(..)'s description only accepts literal string"@,
            ArgError::WrongValue(Field::New) => "@brint.feature(..)'s new only accepts an identifier"@,
            ArgError::WrongValue(Field::Old) => "@brint.feature(..)'s old only accepts an identifier"@,
            ArgError::InvalidVersion => "@brint.feature(..)'s version keyword argument has invalid semver version"@,
            ArgError::Prerelease => "@brint.feature(..)'s version keyword argument does not support prerelease"@,
            ArgError::BuildMetadata => "@brint.feature(..)'s version keyword argument does not support build metadata"@,
            ArgError::MissingVersion => "@brint.feature(..) has no version keyword argument"@,
            ArgError::MissingName => "@brint.feature(..) has no name keyword argument"@,
            ArgError::OldAndNew => "@brint.feature(..) has both old and new keyword arguments"@,
        }
    }

    /// Returns the diagnostic for this error.
    pub fn message(&self) -> (text: &'static str)
        ensures
            text@ == self.message_text(),
    {
        match self {
            ArgError::PositionalArgument => "@brint.feature(..) does not accept positional argument",
            ArgError::UnknownKeyword => "@brint.feature(..) has unknown keyword argument",
            ArgError::Duplicate(Field::Name) => "@brint.feature(..) has two name keyword arguments",
            ArgError::Duplicate(Field::Version) => "@brint.feature(..) has two version keyword arguments",
            ArgError::Duplicate(Field::Author) => "@brint.feature(..) has two author keyword arguments",
            ArgError::Duplicate(Field::Description) => "@brint.feature(..) has two description keyword arguments",
            ArgError::Duplicate(Field::New) => "@brint.feature(..) has two new keyword arguments",
            ArgError::Duplicate(Field::Old) => "@brint.feature(..) has two old keyword arguments",
            ArgError::WrongValue(Field::Name) => "@brint.feature(..)'s name only accepts literal string",
            ArgError::WrongValue(Field::Version) => "@brint.feature(..)'s version only accepts literal string",
            ArgError::WrongValue(Field::Author) => "@brint.feature(..)'s author only accepts literal string",
            ArgError::WrongValue(Field::Description) => "@brint.feature(..)'s description only accepts literal string",
            ArgError::WrongValue(Field::New) => "@brint.feature(..)'s new only accepts an identifier",
            ArgError::WrongValue(Field::Old) => "@brint.feature(..)'s old only accepts an identifier",
            ArgError::InvalidVersion => "@brint.feature(..)'s version keyword argument has invalid semver version",
            ArgError::Prerelease => "@brint.feature(..)'s version keyword argument does not support prerelease",
            ArgError::BuildMetadata => "@brint.feature(..)'s version keyword argument does not support build metadata",
            ArgError::MissingVersion => "@brint.feature(..) has no version keyword argument",
            ArgError::MissingName => "@brint.feature(..) has no name keyword argument",
            ArgError::OldAndNew => "@brint.feature(..) has both old and new keyword arguments",
        }
    }
}

} // verus!
