//! Feature records: one per accepted `@brint.feature(..)` call.

use crate::args::{check_complete, ArgsView, DecoratorArgs};
use crate::error::ArgError;
use crate::version::Version;
use vstd::prelude::*;

verus! {

/// One recognised feature annotation.
#[derive(Clone, Debug, PartialEq, Eq)]
pub struct FeatureDecorator {
    /// The file in which the annotation stands.
    pub path: String,
    /// The 1-based line of the annotated definition.
    pub line: usize,
    pub feature_name: String,
    /// The version that introduced the feature.
    pub version: Version,
    /// The currently valid name of the symbol.
    pub new: String,
    /// The deprecated name of the symbol, if it has one.
    pub old: Option<String>,
    pub author: Option<String>,
    pub description: Option<String>,
}

/// The mathematical content of a [`FeatureDecorator`].
pub ghost struct FeatureView {
    pub path: Seq<char>,
    pub line: usize,
    pub feature_name: Seq<char>,
    pub version: Version,
    pub new: Seq<char>,
    pub old: Option<Seq<char>>,
    pub author: Option<Seq<char>>,
    pub description: Option<Seq<char>>,
}

impl DeepView for FeatureDecorator {
    type V = FeatureView;

    open spec fn deep_view(&self) -> FeatureView {
        FeatureView {
            path: self.path@,
            line: self.line,
            feature_name: self.feature_name@,
            version: self.version,
            new: self.new@,
            old: self.old.deep_view(),
            author: self.author.deep_view(),
            description: self.description.deep_view(),
        }
    }
}

/// The current name of the symbol: the `new` argument where it was given,
/// else the name under which the definition is shown.
pub open spec fn new_name(shown: Seq<char>, args: ArgsView) -> Seq<char> {
    match args.new {
        Some(id) => id,
        None => shown,
    }
}

/// The deprecated name of the symbol: the `old` argument where it was given;
/// else, where `new` was given, the name under which the definition is shown;
/// else none.
pub open spec fn old_name(shown: Seq<char>, args: ArgsView) -> Option<Seq<char>> {
    match args.old {
        Some(id) => Some(id),
        None => if args.new is Some {
            Some(shown)
        } else {
            None
        },
    }
}

/// The record for a complete set of arguments on the definition shown as
/// `shown`, at `line` of the file `path`.
pub open spec fn feature_of(path: Seq<char>, line: usize, shown: Seq<char>, args: ArgsView) -> FeatureView
    recommends
        check_complete(args) is Ok,
{
    FeatureView {
        path,
        line,
        feature_name: args.name->0,
        version: args.version->0,
        new: new_name(shown, args),
        old: old_name(shown, args),
        author: args.author,
        description: args.description,
    }
}

impl FeatureDecorator {
    /// Checks that the recorded arguments are complete and builds the record.
    ///
    /// Fails exactly as the completeness checks say: without a version, without
    /// a name, or with both `old` and `new`.
    pub fn from_args(path: &str, line: usize, shown: String, args: DecoratorArgs) -> (result: Result<
        FeatureDecorator,
        ArgError,
    >)
        ensures
            match check_complete(args.deep_view()) {
                Ok(_) => result is Ok && result->Ok_0.deep_view() == feature_of(
                    path@,
                    line,
                    shown@,
                    args.deep_view(),
                ),
                Err(error) => result == Err::<FeatureDecorator, ArgError>(error),
            },
    {
        let version = match args.version {
            Some(version) => version,
            None => return Err(ArgError::MissingVersion),
        };
        let feature_name = match args.name {
            Some(name) => name,
            None => return Err(ArgError::MissingName),
        };
        let (old, new) = match (args.old, args.new) {
            (Some(_), Some(_)) => return Err(ArgError::OldAndNew),
            (Some(old), None) => (Some(old), shown),
            (None, Some(new)) => (Some(shown), new),
            (None, None) => (None, shown),
        };
        Ok(
            FeatureDecorator {
                path: path.to_owned(),
                line,
                feature_name,
                version,
                new,
                old,
                author: args.author,
                description: args.description,
            },
        )
    }
}

} // verus!
