//! Validation of the arguments of one `@brint.feature(..)` call.
//!
//! The keyword arguments are taken in source order and recorded one by one;
//! the first offending keyword decides the error. Once all are recorded, the
//! checks that concern the call as a whole are made.

use crate::error::{ArgError, Field};
use crate::syntax::{ArgValue, ArgValueView, KeywordArg, KeywordArgView};
use crate::text::same_text;
use crate::version::{parse_version, semver_parse, version_of, Version};
use vstd::prelude::*;

verus! {

/// The keyword arguments of one decorator call, as far as they have been
/// recorded.
#[derive(Clone, Debug, PartialEq, Eq)]
pub struct DecoratorArgs {
    pub name: Option<String>,
    pub version: Option<Version>,
    pub old: Option<String>,
    pub new: Option<String>,
    pub author: Option<String>,
    pub description: Option<String>,
}

/// The mathematical content of a [`DecoratorArgs`].
pub ghost struct ArgsView {
    pub name: Option<Seq<char>>,
    pub version: Option<Version>,
    pub old: Option<Seq<char>>,
    pub new: Option<Seq<char>>,
    pub author: Option<Seq<char>>,
    pub description: Option<Seq<char>>,
}

impl DeepView for DecoratorArgs {
    type V = ArgsView;

    open spec fn deep_view(&self) -> ArgsView {
        ArgsView {
            name: self.name.deep_view(),
            version: self.version,
            old: self.old.deep_view(),
            new: self.new.deep_view(),
            author: self.author.deep_view(),
            description: self.description.deep_view(),
        }
    }
}

impl ArgsView {
    /// The record in which no keyword has been seen yet.
    pub open spec fn empty() -> ArgsView {
        ArgsView { name: None, version: None, old: None, new: None, author: None, description: None }
    }

    /// Whether a value for `field` has been recorded.
    pub open spec fn has(self, field: Field) -> bool {
        match field {
            Field::Name => self.name is Some,
            Field::Version => self.version is Some,
            Field::Author => self.author is Some,
            Field::Description => self.description is Some,
            Field::New => self.new is Some,
            Field::Old => self.old is Some,
        }
    }
}

impl Default for DecoratorArgs {
    fn default() -> (args: DecoratorArgs)
        ensures
            args.deep_view() == ArgsView::empty(),
    {
        DecoratorArgs { name: None, version: None, old: None, new: None, author: None, description: None }
    }
}

/// The value of a string literal, `None` for any other expression.
pub open spec fn string_constant_of(x: ArgValueView) -> Option<Seq<char>> {
    match x {
        ArgValueView::Str(value) => Some(value),
        _ => None,
    }
}

/// The identifier of a bare name, `None` for any other expression.
pub open spec fn name_of(x: ArgValueView) -> Option<Seq<char>> {
    match x {
        ArgValueView::Name(id) => Some(id),
        _ => None,
    }
}

/// Returns the value of `x` if it is a string literal.
pub fn as_string_constant(x: &ArgValue) -> (value: Option<String>)
    ensures
        value.deep_view() == string_constant_of(x.deep_view()),
{
    match x {
        ArgValue::Str(value) => Some(value.clone()),
        _ => None,
    }
}

/// Returns the identifier of `x` if it is a bare name.
pub fn as_name(x: &ArgValue) -> (id: Option<String>)
    ensures
        id.deep_view() == name_of(x.deep_view()),
{
    match x {
        ArgValue::Name(id) => Some(id.clone()),
        _ => None,
    }
}

/// The field that a keyword names, `None` for an unknown keyword and for
/// the `**mapping` form.
pub open spec fn field_of(arg: Option<Seq<char>>) -> Option<Field> {
    match arg {
        None => None,
        Some(word) => if word == "name"@ {
            Some(Field::Name)
        } else if word == "version"@ {
            Some(Field::Version)
        } else if word == "author"@ {
            Some(Field::Author)
        } else if word == "description"@ {
            Some(Field::Description)
        } else if word == "new"@ {
            Some(Field::New)
        } else if word == "old"@ {
            Some(Field::Old)
        } else {
            None
        },
    }
}

/// Returns the field that a keyword names.
pub fn keyword_field(arg: &Option<String>) -> (field: Option<Field>)
    ensures
        field == field_of(arg.deep_view()),
{
    match arg {
        None => None,
        Some(word) => {
            let word = word.as_str();
            if same_text(word, "name") {
                Some(Field::Name)
            } else if same_text(word, "version") {
                Some(Field::Version)
            } else if same_text(word, "author") {
                Some(Field::Author)
            } else if same_text(word, "description") {
                Some(Field::Description)
            } else if same_text(word, "new") {
                Some(Field::New)
            } else if same_text(word, "old") {
                Some(Field::Old)
            } else {
                None
            }
        },
    }
}

/// The record after the value of one keyword has been stored under `field`,
/// or the error for a value of the wrong shape or an unacceptable version.
/// `name`, `author` and `description` take a string literal; `version` takes
/// a string literal that reads as a release version; `old` and `new` take a
/// bare identifier.
pub open spec fn store_value(state: ArgsView, field: Field, value: ArgValueView) -> Result<ArgsView, ArgError> {
    match field {
        Field::Name => match string_constant_of(value) {
            Some(text) => Ok(ArgsView { name: Some(text), ..state }),
            None => Err(ArgError::WrongValue(field)),
        },
        Field::Version => match string_constant_of(value) {
            Some(text) => match version_of(semver_parse(text)) {
                Ok(version) => Ok(ArgsView { version: Some(version), ..state }),
                Err(error) => Err(error),
            },
            None => Err(ArgError::WrongValue(field)),
        },
        Field::Author => match string_constant_of(value) {
            Some(text) => Ok(ArgsView { author: Some(text), ..state }),
            None => Err(ArgError::WrongValue(field)),
        },
        Field::Description => match string_constant_of(value) {
            Some(text) => Ok(ArgsView { description: Some(text), ..state }),
            None => Err(ArgError::WrongValue(field)),
        },
        Field::New => match name_of(value) {
            Some(id) => Ok(ArgsView { new: Some(id), ..state }),
            None => Err(ArgError::WrongValue(field)),
        },
        Field::Old => match name_of(value) {
            Some(id) => Ok(ArgsView { old: Some(id), ..state }),
            None => Err(ArgError::WrongValue(field)),
        },
    }
}

/// The record after one more keyword, or the error that this keyword causes:
/// an unknown keyword, a keyword seen before, or a value that is not
/// accepted, in this order.
pub open spec fn record_keyword(state: ArgsView, keyword: KeywordArgView) -> Result<ArgsView, ArgError> {
    match field_of(keyword.arg) {
        None => Err(ArgError::UnknownKeyword),
        Some(field) => if state.has(field) {
            Err(ArgError::Duplicate(field))
        } else {
            store_value(state, field, keyword.value)
        },
    }
}

/// The record after all of `keywords`, taken in order from the empty record,
/// or the error of the first keyword that causes one.
pub open spec fn record_keywords(keywords: Seq<KeywordArgView>) -> Result<ArgsView, ArgError>
    decreases keywords.len(),
{
    if keywords.len() == 0 {
        Ok(ArgsView::empty())
    } else {
        match record_keywords(keywords.drop_last()) {
            Ok(state) => record_keyword(state, keywords.last()),
            Err(error) => Err(error),
        }
    }
}

/// The checks on a complete record: `version` and `name` are present, and
/// `old` and `new` are not both given.
pub open spec fn check_complete(state: ArgsView) -> Result<ArgsView, ArgError> {
    if state.version is None {
        Err(ArgError::MissingVersion)
    } else if state.name is None {
        Err(ArgError::MissingName)
    } else if state.old is Some && state.new is Some {
        Err(ArgError::OldAndNew)
    } else {
        Ok(state)
    }
}

/// What validating a call with the given arguments yields.
pub open spec fn parse_args(args: Seq<ArgValueView>, keywords: Seq<KeywordArgView>) -> Result<ArgsView, ArgError> {
    if args.len() > 0 {
        Err(ArgError::PositionalArgument)
    } else {
        match record_keywords(keywords) {
            Ok(state) => check_complete(state),
            Err(error) => Err(error),
        }
    }
}

/// Relates an executable result to its mathematical counterpart.
pub open spec fn args_result_is(result: Result<DecoratorArgs, ArgError>, expected: Result<ArgsView, ArgError>) -> bool {
    match result {
        Ok(parsed) => expected == Ok::<ArgsView, ArgError>(parsed.deep_view()),
        Err(error) => expected == Err::<ArgsView, ArgError>(error),
    }
}

/// Stores the value of one keyword under `field`.
pub fn store_keyword_value(state: DecoratorArgs, field: Field, value: &ArgValue) -> (result: Result<DecoratorArgs, ArgError>)
    ensures
        args_result_is(result, store_value(state.deep_view(), field, value.deep_view())),
{
    let mut state = state;
    match field {
        Field::Name => match as_string_constant(value) {
            Some(text) => {
                state.name = Some(text);
                Ok(state)
            },
            None => Err(ArgError::WrongValue(field)),
        },
        Field::Version => match as_string_constant(value) {
            Some(text) => match parse_version(text.as_str()) {
                Ok(version) => {
                    state.version = Some(version);
                    Ok(state)
                },
                Err(error) => Err(error),
            },
            None => Err(ArgError::WrongValue(field)),
        },
        Field::Author => match as_string_constant(value) {
            Some(text) => {
                state.author = Some(text);
                Ok(state)
            },
            None => Err(ArgError::WrongValue(field)),
        },
        Field::Description => match as_string_constant(value) {
            Some(text) => {
                state.description = Some(text);
                Ok(state)
            },
            None => Err(ArgError::WrongValue(field)),
        },
        Field::New => match as_name(value) {
            Some(id) => {
                state.new = Some(id);
                Ok(state)
            },
            None => Err(ArgError::WrongValue(field)),
        },
        Field::Old => match as_name(value) {
            Some(id) => {
                state.old = Some(id);
                Ok(state)
            },
            None => Err(ArgError::WrongValue(field)),
        },
    }
}

impl DecoratorArgs {
    /// Tells whether a value for `field` has been recorded.
    pub fn has(&self, field: Field) -> (present: bool)
        ensures
            present == self.deep_view().has(field),
    {
        match field {
            Field::Name => self.name.is_some(),
            Field::Version => self.version.is_some(),
            Field::Author => self.author.is_some(),
            Field::Description => self.description.is_some(),
            Field::New => self.new.is_some(),
            Field::Old => self.old.is_some(),
        }
    }
}

/// Validates the arguments of one `@brint.feature(..)` call.
///
/// A positional argument is rejected first. The keywords are then taken in
/// order: each must be one of `name`, `version`, `old`, `new`, `author`,
/// `description`, must not have occurred before, and must have a value of the
/// right shape. Last, `version` and `name` must be present and `old` and `new`
/// must not both be. A keyword without a name (`**mapping`) counts as unknown.
pub fn parse_decorator_args(args: &[ArgValue], keywords: &[KeywordArg]) -> (result: Result<DecoratorArgs, ArgError>)
    ensures
        args_result_is(result, parse_args(args.deep_view(), keywords.deep_view())),
{
    if args.len() != 0 {
        return Err(ArgError::PositionalArgument);
    }
    let ghost all = keywords.deep_view();
    let mut parsed = DecoratorArgs::default();
    let mut i: usize = 0;
    while i < keywords.len()
        invariant
            i <= keywords.len(),
            all == keywords.deep_view(),
            all.len() == keywords.len(),
            args.deep_view().len() == 0,
            record_keywords(all.take(i as int)) == Ok::<ArgsView, ArgError>(parsed.deep_view()),
        decreases keywords.len() - i,
    {
        let keyword = &keywords[i];
        proof {
            let upto = all.take(i + 1);
            assert(upto.drop_last() == all.take(i as int));
            assert(upto.last() == keyword.deep_view());
            lemma_record_keywords_error_stays(all, i + 1);
        }
        let field = match keyword_field(&keyword.arg) {
            Some(field) => field,
            None => return Err(ArgError::UnknownKeyword),
        };
        if parsed.has(field) {
            return Err(ArgError::Duplicate(field));
        }
        match store_keyword_value(parsed, field, &keyword.value) {
            Ok(next) => {
                parsed = next;
            },
            Err(error) => return Err(error),
        }
        i += 1;
    }
    assert(all.take(i as int) == all);
    if parsed.version.is_none() {
        return Err(ArgError::MissingVersion);
    }
    if parsed.name.is_none() {
        return Err(ArgError::MissingName);
    }
    if parsed.old.is_some() && parsed.new.is_some() {
        return Err(ArgError::OldAndNew);
    }
    Ok(parsed)
}

/// Whether one of `keywords` names `field`.
pub open spec fn supplies(keywords: Seq<KeywordArgView>, field: Field) -> bool {
    exists|i: int| 0 <= i < keywords.len() && field_of((#[trigger] keywords[i]).arg) == Some(field)
}

/// Whether `value` is accepted for `field`: a string literal for `name`,
/// `author` and `description`, a string literal that reads as a release
/// version for `version`, a bare identifier for `old` and `new`.
pub open spec fn accepts(field: Field, value: ArgValueView) -> bool {
    match field {
        Field::Version => string_constant_of(value) matches Some(text) && version_of(semver_parse(text)) is Ok,
        Field::New | Field::Old => name_of(value) is Some,
        _ => string_constant_of(value) is Some,
    }
}

/// Whether `keyword` is one of the six and has an accepted value.
pub open spec fn valid_keyword(keyword: KeywordArgView) -> bool {
    match field_of(keyword.arg) {
        Some(field) => accepts(field, keyword.value),
        None => false,
    }
}

/// Whether each keyword is one of the six, none occurs twice, and each has
/// an accepted value.
pub open spec fn all_valid(keywords: Seq<KeywordArgView>) -> bool {
    &&& forall|i: int| 0 <= i < keywords.len() ==> valid_keyword(#[trigger] keywords[i])
    &&& forall|i: int, j: int|
        0 <= i < j < keywords.len() ==> field_of((#[trigger] keywords[i]).arg) != field_of(
            (#[trigger] keywords[j]).arg,
        )
}

/// Whether `state` holds under `field` what `value` stands for.
pub open spec fn holds_value(state: ArgsView, field: Field, value: ArgValueView) -> bool {
    match field {
        Field::Name => state.name is Some && state.name == string_constant_of(value),
        Field::Version => state.version matches Some(version) && string_constant_of(value) matches Some(text)
            && version_of(semver_parse(text)) == Ok::<Version, ArgError>(version),
        Field::Author => state.author is Some && state.author == string_constant_of(value),
        Field::Description => state.description is Some && state.description == string_constant_of(value),
        Field::New => state.new is Some && state.new == name_of(value),
        Field::Old => state.old is Some && state.old == name_of(value),
    }
}

/// The keywords are recorded without error exactly when all of them are
/// valid. The record then has a value for exactly the fields that some
/// keyword names, and for each keyword it holds the value of that keyword.
pub proof fn lemma_record_keywords(keywords: Seq<KeywordArgView>)
    ensures
        record_keywords(keywords) is Ok <==> all_valid(keywords),
        record_keywords(keywords) matches Ok(state) ==> forall|field: Field|
            state.has(field) <==> supplies(keywords, field),
        record_keywords(keywords) matches Ok(state) ==> forall|i: int|
            0 <= i < keywords.len() ==> holds_value(
                state,
                field_of((#[trigger] keywords[i]).arg)->0,
                keywords[i].value,
            ),
    decreases keywords.len(),
{
    if keywords.len() == 0 {
    } else {
        let init = keywords.drop_last();
        let last = keywords.last();
        let n = init.len() as int;
        lemma_record_keywords(init);
        assert forall|i: int| 0 <= i < n implies #[trigger] init[i] == keywords[i] by {}
        assert(keywords[n] == last);
        if all_valid(keywords) {
            assert forall|i: int| 0 <= i < n implies valid_keyword(#[trigger] init[i]) by {
                assert(init[i] == keywords[i]);
            }
            assert forall|i: int, j: int| 0 <= i < j < n implies field_of((#[trigger] init[i]).arg) != field_of(
                (#[trigger] init[j]).arg,
            ) by {
                assert(init[i] == keywords[i]);
                assert(init[j] == keywords[j]);
            }
            assert(all_valid(init));
        }
        match record_keywords(init) {
            Err(_) => {},
            Ok(before) => {
                match field_of(last.arg) {
                    None => {
                        assert(!valid_keyword(keywords[n]));
                    },
                    Some(field) => {
                        if before.has(field) {
                            let i = choose|i: int| 0 <= i < n && field_of((#[trigger] init[i]).arg) == Some(field);
                            assert(init[i] == keywords[i]);
                            assert(field_of(keywords[i].arg) == field_of(keywords[n].arg));
                            assert(!all_valid(keywords));
                        } else {
                            assert(store_value(before, field, last.value) is Ok <==> accepts(field, last.value));
                            match store_value(before, field, last.value) {
                                Err(_) => {
                                    assert(!valid_keyword(keywords[n]));
                                },
                                Ok(state) => {
                                    assert(holds_value(state, field, last.value));
                                    assert forall|i: int, j: int| 0 <= i < j < keywords.len() implies field_of(
                                        (#[trigger] keywords[i]).arg,
                                    ) != field_of((#[trigger] keywords[j]).arg) by {
                                        assert(init[i] == keywords[i]);
                                        if j == n {
                                            let other = field_of(init[i].arg)->0;
                                            assert(supplies(init, other));
                                            assert(before.has(other));
                                        } else {
                                            assert(init[j] == keywords[j]);
                                        }
                                    }
                                    assert forall|i: int| 0 <= i < keywords.len() implies valid_keyword(
                                        #[trigger] keywords[i],
                                    ) by {
                                        if i < n {
                                            assert(init[i] == keywords[i]);
                                        }
                                    }
                                    assert(all_valid(keywords));
                                    assert forall|f: Field| state.has(f) <==> supplies(keywords, f) by {
                                        assert(state.has(f) <==> before.has(f) || f == field);
                                        if supplies(keywords, f) {
                                            let i = choose|i: int|
                                                0 <= i < keywords.len() && field_of((#[trigger] keywords[i]).arg)
                                                    == Some(f);
                                            if i < n {
                                                assert(init[i] == keywords[i]);
                                                assert(supplies(init, f));
                                            }
                                        }
                                        if before.has(f) {
                                            let i = choose|i: int|
                                                0 <= i < n && field_of((#[trigger] init[i]).arg) == Some(f);
                                            assert(init[i] == keywords[i]);
                                        }
                                        if f == field {
                                            assert(field_of(keywords[n].arg) == Some(f));
                                        }
                                    }
                                    assert forall|i: int| 0 <= i < keywords.len() implies holds_value(
                                        state,
                                        field_of((#[trigger] keywords[i]).arg)->0,
                                        keywords[i].value,
                                    ) by {
                                        if i < n {
                                            assert(init[i] == keywords[i]);
                                            let other = field_of(init[i].arg)->0;
                                            assert(supplies(init, other));
                                            assert(before.has(other));
                                            assert(other != field);
                                            assert(holds_value(before, other, init[i].value));
                                        }
                                    }
                                },
                            }
                        }
                    },
                }
            },
        }
    }
}

/// A call is accepted exactly when it has no positional argument, each of
/// its keywords is one of the six, none occurs twice, each has an accepted
/// value, `version` and `name` are among them, and `old` and `new` are not
/// both. The accepted record has a value for exactly the fields that the
/// keywords name.
pub proof fn lemma_parse_args_accepts(args: Seq<ArgValueView>, keywords: Seq<KeywordArgView>)
    ensures
        parse_args(args, keywords) is Ok <==> {
            &&& args.len() == 0
            &&& all_valid(keywords)
            &&& supplies(keywords, Field::Version)
            &&& supplies(keywords, Field::Name)
            &&& !(supplies(keywords, Field::Old) && supplies(keywords, Field::New))
        },
        parse_args(args, keywords) matches Ok(parsed) ==> forall|field: Field|
            parsed.has(field) <==> supplies(keywords, field),
        parse_args(args, keywords) matches Ok(parsed) ==> forall|i: int|
            0 <= i < keywords.len() ==> holds_value(
                parsed,
                field_of((#[trigger] keywords[i]).arg)->0,
                keywords[i].value,
            ),
{
    lemma_record_keywords(keywords);
    match record_keywords(keywords) {
        Ok(state) => {
            assert(state.has(Field::Version) <==> supplies(keywords, Field::Version));
            assert(state.has(Field::Name) <==> supplies(keywords, Field::Name));
            assert(state.has(Field::Old) <==> supplies(keywords, Field::Old));
            assert(state.has(Field::New) <==> supplies(keywords, Field::New));
        },
        Err(_) => {},
    }
}

/// A call with a keyword that is not one of the six is rejected.
pub proof fn lemma_unknown_keyword_rejected(args: Seq<ArgValueView>, keywords: Seq<KeywordArgView>, i: int)
    requires
        0 <= i < keywords.len(),
        field_of(keywords[i].arg) is None,
    ensures
        parse_args(args, keywords) is Err,
{
    lemma_parse_args_accepts(args, keywords);
    assert(!valid_keyword(keywords[i]));
}

/// A call that gives both `old` and `new` is rejected.
pub proof fn lemma_old_and_new_rejected(args: Seq<ArgValueView>, keywords: Seq<KeywordArgView>)
    requires
        supplies(keywords, Field::Old),
        supplies(keywords, Field::New),
    ensures
        parse_args(args, keywords) is Err,
{
    lemma_parse_args_accepts(args, keywords);
}

/// An error among the first `n` keywords is the error of the whole list.
pub proof fn lemma_record_keywords_error_stays(keywords: Seq<KeywordArgView>, n: int)
    requires
        0 <= n <= keywords.len(),
    ensures
        record_keywords(keywords.take(n)) is Err ==> record_keywords(keywords) == record_keywords(
            keywords.take(n),
        ),
    decreases keywords.len() - n,
{
    if n < keywords.len() {
        let next = keywords.take(n + 1);
        assert(next.drop_last() == keywords.take(n));
        lemma_record_keywords_error_stays(keywords, n + 1);
    } else {
        assert(keywords.take(n) == keywords);
    }
}

} // verus!
