//! Extraction of feature records from the definitions of one file.

use crate::args::{
    field_of, holds_value, lemma_parse_args_accepts, lemma_unknown_keyword_rejected, name_of,
    parse_args, parse_decorator_args, string_constant_of, supplies,
};
use crate::error::{ArgError, Field};
use crate::feature::{feature_of, FeatureDecorator, FeatureView};
use crate::syntax::{
    Callee, CalleeView, Decorator, DecoratorView, Definition, DefinitionView, KeywordArgView,
};
use crate::text::same_text;
use crate::version::{semver_parse, version_of, Version};
use vstd::prelude::*;

verus! {

/// A rejected `@brint.feature(..)` call.
#[derive(Clone, Copy, Debug, PartialEq, Eq, Hash, Structural)]
pub struct Warning {
    /// The 1-based line of the definition that carries the call.
    pub line: usize,
    pub error: ArgError,
}

/// What extraction found in one file.
#[derive(Clone, Debug, PartialEq, Eq)]
pub struct Extraction {
    /// The accepted calls, in source order.
    pub features: Vec<FeatureDecorator>,
    /// The rejected calls, in source order.
    pub warnings: Vec<Warning>,
}

/// What becomes of one decorator.
pub ghost enum Outcome {
    /// It is not a `brint.feature(..)` call.
    Ignored,
    /// It is such a call, and its arguments are rejected.
    Rejected(Warning),
    /// It is such a call, and yields a record.
    Accepted(FeatureView),
}

/// Whether a call's target is the attribute `feature` of the bare name
/// `brint`, both read.
pub open spec fn is_feature_callee(callee: CalleeView) -> bool {
    callee matches CalleeView::Attribute { base, base_load, attr, attr_load } && base_load && attr_load
        && base == "brint"@ && attr == "feature"@
}

/// Whether a decorator has the shape `@brint.feature(..)`.
pub open spec fn is_feature_call(decorator: DecoratorView) -> bool {
    decorator matches DecoratorView::Call { callee, .. } && is_feature_callee(callee)
}

/// What becomes of `decorator` on `definition` in the file `path`.
pub open spec fn decorator_outcome(path: Seq<char>, definition: DefinitionView, decorator: DecoratorView) -> Outcome {
    match decorator {
        DecoratorView::Call { callee, args, keywords } => if is_feature_callee(callee) {
            match parse_args(args, keywords) {
                Ok(parsed) => Outcome::Accepted(
                    feature_of(path, definition.line, definition.display_name(), parsed),
                ),
                Err(error) => Outcome::Rejected(Warning { line: definition.line, error }),
            }
        } else {
            Outcome::Ignored
        },
        DecoratorView::Other => Outcome::Ignored,
    }
}

/// The outcomes of the first `count` decorators of `definition`, in order.
pub open spec fn definition_outcomes(path: Seq<char>, definition: DefinitionView, count: int) -> Seq<Outcome> {
    Seq::new(count as nat, |k: int| decorator_outcome(path, definition, definition.decorators[k]))
}

/// The outcomes of all decorators of `definitions`, in source order.
pub open spec fn file_outcomes(path: Seq<char>, definitions: Seq<DefinitionView>) -> Seq<Outcome>
    decreases definitions.len(),
{
    if definitions.len() == 0 {
        Seq::empty()
    } else {
        file_outcomes(path, definitions.drop_last()) + definition_outcomes(
            path,
            definitions.last(),
            definitions.last().decorators.len() as int,
        )
    }
}

/// What `pick` picks out of `outcomes`, in order.
pub open spec fn picked<T>(outcomes: Seq<Outcome>, pick: spec_fn(Outcome) -> Option<T>) -> Seq<T>
    decreases outcomes.len(),
{
    if outcomes.len() == 0 {
        Seq::empty()
    } else {
        match pick(outcomes.last()) {
            Some(value) => picked(outcomes.drop_last(), pick).push(value),
            None => picked(outcomes.drop_last(), pick),
        }
    }
}

/// Picks the record of an accepted call.
pub open spec fn accepted() -> spec_fn(Outcome) -> Option<FeatureView> {
    |outcome: Outcome|
        match outcome {
            Outcome::Accepted(feature) => Some(feature),
            _ => None,
        }
}

/// Picks the warning of a rejected call.
pub open spec fn rejected() -> spec_fn(Outcome) -> Option<Warning> {
    |outcome: Outcome|
        match outcome {
            Outcome::Rejected(warning) => Some(warning),
            _ => None,
        }
}

/// The records among `outcomes`, in order.
pub open spec fn features_in(outcomes: Seq<Outcome>) -> Seq<FeatureView> {
    picked(outcomes, accepted())
}

/// The warnings among `outcomes`, in order.
pub open spec fn warnings_in(outcomes: Seq<Outcome>) -> Seq<Warning> {
    picked(outcomes, rejected())
}

/// What is picked out of two runs of outcomes, one after the other, is what
/// is picked out of the first followed by what is picked out of the second.
pub proof fn lemma_picked_concat<T>(first: Seq<Outcome>, second: Seq<Outcome>, pick: spec_fn(Outcome) -> Option<T>)
    ensures
        picked(first + second, pick) == picked(first, pick) + picked(second, pick),
    decreases second.len(),
{
    if second.len() == 0 {
        assert(first + second == first);
    } else {
        let both = first + second;
        assert(both.drop_last() == first + second.drop_last());
        assert(both.last() == second.last());
        lemma_picked_concat(first, second.drop_last(), pick);
    }
}

/// What is picked out of outcomes is what `pick` gives for one of them:
/// nothing is missing and nothing is made up.
pub proof fn lemma_picked_members<T>(outcomes: Seq<Outcome>, pick: spec_fn(Outcome) -> Option<T>, value: T)
    ensures
        picked(outcomes, pick).contains(value) <==> exists|j: int|
            0 <= j < outcomes.len() && pick(#[trigger] outcomes[j]) == Some(value),
    decreases outcomes.len(),
{
    if outcomes.len() > 0 {
        let init = outcomes.drop_last();
        let n = init.len() as int;
        lemma_picked_members(init, pick, value);
        assert(outcomes[n] == outcomes.last());
        let all = picked(outcomes, pick);
        let earlier = picked(init, pick);
        if all.contains(value) {
            let k = choose|k: int| 0 <= k < all.len() && all[k] == value;
            if k < earlier.len() {
                assert(earlier[k] == value);
                assert(earlier.contains(value));
                let j = choose|j: int| 0 <= j < init.len() && pick(#[trigger] init[j]) == Some(value);
                assert(init[j] == outcomes[j]);
            }
        }
        if exists|j: int| 0 <= j < outcomes.len() && pick(#[trigger] outcomes[j]) == Some(value) {
            let j = choose|j: int| 0 <= j < outcomes.len() && pick(#[trigger] outcomes[j]) == Some(value);
            if j < n {
                assert(init[j] == outcomes[j]);
                assert(earlier.contains(value));
                let k = choose|k: int| 0 <= k < earlier.len() && earlier[k] == value;
                assert(all[k] == value);
            } else {
                assert(all[all.len() - 1] == value);
            }
        }
    }
}

/// The records and the warnings of two runs of outcomes, one after the
/// other, are those of the first followed by those of the second.
pub proof fn lemma_outcomes_concat(first: Seq<Outcome>, second: Seq<Outcome>)
    ensures
        features_in(first + second) == features_in(first) + features_in(second),
        warnings_in(first + second) == warnings_in(first) + warnings_in(second),
{
    lemma_picked_concat(first, second, accepted());
    lemma_picked_concat(first, second, rejected());
}

/// The outcomes of two lists of definitions, one after the other, are those
/// of the first followed by those of the second.
pub proof fn lemma_file_outcomes_concat(path: Seq<char>, first: Seq<DefinitionView>, second: Seq<DefinitionView>)
    ensures
        file_outcomes(path, first + second) == file_outcomes(path, first) + file_outcomes(path, second),
    decreases second.len(),
{
    if second.len() == 0 {
        assert(first + second == first);
    } else {
        let both = first + second;
        assert(both.drop_last() == first + second.drop_last());
        assert(both.last() == second.last());
        lemma_file_outcomes_concat(path, first, second.drop_last());
    }
}

/// Whether `outcome` is what becomes of one of the decorators of
/// `definitions`.
pub open spec fn occurs(path: Seq<char>, definitions: Seq<DefinitionView>, outcome: Outcome) -> bool {
    exists|i: int, j: int|
        0 <= i < definitions.len() && 0 <= j < definitions[i].decorators.len() && decorator_outcome(
            path,
            definitions[i],
            #[trigger] definitions[i].decorators[j],
        ) == outcome
}

/// The outcomes of a file are those of its decorators: none is missing and
/// none is made up.
pub proof fn lemma_file_outcomes_members(path: Seq<char>, definitions: Seq<DefinitionView>, outcome: Outcome)
    ensures
        file_outcomes(path, definitions).contains(outcome) <==> occurs(path, definitions, outcome),
    decreases definitions.len(),
{
    let all = file_outcomes(path, definitions);
    if definitions.len() == 0 {
    } else {
        let init = definitions.drop_last();
        let last = definitions.last();
        let n = init.len() as int;
        let earlier = file_outcomes(path, init);
        let own = definition_outcomes(path, last, last.decorators.len() as int);
        lemma_file_outcomes_members(path, init, outcome);
        assert(definitions[n] == last);
        if all.contains(outcome) {
            let k = choose|k: int| 0 <= k < all.len() && all[k] == outcome;
            if k < earlier.len() {
                assert(earlier[k] == outcome);
                assert(earlier.contains(outcome));
                let (i, j) = choose|i: int, j: int|
                    0 <= i < init.len() && 0 <= j < init[i].decorators.len() && decorator_outcome(
                        path,
                        init[i],
                        #[trigger] init[i].decorators[j],
                    ) == outcome;
                assert(init[i] == definitions[i]);
                assert(decorator_outcome(path, definitions[i], definitions[i].decorators[j]) == outcome);
            } else {
                let j = k - earlier.len();
                assert(own[j] == outcome);
                assert(decorator_outcome(path, definitions[n], definitions[n].decorators[j]) == outcome);
            }
        }
        if occurs(path, definitions, outcome) {
            let (i, j) = choose|i: int, j: int|
                0 <= i < definitions.len() && 0 <= j < definitions[i].decorators.len() && decorator_outcome(
                    path,
                    definitions[i],
                    #[trigger] definitions[i].decorators[j],
                ) == outcome;
            if i < n {
                assert(init[i] == definitions[i]);
                assert(decorator_outcome(path, init[i], init[i].decorators[j]) == outcome);
                assert(occurs(path, init, outcome));
                let k = choose|k: int| 0 <= k < earlier.len() && earlier[k] == outcome;
                assert(all[k] == outcome);
            } else {
                assert(own[j] == outcome);
                assert(all[earlier.len() + j] == outcome);
            }
        }
    }
}

/// Where `pick` gives `value` for `outcome` and for no other, `value` is
/// picked out of outcomes exactly when `outcome` is one of them.
pub proof fn lemma_picked_of<T>(
    outcomes: Seq<Outcome>,
    pick: spec_fn(Outcome) -> Option<T>,
    value: T,
    outcome: Outcome,
)
    requires
        forall|other: Outcome| #[trigger] pick(other) == Some(value) <==> other == outcome,
    ensures
        picked(outcomes, pick).contains(value) <==> outcomes.contains(outcome),
{
    lemma_picked_members(outcomes, pick, value);
    if outcomes.contains(outcome) {
        let j = choose|j: int| 0 <= j < outcomes.len() && outcomes[j] == outcome;
        assert(pick(outcomes[j]) == Some(value));
    }
    if picked(outcomes, pick).contains(value) {
        let j = choose|j: int| 0 <= j < outcomes.len() && pick(#[trigger] outcomes[j]) == Some(value);
        assert(outcomes[j] == outcome);
    }
}

/// The records of a file are exactly the records of its accepted calls.
pub proof fn lemma_file_features(path: Seq<char>, definitions: Seq<DefinitionView>, feature: FeatureView)
    ensures
        features_in(file_outcomes(path, definitions)).contains(feature) <==> occurs(
            path,
            definitions,
            Outcome::Accepted(feature),
        ),
{
    lemma_picked_of(file_outcomes(path, definitions), accepted(), feature, Outcome::Accepted(feature));
    lemma_file_outcomes_members(path, definitions, Outcome::Accepted(feature));
}

/// The warnings of a file are exactly the warnings of its rejected calls.
pub proof fn lemma_file_warnings(path: Seq<char>, definitions: Seq<DefinitionView>, warning: Warning)
    ensures
        warnings_in(file_outcomes(path, definitions)).contains(warning) <==> occurs(
            path,
            definitions,
            Outcome::Rejected(warning),
        ),
{
    lemma_picked_of(file_outcomes(path, definitions), rejected(), warning, Outcome::Rejected(warning));
    lemma_file_outcomes_members(path, definitions, Outcome::Rejected(warning));
}

/// Whether one of `definitions` stands at `line`.
pub open spec fn has_line(definitions: Seq<DefinitionView>, line: usize) -> bool {
    exists|i: int| 0 <= i < definitions.len() && (#[trigger] definitions[i]).line == line
}

/// Every record of a file names that file and stands at the line of one of
/// its definitions, and so does every warning.
pub proof fn lemma_file_places(path: Seq<char>, definitions: Seq<DefinitionView>)
    ensures
        forall|k: int|
            0 <= k < features_in(file_outcomes(path, definitions)).len() ==> {
                let feature = #[trigger] features_in(file_outcomes(path, definitions))[k];
                feature.path == path && has_line(definitions, feature.line)
            },
        forall|k: int|
            0 <= k < warnings_in(file_outcomes(path, definitions)).len() ==> has_line(
                definitions,
                (#[trigger] warnings_in(file_outcomes(path, definitions))[k]).line,
            ),
{
    let features = features_in(file_outcomes(path, definitions));
    let warnings = warnings_in(file_outcomes(path, definitions));
    assert forall|k: int| 0 <= k < features.len() implies (#[trigger] features[k]).path == path && has_line(
        definitions,
        features[k].line,
    ) by {
        let feature = features[k];
        assert(features.contains(feature));
        lemma_file_features(path, definitions, feature);
        let (i, j) = choose|i: int, j: int|
            0 <= i < definitions.len() && 0 <= j < definitions[i].decorators.len() && decorator_outcome(
                path,
                definitions[i],
                #[trigger] definitions[i].decorators[j],
            ) == Outcome::Accepted(feature);
        assert(definitions[i].line == feature.line);
    }
    assert forall|k: int| 0 <= k < warnings.len() implies has_line(definitions, (#[trigger] warnings[k]).line) by {
        let warning = warnings[k];
        assert(warnings.contains(warning));
        lemma_file_warnings(path, definitions, warning);
        let (i, j) = choose|i: int, j: int|
            0 <= i < definitions.len() && 0 <= j < definitions[i].decorators.len() && decorator_outcome(
                path,
                definitions[i],
                #[trigger] definitions[i].decorators[j],
            ) == Outcome::Rejected(warning);
        assert(definitions[i].line == warning.line);
    }
}

/// Outcomes that are all `Ignored` hold no record and no warning.
pub proof fn lemma_ignored_hold_nothing(outcomes: Seq<Outcome>)
    requires
        forall|k: int| 0 <= k < outcomes.len() ==> #[trigger] outcomes[k] is Ignored,
    ensures
        features_in(outcomes) == Seq::<FeatureView>::empty(),
        warnings_in(outcomes) == Seq::<Warning>::empty(),
    decreases outcomes.len(),
{
    if outcomes.len() > 0 {
        let init = outcomes.drop_last();
        assert forall|k: int| 0 <= k < init.len() implies #[trigger] init[k] is Ignored by {
            assert(init[k] == outcomes[k]);
        }
        lemma_ignored_hold_nothing(init);
        assert(outcomes.last() == outcomes[outcomes.len() - 1]);
    }
}

/// Whether none of the decorators of `definitions` is a `brint.feature(..)`
/// call.
pub open spec fn no_feature_calls(definitions: Seq<DefinitionView>) -> bool {
    forall|i: int, j: int|
        0 <= i < definitions.len() && 0 <= j < definitions[i].decorators.len() ==> !is_feature_call(
            #[trigger] definitions[i].decorators[j],
        )
}

/// A file without a `brint.feature(..)` call yields no record and no
/// warning.
pub proof fn lemma_no_feature_calls(path: Seq<char>, definitions: Seq<DefinitionView>)
    requires
        no_feature_calls(definitions),
    ensures
        features_in(file_outcomes(path, definitions)) == Seq::<FeatureView>::empty(),
        warnings_in(file_outcomes(path, definitions)) == Seq::<Warning>::empty(),
    decreases definitions.len(),
{
    if definitions.len() > 0 {
        let init = definitions.drop_last();
        let last = definitions.last();
        assert forall|i: int, j: int| 0 <= i < init.len() && 0 <= j < init[i].decorators.len() implies !is_feature_call(
            #[trigger] init[i].decorators[j],
        ) by {
            assert(init[i] == definitions[i]);
            assert(!is_feature_call(definitions[i].decorators[j]));
        }
        lemma_no_feature_calls(path, init);
        let own = definition_outcomes(path, last, last.decorators.len() as int);
        assert forall|k: int| 0 <= k < own.len() implies #[trigger] own[k] is Ignored by {
            assert(last == definitions[definitions.len() - 1]);
            assert(!is_feature_call(definitions[definitions.len() - 1].decorators[k]));
        }
        lemma_ignored_hold_nothing(own);
        lemma_outcomes_concat(file_outcomes(path, init), own);
    }
}

/// The keyword arguments of a decorator, none for one that is no call.
pub open spec fn keywords_of(decorator: DecoratorView) -> Seq<KeywordArgView> {
    match decorator {
        DecoratorView::Call { keywords, .. } => keywords,
        DecoratorView::Other => Seq::empty(),
    }
}

/// In the record of an accepted call that gives `old` or `new`, exactly one
/// of the two names is the one given in the call, and the other is the name
/// under which the definition is shown.
pub proof fn lemma_one_name_given(path: Seq<char>, definition: DefinitionView, decorator: DecoratorView)
    requires
        decorator_outcome(path, definition, decorator) is Accepted,
        supplies(keywords_of(decorator), Field::Old) || supplies(keywords_of(decorator), Field::New),
    ensures
        supplies(keywords_of(decorator), Field::Old) != supplies(keywords_of(decorator), Field::New),
        supplies(keywords_of(decorator), Field::Old) ==> {
            let feature = decorator_outcome(path, definition, decorator)->Accepted_0;
            &&& feature.new == definition.display_name()
            &&& forall|i: int|
                0 <= i < keywords_of(decorator).len() && field_of((#[trigger] keywords_of(decorator)[i]).arg)
                    == Some(Field::Old) ==> name_of(keywords_of(decorator)[i].value) == feature.old
        },
        supplies(keywords_of(decorator), Field::New) ==> {
            let feature = decorator_outcome(path, definition, decorator)->Accepted_0;
            &&& feature.old == Some(definition.display_name())
            &&& forall|i: int|
                0 <= i < keywords_of(decorator).len() && field_of((#[trigger] keywords_of(decorator)[i]).arg)
                    == Some(Field::New) ==> name_of(keywords_of(decorator)[i].value) == Some(feature.new)
        },
{
    match decorator {
        DecoratorView::Call { callee, args, keywords } => {
            lemma_parse_args_accepts(args, keywords);
            let parsed = parse_args(args, keywords)->Ok_0;
            assert(parsed.has(Field::Old) <==> supplies(keywords, Field::Old));
            assert(parsed.has(Field::New) <==> supplies(keywords, Field::New));
            assert forall|i: int|
                0 <= i < keywords.len() && field_of((#[trigger] keywords[i]).arg) == Some(
                    Field::Old,
                ) implies name_of(keywords[i].value) == parsed.old by {
                assert(holds_value(parsed, field_of(keywords[i].arg)->0, keywords[i].value));
            }
            assert forall|i: int|
                0 <= i < keywords.len() && field_of((#[trigger] keywords[i]).arg) == Some(
                    Field::New,
                ) implies name_of(keywords[i].value) == parsed.new by {
                assert(holds_value(parsed, field_of(keywords[i].arg)->0, keywords[i].value));
            }
        },
        DecoratorView::Other => {},
    }
}

/// The record of an accepted call carries what the keywords of the call
/// give: the name, the author and the description are the string literals
/// given for them, and the version is the release that the literal given for
/// it reads as. The author and the description are absent where no keyword
/// gives them. The record is at the line of the definition, in the file
/// `path`.
pub proof fn lemma_record_carries_keywords(path: Seq<char>, definition: DefinitionView, decorator: DecoratorView)
    requires
        decorator_outcome(path, definition, decorator) is Accepted,
    ensures
        ({
            let feature = decorator_outcome(path, definition, decorator)->Accepted_0;
            let keywords = keywords_of(decorator);
            &&& feature.path == path
            &&& feature.line == definition.line
            &&& feature.author is Some <==> supplies(keywords, Field::Author)
            &&& feature.description is Some <==> supplies(keywords, Field::Description)
            &&& forall|i: int|
                0 <= i < keywords.len() ==> match field_of((#[trigger] keywords[i]).arg) {
                    Some(Field::Name) => string_constant_of(keywords[i].value) == Some(feature.feature_name),
                    Some(Field::Version) => string_constant_of(keywords[i].value) matches Some(text)
                        && version_of(semver_parse(text)) == Ok::<Version, ArgError>(
                        feature.version,
                    ),
                    Some(Field::Author) => string_constant_of(keywords[i].value) == feature.author,
                    Some(Field::Description) => string_constant_of(keywords[i].value) == feature.description,
                    _ => true,
                }
        }),
{
    match decorator {
        DecoratorView::Call { callee, args, keywords } => {
            lemma_parse_args_accepts(args, keywords);
            let parsed = parse_args(args, keywords)->Ok_0;
            assert(parsed.has(Field::Author) <==> supplies(keywords, Field::Author));
            assert(parsed.has(Field::Description) <==> supplies(keywords, Field::Description));
            assert forall|i: int| 0 <= i < keywords.len() implies match field_of((#[trigger] keywords[i]).arg) {
                Some(Field::Name) => string_constant_of(keywords[i].value) == Some(parsed.name->0),
                Some(Field::Version) => string_constant_of(keywords[i].value) matches Some(text) && version_of(
                    semver_parse(text),
                ) == Ok::<Version, ArgError>(parsed.version->0),
                Some(Field::Author) => string_constant_of(keywords[i].value) == parsed.author,
                Some(Field::Description) => string_constant_of(keywords[i].value) == parsed.description,
                _ => true,
            } by {
                assert(holds_value(parsed, field_of(keywords[i].arg)->0, keywords[i].value));
            }
        },
        DecoratorView::Other => {},
    }
}

/// The record of an accepted call that gives neither `old` nor `new` has no
/// old name, and its new name is the name under which the definition is
/// shown.
pub proof fn lemma_no_name_given(path: Seq<char>, definition: DefinitionView, decorator: DecoratorView)
    requires
        decorator_outcome(path, definition, decorator) is Accepted,
        !supplies(keywords_of(decorator), Field::Old),
        !supplies(keywords_of(decorator), Field::New),
    ensures
        decorator_outcome(path, definition, decorator)->Accepted_0.old is None,
        decorator_outcome(path, definition, decorator)->Accepted_0.new == definition.display_name(),
{
    match decorator {
        DecoratorView::Call { callee, args, keywords } => {
            lemma_parse_args_accepts(args, keywords);
            let parsed = parse_args(args, keywords)->Ok_0;
            assert(parsed.has(Field::Old) <==> supplies(keywords, Field::Old));
            assert(parsed.has(Field::New) <==> supplies(keywords, Field::New));
        },
        DecoratorView::Other => {},
    }
}

/// A `brint.feature(..)` call that gives both `old` and `new` is rejected.
pub proof fn lemma_both_names_rejected(path: Seq<char>, definition: DefinitionView, decorator: DecoratorView)
    requires
        is_feature_call(decorator),
        supplies(keywords_of(decorator), Field::Old),
        supplies(keywords_of(decorator), Field::New),
    ensures
        decorator_outcome(path, definition, decorator) is Rejected,
{
    match decorator {
        DecoratorView::Call { callee, args, keywords } => {
            lemma_parse_args_accepts(args, keywords);
        },
        DecoratorView::Other => {},
    }
}

/// A `brint.feature(..)` call with a keyword that is not one of the six is
/// rejected.
pub proof fn lemma_unknown_keyword_call_rejected(
    path: Seq<char>,
    definition: DefinitionView,
    decorator: DecoratorView,
    i: int,
)
    requires
        is_feature_call(decorator),
        0 <= i < keywords_of(decorator).len(),
        field_of(keywords_of(decorator)[i].arg) is None,
    ensures
        decorator_outcome(path, definition, decorator) is Rejected,
{
    match decorator {
        DecoratorView::Call { callee, args, keywords } => {
            lemma_unknown_keyword_rejected(args, keywords, i);
        },
        DecoratorView::Other => {},
    }
}

/// `definition` without its decorator at `index`.
pub open spec fn without_decorator(definition: DefinitionView, index: int) -> DefinitionView {
    DefinitionView { decorators: definition.decorators.remove(index), ..definition }
}

/// Taking a rejected call out of a file changes none of its records: a
/// rejected call yields none, and the others yield what they yield without
/// it.
pub proof fn lemma_rejected_call_leaves_rest(path: Seq<char>, definitions: Seq<DefinitionView>, i: int, j: int)
    requires
        0 <= i < definitions.len(),
        0 <= j < definitions[i].decorators.len(),
        decorator_outcome(path, definitions[i], definitions[i].decorators[j]) is Rejected,
    ensures
        features_in(file_outcomes(path, definitions)) == features_in(
            file_outcomes(path, definitions.update(i, without_decorator(definitions[i], j))),
        ),
{
    let target = definitions[i];
    let reduced = without_decorator(target, j);
    let before = definitions.take(i);
    let after = definitions.skip(i + 1);
    assert(definitions == before + seq![target] + after);
    assert(definitions.update(i, reduced) == before + seq![reduced] + after);
    lemma_file_outcomes_concat(path, before + seq![target], after);
    lemma_file_outcomes_concat(path, before, seq![target]);
    lemma_file_outcomes_concat(path, before + seq![reduced], after);
    lemma_file_outcomes_concat(path, before, seq![reduced]);
    let full = definition_outcomes(path, target, target.decorators.len() as int);
    let less = definition_outcomes(path, reduced, reduced.decorators.len() as int);
    assert(seq![target].drop_last() == Seq::<DefinitionView>::empty());
    assert(seq![reduced].drop_last() == Seq::<DefinitionView>::empty());
    assert(file_outcomes(path, seq![target].drop_last()) == Seq::<Outcome>::empty());
    assert(file_outcomes(path, seq![reduced].drop_last()) == Seq::<Outcome>::empty());
    assert(file_outcomes(path, seq![target]) == full);
    assert(file_outcomes(path, seq![reduced]) == less);
    assert(less == full.remove(j));
    let head = full.take(j);
    let tail = full.skip(j + 1);
    assert(full == head + seq![full[j]] + tail);
    assert(less == head + tail);
    lemma_outcomes_concat(head + seq![full[j]], tail);
    lemma_outcomes_concat(head, seq![full[j]]);
    lemma_outcomes_concat(head, tail);
    assert(full[j] == decorator_outcome(path, target, target.decorators[j]));
    assert(seq![full[j]].drop_last() == Seq::<Outcome>::empty());
    assert(seq![full[j]].last() == full[j]);
    assert(features_in(Seq::<Outcome>::empty()) == Seq::<FeatureView>::empty());
    assert(features_in(seq![full[j]]) == Seq::<FeatureView>::empty());
    assert(features_in(full) == features_in(less));
    let left = file_outcomes(path, before);
    let right = file_outcomes(path, after);
    lemma_outcomes_concat(left + full, right);
    lemma_outcomes_concat(left, full);
    lemma_outcomes_concat(left + less, right);
    lemma_outcomes_concat(left, less);
}

/// Tells whether a call's target is `brint.feature`.
pub fn callee_is_feature(callee: &Callee) -> (found: bool)
    ensures
        found == is_feature_callee(callee.deep_view()),
{
    match callee {
        Callee::Attribute { base, base_load, attr, attr_load } => {
            *base_load && *attr_load && same_text(base.as_str(), "brint") && same_text(
                attr.as_str(),
                "feature",
            )
        },
        Callee::Other => false,
    }
}

/// Extracts the feature records of one file from its top-level definitions.
///
/// Every decorator of every definition is looked at, in source order. One
/// that is not a `brint.feature(..)` call is passed over. One that is such a
/// call yields a record if its arguments are valid and a warning if they are
/// not; a rejected call does not affect any other.
pub fn extract_features(path: &str, definitions: &[Definition]) -> (found: Extraction)
    ensures
        found.features.deep_view() == features_in(file_outcomes(path@, definitions.deep_view())),
        found.warnings@ == warnings_in(file_outcomes(path@, definitions.deep_view())),
{
    let ghost all = definitions.deep_view();
    let mut features: Vec<FeatureDecorator> = Vec::new();
    let mut warnings: Vec<Warning> = Vec::new();
    let mut i: usize = 0;
    assert(features.deep_view() == Seq::<FeatureView>::empty());
    while i < definitions.len()
        invariant
            i <= definitions.len(),
            all == definitions.deep_view(),
            all.len() == definitions.len(),
            features.deep_view() == features_in(file_outcomes(path@, all.take(i as int))),
            warnings@ == warnings_in(file_outcomes(path@, all.take(i as int))),
        decreases definitions.len() - i,
    {
        let definition = &definitions[i];
        let ghost before = file_outcomes(path@, all.take(i as int));
        let ghost shown = definition.deep_view();
        let mut j: usize = 0;
        assert(before + definition_outcomes(path@, shown, 0) == before);
        while j < definition.decorators.len()
            invariant
                j <= definition.decorators.len(),
                shown == definition.deep_view(),
                shown.decorators.len() == definition.decorators.len(),
                features.deep_view() == features_in(before + definition_outcomes(path@, shown, j as int)),
                warnings@ == warnings_in(before + definition_outcomes(path@, shown, j as int)),
            decreases definition.decorators.len() - j,
        {
            let ghost seen = before + definition_outcomes(path@, shown, j as int);
            let ghost outcome = decorator_outcome(path@, shown, shown.decorators[j as int]);
            let ghost old_features = features.deep_view();
            proof {
                let next = before + definition_outcomes(path@, shown, j + 1);
                assert(next == seen.push(outcome));
                assert(next.drop_last() == seen);
                assert(next.last() == outcome);
                assert(shown.decorators[j as int] == definition.decorators@[j as int].deep_view());
            }
            match &definition.decorators[j] {
                Decorator::Call { callee, args, keywords } => {
                    if callee_is_feature(callee) {
                        match parse_decorator_args(args.as_slice(), keywords.as_slice()) {
                            Ok(parsed) => {
                                let built = FeatureDecorator::from_args(
                                    path,
                                    definition.line,
                                    definition.display_name(),
                                    parsed,
                                );
                                match built {
                                    Ok(feature) => {
                                        features.push(feature);
                                        assert(features.deep_view() == old_features.push(feature.deep_view()));
                                    },
                                    Err(error) => {
                                        warnings.push(Warning { line: definition.line, error });
                                    },
                                }
                            },
                            Err(error) => {
                                warnings.push(Warning { line: definition.line, error });
                            },
                        }
                    }
                },
                Decorator::Other => {},
            }
            j += 1;
        }
        proof {
            let upto = all.take(i + 1);
            assert(upto.drop_last() == all.take(i as int));
            assert(upto.last() == shown);
        }
        i += 1;
    }
    assert(all.take(i as int) == all);
    Extraction { features, warnings }
}

} // verus!
