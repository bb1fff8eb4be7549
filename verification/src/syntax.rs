//! The parts of a Python syntax tree that feature extraction reads.
//!
//! Only top-level definitions and their decorators matter, and of a decorator
//! only whether it is a call, what it calls, and the shape of each argument.
//! Everything else is folded into the `Other` variants.

use vstd::prelude::*;

verus! {

/// An argument of a decorator call, as far as its shape is read.
#[derive(Clone, Debug, PartialEq, Eq)]
pub enum ArgValue {
    /// A string literal, with its value.
    Str(String),
    /// A bare identifier.
    Name(String),
    /// Any other expression.
    Other,
}

/// The mathematical content of an [`ArgValue`].
pub ghost enum ArgValueView {
    Str(Seq<char>),
    Name(Seq<char>),
    Other,
}

impl DeepView for ArgValue {
    type V = ArgValueView;

    open spec fn deep_view(&self) -> ArgValueView {
        match self {
            ArgValue::Str(s) => ArgValueView::Str(s@),
            ArgValue::Name(id) => ArgValueView::Name(id@),
            ArgValue::Other => ArgValueView::Other,
        }
    }
}

/// One keyword argument of a call: `arg=value`. `arg` is `None` for the
/// `**mapping` form, which has no keyword.
#[derive(Clone, Debug, PartialEq, Eq)]
pub struct KeywordArg {
    pub arg: Option<String>,
    pub value: ArgValue,
}

/// The mathematical content of a [`KeywordArg`].
pub ghost struct KeywordArgView {
    pub arg: Option<Seq<char>>,
    pub value: ArgValueView,
}

impl DeepView for KeywordArg {
    type V = KeywordArgView;

    open spec fn deep_view(&self) -> KeywordArgView {
        KeywordArgView { arg: self.arg.deep_view(), value: self.value.deep_view() }
    }
}

/// What a call expression calls.
#[derive(Clone, Debug, PartialEq, Eq)]
pub enum Callee {
    /// An attribute of a bare identifier, `base.attr`. The two flags tell
    /// whether the identifier and the attribute access are read (rather
    /// than assigned to or deleted).
    Attribute { base: String, base_load: bool, attr: String, attr_load: bool },
    /// Any other expression.
    Other,
}

/// The mathematical content of a [`Callee`].
pub ghost enum CalleeView {
    Attribute { base: Seq<char>, base_load: bool, attr: Seq<char>, attr_load: bool },
    Other,
}

impl DeepView for Callee {
    type V = CalleeView;

    open spec fn deep_view(&self) -> CalleeView {
        match self {
            Callee::Attribute { base, base_load, attr, attr_load } => CalleeView::Attribute {
                base: base@,
                base_load: *base_load,
                attr: attr@,
                attr_load: *attr_load,
            },
            Callee::Other => CalleeView::Other,
        }
    }
}

/// A decorator expression.
#[derive(Clone, Debug, PartialEq, Eq)]
pub enum Decorator {
    /// A call, with its positional and keyword arguments in source order.
    Call { callee: Callee, args: Vec<ArgValue>, keywords: Vec<KeywordArg> },
    /// Any other expression.
    Other,
}

/// The mathematical content of a [`Decorator`].
pub ghost enum DecoratorView {
    Call { callee: CalleeView, args: Seq<ArgValueView>, keywords: Seq<KeywordArgView> },
    Other,
}

impl DeepView for Decorator {
    type V = DecoratorView;

    open spec fn deep_view(&self) -> DecoratorView {
        match self {
            Decorator::Call { callee, args, keywords } => DecoratorView::Call {
                callee: callee.deep_view(),
                args: args.deep_view(),
                keywords: keywords.deep_view(),
            },
            Decorator::Other => DecoratorView::Other,
        }
    }
}

/// The kinds of definition that can carry a feature decorator.
#[derive(Clone, Copy, Debug, PartialEq, Eq, Hash, Structural)]
pub enum DefKind {
    Function,
    AsyncFunction,
    Class,
}

impl DefKind {
    /// The keyword text that introduces a definition of this kind, with its
    /// trailing space.
    pub open spec fn prefix_text(self) -> Seq<char> {
        match self {
            DefKind::Function => "def "@,
            DefKind::AsyncFunction => "async def "@,
            DefKind::Class => "class "@,
        }
    }

    /// Returns the keyword text that introduces a definition of this kind.
    pub fn prefix(&self) -> (text: &'static str)
        ensures
            text@ == self.prefix_text(),
    {
        match self {
            DefKind::Function => "def ",
            DefKind::AsyncFunction => "async def ",
            DefKind::Class => "class ",
        }
    }
}

/// A top-level function, coroutine or class definition.
#[derive(Clone, Debug, PartialEq, Eq)]
pub struct Definition {
    pub kind: DefKind,
    pub name: String,
    /// The 1-based line on which the definition's keyword stands.
    pub line: usize,
    /// The decorators, in source order.
    pub decorators: Vec<Decorator>,
}

/// The mathematical content of a [`Definition`].
pub ghost struct DefinitionView {
    pub kind: DefKind,
    pub name: Seq<char>,
    pub line: usize,
    pub decorators: Seq<DecoratorView>,
}

impl DefinitionView {
    /// The name under which a definition is reported: its keyword, a space,
    /// and its own name (`def f`, `async def f`, `class C`).
    pub open spec fn display_name(self) -> Seq<char> {
        self.kind.prefix_text() + self.name
    }
}

impl DeepView for Definition {
    type V = DefinitionView;

    open spec fn deep_view(&self) -> DefinitionView {
        DefinitionView {
            kind: self.kind,
            name: self.name@,
            line: self.line,
            decorators: self.decorators.deep_view(),
        }
    }
}

impl Definition {
    /// Builds the name under which this definition is reported.
    pub fn display_name(&self) -> (shown: String)
        ensures
            shown@ == self.deep_view().display_name(),
    {
        let mut shown = self.kind.prefix().to_owned();
        shown.append(self.name.as_str());
        shown
    }
}

/// A top-level statement: a definition, or anything else.
#[derive(Clone, Debug, PartialEq, Eq)]
pub enum Statement {
    Definition(Definition),
    Other,
}

/// The mathematical content of a [`Statement`].
pub ghost enum StatementView {
    Definition(DefinitionView),
    Other,
}

impl DeepView for Statement {
    type V = StatementView;

    open spec fn deep_view(&self) -> StatementView {
        match self {
            Statement::Definition(definition) => StatementView::Definition(definition.deep_view()),
            Statement::Other => StatementView::Other,
        }
    }
}

/// The definitions among `statements`, in their order.
pub open spec fn definitions_among(statements: Seq<StatementView>) -> Seq<DefinitionView>
    decreases statements.len(),
{
    if statements.len() == 0 {
        Seq::empty()
    } else {
        match statements.last() {
            StatementView::Definition(definition) => definitions_among(statements.drop_last()).push(definition),
            StatementView::Other => definitions_among(statements.drop_last()),
        }
    }
}

/// Picks the definitions out of the top-level statements of a file, in
/// their order, and passes over every other statement.
pub fn definitions_of(statements: Vec<Statement>) -> (definitions: Vec<Definition>)
    ensures
        definitions.deep_view() == definitions_among(statements.deep_view()),
{
    let ghost items = statements@;
    let ghost all = statements.deep_view();
    let mut definitions: Vec<Definition> = Vec::new();
    assert(definitions.deep_view() == definitions_among(all.take(0)));
    for statement in iter: statements
        invariant
            iter.seq() == items,
            all.len() == items.len(),
            forall|i: int| 0 <= i < items.len() ==> all[i] == (#[trigger] items[i]).deep_view(),
            definitions.deep_view() == definitions_among(all.take(iter.index() as int)),
    {
        proof {
            let upto = all.take(iter.index() + 1);
            assert(upto.drop_last() == all.take(iter.index() as int));
            assert(upto.last() == statement.deep_view());
        }
        match statement {
            Statement::Definition(definition) => {
                let ghost before = definitions.deep_view();
                definitions.push(definition);
                assert(definitions.deep_view() == before.push(definition.deep_view()));
            },
            Statement::Other => {},
        }
    }
    assert(all.take(all.len() as int) == all);
    definitions
}

} // verus!
