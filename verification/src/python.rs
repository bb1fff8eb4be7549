//! Reading Python source text: the parser is `rustpython-parser`, and what it
//! returns is lowered to the types of [`crate::syntax`].
//!
//! What the parser makes of a text is named by [`parsed_module`], in the
//! plain types of [`crate::syntax`]; what this module returns is stated over
//! that name.
//!
//! A syntax tree of the parser is opaque to the verifier. The trusted
//! functions that look into one node hand out its shape and promise nothing
//! about which shape that is. Turning a tree into plain values has two
//! steps. The reading functions walk the tree and gather the shapes; they
//! state how many they gathered. The lowering functions take what was read
//! and state their result for every value of it.

use crate::extract::{
    extract_features, features_in, file_outcomes, lemma_file_places, warnings_in, Extraction,
};
use crate::syntax::{
    definitions_among, definitions_of, ArgValue, ArgValueView, Callee, CalleeView, Decorator,
    DecoratorView, DefKind, Definition, DefinitionView, KeywordArg, KeywordArgView, Statement,
    StatementView,
};
use rustpython_ast as ast;
use rustpython_ast::Ranged;
use rustpython_parser::source_code::LineIndex;
use vstd::prelude::*;

verus! {

/// `TextSize` of the parser: a byte offset into a source text. Opaque here.
#[verifier::external_type_specification]
#[verifier::external_body]
pub struct ExTextSize(ast::text_size::TextSize);

/// `TextRange` of the parser: the two offsets between which a node stands.
/// Opaque here.
#[verifier::external_type_specification]
#[verifier::external_body]
pub struct ExTextRange(ast::text_size::TextRange);

/// `Stmt` of the parser: a statement of a syntax tree. Opaque here.
#[verifier::external_type_specification]
#[verifier::external_body]
#[verifier::reject_recursive_types(R)]
pub struct ExStmt<R>(ast::Stmt<R>);

/// `Expr` of the parser: an expression of a syntax tree. Opaque here.
#[verifier::external_type_specification]
#[verifier::external_body]
#[verifier::reject_recursive_types(R)]
pub struct ExExpr<R>(ast::Expr<R>);

/// `Keyword` of the parser: a keyword argument of a call. Opaque here.
#[verifier::external_type_specification]
#[verifier::external_body]
#[verifier::reject_recursive_types(R)]
pub struct ExKeyword<R>(ast::Keyword<R>);

/// `LineIndex` of the parser: the offsets at which the lines of a text
/// start. Opaque here.
#[verifier::external_type_specification]
#[verifier::external_body]
pub struct ExLineIndex(LineIndex);

/// The longest source text, in bytes, that the parser can address: it counts
/// offsets in 32 bits.
pub const MAX_SOURCE_BYTES: usize = 0xffff_ffff;

/// Why a source text yields no definitions.
#[derive(Clone, Debug, PartialEq, Eq)]
pub enum ParseFailure {
    /// The text is longer than [`MAX_SOURCE_BYTES`].
    TooLarge,
    /// The parser reported a syntax error at the given byte offset.
    Syntax { message: String, offset: usize },
}

/// What is read of one statement: for a definition, its name and its
/// decorators.
enum StmtShape<'a> {
    Function(String, &'a [ast::Expr]),
    AsyncFunction(String, &'a [ast::Expr]),
    Class(String, &'a [ast::Expr]),
    Other,
}

/// What is read of one expression.
enum ExprShape<'a> {
    Str(String),
    Name { id: String, load: bool },
    Attribute { value: &'a ast::Expr, attr: String, load: bool },
    Call {
        func: &'a ast::Expr,
        args: &'a [ast::Expr],
        keywords: &'a [ast::Keyword],
    },
    Other,
}

/// What the parser makes of a source text, in plain values: its top-level
/// statements in order, or the message and the byte offset of its syntax
/// error.
pub uninterp spec fn parsed_module(code: Seq<char>) -> Result<Seq<StatementView>, (Seq<char>, usize)>;

/// The mathematical content of what parsing returns.
pub open spec fn module_view(parsed: Result<Vec<Statement>, (String, usize)>) -> Result<
    Seq<StatementView>,
    (Seq<char>, usize),
> {
    match parsed {
        Ok(statements) => Ok(statements.deep_view()),
        Err((message, offset)) => Err((message@, offset)),
    }
}

/// Whether every definition among `statements` stands at a line counted
/// from one.
pub open spec fn lines_from_one(statements: Seq<StatementView>) -> bool {
    forall|i: int|
        0 <= i < statements.len() ==> ((#[trigger] statements[i]) matches StatementView::Definition(definition)
            ==> definition.line >= 1)
}

/// Calls `rustpython_parser::parse_program`, which parses `code` as a module,
/// and turns each top-level statement into a plain value, one for one, with
/// [`read_statement`] and [`lower_statement`]; the lines are those of
/// `LineIndex::from_source_text(code)`. Of a syntax error the message and
/// the byte offset are kept. The result depends on `code` alone and is named
/// `parsed_module(code@)`; lines are counted from one. The parser counts
/// offsets in 32 bits, so longer texts are left out.
#[verifier::external_body]
#[allow(deprecated)]
fn parse_module(code: &str, path: &str) -> (parsed: Result<Vec<Statement>, (String, usize)>)
    requires
        code.len() <= MAX_SOURCE_BYTES,
    ensures
        module_view(parsed) == parsed_module(code@),
        parsed matches Ok(statements) ==> lines_from_one(statements.deep_view()),
{
    match rustpython_parser::parse_program(code, path) {
        Ok(program) => {
            let index = LineIndex::from_source_text(code);
            Ok(program.iter().map(|stmt| lower_statement(read_statement(stmt, &index))).collect())
        },
        Err(e) => Err((e.error.to_string(), e.offset.to_usize())),
    }
}

/// Calls `LineIndex::line_index` on the offset at which `stmt` starts: the
/// line of that offset, counted from one.
#[verifier::external_body]
fn statement_line(index: &LineIndex, stmt: &ast::Stmt) -> (line: usize)
    ensures
        line >= 1,
{
    index.line_index(stmt.range().start()).to_usize()
}

/// Tells a function, coroutine or class definition from any other statement
/// and hands out its name and its decorators.
#[verifier::external_body]
fn statement_shape<'a>(stmt: &'a ast::Stmt) -> (shape: StmtShape<'a>)
{
    match stmt {
        ast::Stmt::FunctionDef(d) => StmtShape::Function(d.name.to_string(), &d.decorator_list),
        ast::Stmt::AsyncFunctionDef(d) => StmtShape::AsyncFunction(d.name.to_string(), &d.decorator_list),
        ast::Stmt::ClassDef(d) => StmtShape::Class(d.name.to_string(), &d.decorator_list),
        _ => StmtShape::Other,
    }
}

/// Tells a string literal, a name, an attribute access and a call from any
/// other expression and hands out their fields. The flag `load` is what
/// `ExprContext::is_load` returns.
#[verifier::external_body]
fn expression_shape<'a>(expr: &'a ast::Expr) -> (shape: ExprShape<'a>)
{
    match expr {
        ast::Expr::Constant(ast::ExprConstant { value: ast::Constant::Str(s), .. }) => ExprShape::Str(s.clone()),
        ast::Expr::Name(n) => ExprShape::Name { id: n.id.to_string(), load: n.ctx.is_load() },
        ast::Expr::Attribute(a) => ExprShape::Attribute { value: &a.value, attr: a.attr.to_string(), load: a.ctx.is_load() },
        ast::Expr::Call(c) => ExprShape::Call { func: &c.func, args: &c.args, keywords: &c.keywords },
        _ => ExprShape::Other,
    }
}

/// Hands out the two fields of a keyword argument.
#[verifier::external_body]
fn keyword_parts<'a>(keyword: &'a ast::Keyword) -> (parts: (Option<String>, &'a ast::Expr))
{
    match &keyword.arg {
        Some(id) => (Some(id.to_string()), &keyword.value),
        None => (None, &keyword.value),
    }
}

/// What was read of one keyword argument: its keyword, if it has one, and
/// the shape of its value.
struct KeywordRead<'a> {
    arg: Option<String>,
    value: ExprShape<'a>,
}

/// What was read of the parts of a call: the shape of the called
/// expression; where that is an attribute access, the shape of the
/// expression whose attribute is taken; and the shapes of the arguments.
struct CallRead<'a> {
    called: ExprShape<'a>,
    base: Option<ExprShape<'a>>,
    args: Vec<ExprShape<'a>>,
    keywords: Vec<KeywordRead<'a>>,
}

/// What was read of one decorator: for a call its parts, for any other
/// expression nothing.
enum DecoratorRead<'a> {
    Call(CallRead<'a>),
    Other,
}

/// What was read of one statement: its shape, its line, and what was read
/// of each of its decorators.
struct StatementRead<'a> {
    shape: StmtShape<'a>,
    line: usize,
    decorators: Vec<DecoratorRead<'a>>,
}

/// The decorator expressions of a statement of the given shape, none for a
/// statement that is no definition.
spec fn decorators_in<'a>(shape: StmtShape<'a>) -> Seq<ast::Expr> {
    match shape {
        StmtShape::Function(_, decorators) => decorators@,
        StmtShape::AsyncFunction(_, decorators) => decorators@,
        StmtShape::Class(_, decorators) => decorators@,
        StmtShape::Other => Seq::empty(),
    }
}

/// Reads the shapes of expressions, in order.
fn read_expressions<'a>(exprs: &'a [ast::Expr]) -> (shapes: Vec<ExprShape<'a>>)
    ensures
        shapes.len() == exprs.len(),
{
    let mut shapes: Vec<ExprShape<'a>> = Vec::new();
    let mut i: usize = 0;
    while i < exprs.len()
        invariant
            i <= exprs.len(),
            shapes.len() == i,
        decreases exprs.len() - i,
    {
        shapes.push(expression_shape(&exprs[i]));
        i += 1;
    }
    shapes
}

/// Reads keyword arguments, in order.
fn read_keywords<'a>(keywords: &'a [ast::Keyword]) -> (read: Vec<KeywordRead<'a>>)
    ensures
        read.len() == keywords.len(),
{
    let mut read: Vec<KeywordRead<'a>> = Vec::new();
    let mut i: usize = 0;
    while i < keywords.len()
        invariant
            i <= keywords.len(),
            read.len() == i,
        decreases keywords.len() - i,
    {
        let (arg, value) = keyword_parts(&keywords[i]);
        read.push(KeywordRead { arg, value: expression_shape(value) });
        i += 1;
    }
    read
}

/// The expression of which an attribute access takes an attribute, none for
/// any other shape.
spec fn attribute_value_of<'a>(shape: ExprShape<'a>) -> Option<&'a ast::Expr> {
    match shape {
        ExprShape::Attribute { value, .. } => Some(value),
        _ => None,
    }
}

/// Returns the expression of which `shape` takes an attribute, if it is an
/// attribute access.
fn attribute_value<'a>(shape: &ExprShape<'a>) -> (value: Option<&'a ast::Expr>)
    ensures
        value == attribute_value_of(*shape),
{
    match shape {
        ExprShape::Attribute { value, .. } => Some(*value),
        _ => None,
    }
}

/// Reads one decorator of the given shape. Of a call the called expression
/// and every argument are read, and the expression whose attribute is taken
/// exactly where the called expression is an attribute access. Of any other
/// expression nothing more is read.
fn read_decorator<'a>(shape: ExprShape<'a>) -> (read: DecoratorRead<'a>)
    ensures
        match shape {
            ExprShape::Call { func, args, keywords } => read matches DecoratorRead::Call(call) && call.args.len()
                == args.len() && call.keywords.len() == keywords.len() && (call.base is Some
                <==> call.called is Attribute),
            _ => read is Other,
        },
{
    match shape {
        ExprShape::Call { func, args, keywords } => {
            let called = expression_shape(func);
            let base = match attribute_value(&called) {
                Some(value) => Some(expression_shape(value)),
                None => None,
            };
            DecoratorRead::Call(
                CallRead { called, base, args: read_expressions(args), keywords: read_keywords(keywords) },
            )
        },
        _ => DecoratorRead::Other,
    }
}

/// Reads decorators, in order.
fn read_decorators<'a>(exprs: &'a [ast::Expr]) -> (read: Vec<DecoratorRead<'a>>)
    ensures
        read.len() == exprs.len(),
{
    let mut read: Vec<DecoratorRead<'a>> = Vec::new();
    let mut i: usize = 0;
    while i < exprs.len()
        invariant
            i <= exprs.len(),
            read.len() == i,
        decreases exprs.len() - i,
    {
        read.push(read_decorator(expression_shape(&exprs[i])));
        i += 1;
    }
    read
}

/// Reads one statement: its shape, its line, and its decorators. A statement
/// that is no definition has none.
fn read_statement<'a>(stmt: &'a ast::Stmt, index: &LineIndex) -> (read: StatementRead<'a>)
    ensures
        read.line >= 1,
        read.decorators.len() == decorators_in(read.shape).len(),
{
    let shape = statement_shape(stmt);
    let line = statement_line(index, stmt);
    let decorators = match &shape {
        StmtShape::Function(_, decorators) => read_decorators(*decorators),
        StmtShape::AsyncFunction(_, decorators) => read_decorators(*decorators),
        StmtShape::Class(_, decorators) => read_decorators(*decorators),
        StmtShape::Other => Vec::new(),
    };
    StatementRead { shape, line, decorators }
}

/// The argument that an expression of the given shape is read as: a string
/// literal with its value, a bare name with its identifier, or neither.
spec fn argument_of(shape: ExprShape<'_>) -> ArgValueView {
    match shape {
        ExprShape::Str(value) => ArgValueView::Str(value@),
        ExprShape::Name { id, .. } => ArgValueView::Name(id@),
        _ => ArgValueView::Other,
    }
}

/// The arguments that expressions of the given shapes are read as.
spec fn arguments_of(shapes: Seq<ExprShape<'_>>) -> Seq<ArgValueView> {
    Seq::new(shapes.len(), |i: int| argument_of(shapes[i]))
}

/// The keyword argument that was read: its keyword as it is, and its value
/// as an argument.
spec fn keyword_of(read: KeywordRead<'_>) -> KeywordArgView {
    KeywordArgView { arg: read.arg.deep_view(), value: argument_of(read.value) }
}

/// The keyword arguments that were read.
spec fn keywords_of(read: Seq<KeywordRead<'_>>) -> Seq<KeywordArgView> {
    Seq::new(read.len(), |i: int| keyword_of(read[i]))
}

/// What a call calls, given the shape of the called expression and, where
/// that is an attribute access, the shape of the expression whose attribute
/// is taken: an attribute of a bare name, with both names and both flags, or
/// anything else.
spec fn callee_of(func: ExprShape<'_>, base: Option<ExprShape<'_>>) -> CalleeView {
    match (func, base) {
        (ExprShape::Attribute { attr, load: attr_load, .. }, Some(ExprShape::Name { id, load: base_load })) => {
            CalleeView::Attribute { base: id@, base_load, attr: attr@, attr_load }
        },
        _ => CalleeView::Other,
    }
}

/// The decorator that was read: a call with its callee and its arguments,
/// or anything else.
spec fn decorator_of(read: DecoratorRead<'_>) -> DecoratorView {
    match read {
        DecoratorRead::Call(call) => DecoratorView::Call {
            callee: callee_of(call.called, call.base),
            args: arguments_of(call.args@),
            keywords: keywords_of(call.keywords@),
        },
        DecoratorRead::Other => DecoratorView::Other,
    }
}

/// The decorators that were read.
spec fn decorators_of(read: Seq<DecoratorRead<'_>>) -> Seq<DecoratorView> {
    Seq::new(read.len(), |i: int| decorator_of(read[i]))
}

/// The statement that was read: a function, coroutine or class definition
/// with its name, its line and its decorators, or anything else.
spec fn statement_of(read: StatementRead<'_>) -> StatementView {
    match read.shape {
        StmtShape::Function(name, _) => StatementView::Definition(
            DefinitionView {
                kind: DefKind::Function,
                name: name@,
                line: read.line,
                decorators: decorators_of(read.decorators@),
            },
        ),
        StmtShape::AsyncFunction(name, _) => StatementView::Definition(
            DefinitionView {
                kind: DefKind::AsyncFunction,
                name: name@,
                line: read.line,
                decorators: decorators_of(read.decorators@),
            },
        ),
        StmtShape::Class(name, _) => StatementView::Definition(
            DefinitionView {
                kind: DefKind::Class,
                name: name@,
                line: read.line,
                decorators: decorators_of(read.decorators@),
            },
        ),
        StmtShape::Other => StatementView::Other,
    }
}

/// Lowers one argument of a call from its shape.
fn lower_argument(shape: ExprShape<'_>) -> (value: ArgValue)
    ensures
        value.deep_view() == argument_of(shape),
{
    match shape {
        ExprShape::Str(value) => ArgValue::Str(value),
        ExprShape::Name { id, load: _ } => ArgValue::Name(id),
        _ => ArgValue::Other,
    }
}

/// Lowers the positional arguments of a call from their shapes, in order.
fn lower_arguments(shapes: Vec<ExprShape<'_>>) -> (lowered: Vec<ArgValue>)
    ensures
        lowered.deep_view() == arguments_of(shapes@),
{
    let ghost items = shapes@;
    let mut lowered: Vec<ArgValue> = Vec::new();
    assert(lowered.deep_view() == arguments_of(items.take(0)));
    for shape in iter: shapes
        invariant
            iter.seq() == items,
            lowered.deep_view() == arguments_of(items.take(iter.index() as int)),
    {
        let ghost before = lowered.deep_view();
        let value = lower_argument(shape);
        lowered.push(value);
        proof {
            assert(lowered.deep_view() == before.push(value.deep_view()));
            assert(before.push(argument_of(shape)) == arguments_of(items.take(iter.index() + 1)));
        }
    }
    assert(items.take(items.len() as int) == items);
    lowered
}

/// Lowers the keyword arguments of a call from what was read of them, in
/// order.
fn lower_keywords(read: Vec<KeywordRead<'_>>) -> (lowered: Vec<KeywordArg>)
    ensures
        lowered.deep_view() == keywords_of(read@),
{
    let ghost items = read@;
    let mut lowered: Vec<KeywordArg> = Vec::new();
    assert(lowered.deep_view() == keywords_of(items.take(0)));
    for keyword in iter: read
        invariant
            iter.seq() == items,
            lowered.deep_view() == keywords_of(items.take(iter.index() as int)),
    {
        let ghost before = lowered.deep_view();
        let KeywordRead { arg, value } = keyword;
        let one = KeywordArg { arg, value: lower_argument(value) };
        lowered.push(one);
        proof {
            assert(lowered.deep_view() == before.push(one.deep_view()));
            assert(before.push(keyword_of(keyword)) == keywords_of(items.take(iter.index() + 1)));
        }
    }
    assert(items.take(items.len() as int) == items);
    lowered
}

/// Lowers what a call calls from the shape of the called expression and the
/// shape of the expression whose attribute it takes, if any.
fn lower_callee(func: ExprShape<'_>, base: Option<ExprShape<'_>>) -> (callee: Callee)
    ensures
        callee.deep_view() == callee_of(func, base),
{
    match (func, base) {
        (ExprShape::Attribute { value: _, attr, load: attr_load }, Some(ExprShape::Name { id, load: base_load })) => {
            Callee::Attribute { base: id, base_load, attr, attr_load }
        },
        _ => Callee::Other,
    }
}

/// Lowers one decorator from what was read of it.
fn lower_decorator(read: DecoratorRead<'_>) -> (decorator: Decorator)
    ensures
        decorator.deep_view() == decorator_of(read),
{
    match read {
        DecoratorRead::Call(call) => {
            let CallRead { called, base, args, keywords } = call;
            Decorator::Call {
                callee: lower_callee(called, base),
                args: lower_arguments(args),
                keywords: lower_keywords(keywords),
            }
        },
        DecoratorRead::Other => Decorator::Other,
    }
}

/// Lowers the decorators of a definition from what was read of them, in
/// order.
fn lower_decorators(read: Vec<DecoratorRead<'_>>) -> (lowered: Vec<Decorator>)
    ensures
        lowered.deep_view() == decorators_of(read@),
{
    let ghost items = read@;
    let mut lowered: Vec<Decorator> = Vec::new();
    assert(lowered.deep_view() == decorators_of(items.take(0)));
    for decorator in iter: read
        invariant
            iter.seq() == items,
            lowered.deep_view() == decorators_of(items.take(iter.index() as int)),
    {
        let ghost before = lowered.deep_view();
        let one = lower_decorator(decorator);
        lowered.push(one);
        proof {
            assert(lowered.deep_view() == before.push(one.deep_view()));
            assert(before.push(decorator_of(decorator)) == decorators_of(items.take(iter.index() + 1)));
        }
    }
    assert(items.take(items.len() as int) == items);
    lowered
}

/// Lowers one statement from what was read of it. A function, coroutine or
/// class definition yields a definition with its kind, its name, its line
/// and its decorators; any other statement yields `Other`.
fn lower_statement(read: StatementRead<'_>) -> (statement: Statement)
    ensures
        statement.deep_view() == statement_of(read),
{
    let StatementRead { shape, line, decorators } = read;
    match shape {
        StmtShape::Function(name, _) => Statement::Definition(
            Definition { kind: DefKind::Function, name, line, decorators: lower_decorators(decorators) },
        ),
        StmtShape::AsyncFunction(name, _) => Statement::Definition(
            Definition { kind: DefKind::AsyncFunction, name, line, decorators: lower_decorators(decorators) },
        ),
        StmtShape::Class(name, _) => Statement::Definition(
            Definition { kind: DefKind::Class, name, line, decorators: lower_decorators(decorators) },
        ),
        StmtShape::Other => Statement::Other,
    }
}

/// The definitions of the text `code`, or why it has none: what parsing
/// gives for `code`, with the definitions picked out of its statements.
pub open spec fn definitions_in(code: Seq<char>) -> Result<Seq<DefinitionView>, (Seq<char>, usize)> {
    match parsed_module(code) {
        Ok(statements) => Ok(definitions_among(statements)),
        Err(error) => Err(error),
    }
}

/// Every definition picked out of statements whose definitions stand at
/// lines counted from one stands at such a line.
pub proof fn lemma_definition_lines(statements: Seq<StatementView>)
    requires
        lines_from_one(statements),
    ensures
        forall|i: int|
            0 <= i < definitions_among(statements).len() ==> (#[trigger] definitions_among(statements)[i]).line
                >= 1,
    decreases statements.len(),
{
    if statements.len() > 0 {
        let init = statements.drop_last();
        assert forall|i: int| 0 <= i < init.len() implies ((#[trigger] init[i]) matches StatementView::Definition(
            definition,
        ) ==> definition.line >= 1) by {
            assert(init[i] == statements[i]);
        }
        lemma_definition_lines(init);
        assert(statements.last() == statements[statements.len() - 1]);
    }
}

/// Parses `code` and returns its top-level function, coroutine and class
/// definitions with their decorators, in source order.
///
/// Fails with `TooLarge` exactly when `code` is longer than
/// [`MAX_SOURCE_BYTES`]. Any other text yields what the parser makes of it:
/// the definitions among its statements, or its syntax error with message
/// and byte offset.
pub fn parse_definitions(path: &str, code: &str) -> (parsed: Result<Vec<Definition>, ParseFailure>)
    ensures
        parsed matches Err(ParseFailure::TooLarge) <==> code.len() > MAX_SOURCE_BYTES,
        code.len() <= MAX_SOURCE_BYTES ==> match definitions_in(code@) {
            Ok(definitions) => parsed matches Ok(found) && found.deep_view() == definitions,
            Err((message, offset)) => parsed matches Err(ParseFailure::Syntax { message: text, offset: place })
                && text@ == message && place == offset,
        },
        parsed matches Ok(found) ==> forall|i: int| 0 <= i < found.len() ==> (#[trigger] found[i]).line >= 1,
{
    if code.len() > MAX_SOURCE_BYTES {
        return Err(ParseFailure::TooLarge);
    }
    match parse_module(code, path) {
        Ok(statements) => {
            proof {
                lemma_definition_lines(statements.deep_view());
            }
            let found = definitions_of(statements);
            assert forall|i: int| 0 <= i < found.len() implies (#[trigger] found[i]).line >= 1 by {
                assert(found.deep_view()[i] == found[i].deep_view());
            }
            Ok(found)
        },
        Err((message, offset)) => Err(ParseFailure::Syntax { message, offset }),
    }
}

/// Whether `found` is what extraction yields for the file `path` with the
/// given top-level definitions.
pub open spec fn extracted_from(found: Extraction, path: Seq<char>, definitions: Seq<DefinitionView>) -> bool {
    &&& found.features.deep_view() == features_in(file_outcomes(path, definitions))
    &&& found.warnings@ == warnings_in(file_outcomes(path, definitions))
}

/// Extracts the feature records of the source file `path` with text `code`.
///
/// Fails with `TooLarge` exactly when `code` is longer than
/// [`MAX_SOURCE_BYTES`]. A text that does not parse yields its syntax error
/// and no record. A text that parses yields what [`extract_features`] finds
/// in its definitions: the records and the warnings of its
/// `brint.feature(..)` calls, in source order. Every record names `path`,
/// and lines are counted from one.
pub fn process_code(path: &str, code: &str) -> (result: Result<Extraction, ParseFailure>)
    ensures
        result matches Err(ParseFailure::TooLarge) <==> code.len() > MAX_SOURCE_BYTES,
        code.len() <= MAX_SOURCE_BYTES ==> match definitions_in(code@) {
            Ok(definitions) => result matches Ok(found) && extracted_from(found, path@, definitions),
            Err((message, offset)) => result matches Err(ParseFailure::Syntax { message: text, offset: place })
                && text@ == message && place == offset,
        },
        result matches Ok(found) ==> forall|k: int|
            0 <= k < found.features.len() ==> (#[trigger] found.features[k]).path@ == path@
                && found.features[k].line >= 1,
        result matches Ok(found) ==> forall|k: int|
            0 <= k < found.warnings.len() ==> (#[trigger] found.warnings[k]).line >= 1,
{
    match parse_definitions(path, code) {
        Ok(definitions) => {
            let slice = definitions.as_slice();
            let found = extract_features(path, slice);
            proof {
                let lowered = slice.deep_view();
                assert(extracted_from(found, path@, lowered));
                assert forall|i: int| 0 <= i < lowered.len() implies (#[trigger] lowered[i]).line >= 1 by {
                    assert(lowered[i] == definitions[i].deep_view());
                }
                lemma_file_places(path@, lowered);
                assert forall|k: int| 0 <= k < found.features.len() implies (#[trigger] found.features[k]).path@
                    == path@ && found.features[k].line >= 1 by {
                    assert(found.features.deep_view()[k] == found.features[k].deep_view());
                }
            }
            Ok(found)
        },
        Err(failure) => Err(failure),
    }
}

} // verus!
