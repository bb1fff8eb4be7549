use brint::error::ArgError;
use brint::extract::Warning;
use brint::python::{parse_definitions, process_code, ParseFailure, MAX_SOURCE_BYTES};
use brint::syntax::{ArgValue, Callee, Decorator, DefKind, KeywordArg};
use brint::version::Version;

#[test]
fn legacy_alias_yields_one_record() {
    let code = "@brint.feature(name=\"x\", version=\"1.2.0\", old=legacy_x)\ndef x(): pass\n";
    let found = process_code("pkg/mod.py", code).unwrap();
    assert!(found.warnings.is_empty());
    assert_eq!(found.features.len(), 1);
    let f = &found.features[0];
    assert_eq!(f.feature_name, "x");
    assert_eq!(f.version, Version { major: 1, minor: 2, patch: 0 });
    assert_eq!(f.old, Some("legacy_x".to_string()));
    assert_eq!(f.new, "def x");
    assert_eq!(f.path, "pkg/mod.py");
    assert_eq!(f.line, 2);
    assert_eq!(f.author, None);
    assert_eq!(f.description, None);
}

#[test]
fn unknown_keyword_yields_one_warning_and_no_record() {
    let code = "@brint.feature(name=\"x\", version=\"1.2.0\", extra=\"y\")\ndef x(): pass\n";
    let found = process_code("a.py", code).unwrap();
    assert!(found.features.is_empty());
    assert_eq!(found.warnings, vec![Warning { line: 2, error: ArgError::UnknownKeyword }]);
}

#[test]
fn source_without_feature_decorators_yields_nothing() {
    let code = "import os\n\n@staticmethod\ndef f(): pass\n\n@app.route('/x', methods=['GET'])\nasync def g(): pass\n\nclass C:\n    x = 1\n";
    let found = process_code("a.py", code).unwrap();
    assert!(found.features.is_empty());
    assert!(found.warnings.is_empty());
}

#[test]
fn empty_source_yields_nothing() {
    let found = process_code("a.py", "").unwrap();
    assert!(found.features.is_empty());
    assert!(found.warnings.is_empty());
}

#[test]
fn syntax_error_yields_the_failure() {
    let result = process_code("a.py", "def broken(:\n    pass\n");
    assert!(matches!(result, Err(ParseFailure::Syntax { .. })));
    if let Err(ParseFailure::Syntax { message, offset }) = result {
        assert!(!message.is_empty());
        assert!(offset <= 22);
    }
}

#[test]
fn repeated_keyword_is_a_syntax_error_of_the_parser() {
    let code = "@brint.feature(name=\"x\", name=\"y\", version=\"1.0.0\")\ndef x(): pass\n";
    assert!(matches!(process_code("a.py", code), Err(ParseFailure::Syntax { .. })));
}

#[test]
fn three_kinds_of_definition_are_read() {
    let code = "\
@brint.feature(name=\"a\", version=\"1.0.0\", new=current_a)
def fa(): pass

@brint.feature(name=\"b\", version=\"1.0.0\", old=former_b)
async def fb(): pass

@brint.feature(name=\"c\", version=\"2.0.0\")
class K:
    pass
";
    let found = process_code("a.py", code).unwrap();
    assert!(found.warnings.is_empty());
    let seen: Vec<(String, usize, Option<String>, String)> =
        found.features.iter().map(|f| (f.feature_name.clone(), f.line, f.old.clone(), f.new.clone())).collect();
    assert_eq!(
        seen,
        vec![
            ("a".to_string(), 2, Some("def fa".to_string()), "current_a".to_string()),
            ("b".to_string(), 5, Some("former_b".to_string()), "async def fb".to_string()),
            ("c".to_string(), 8, None, "class K".to_string()),
        ]
    );
}

#[test]
fn both_names_drop_only_that_call() {
    let code = "\
@brint.feature(name=\"ok1\", version=\"1.0.0\")
@brint.feature(name=\"bad\", version=\"1.0.0\", old=a, new=b)
@brint.feature(name=\"ok2\", version=\"1.1.0\", author=\"me\", description=\"d\")
def f(): pass
";
    let found = process_code("a.py", code).unwrap();
    let names: Vec<&str> = found.features.iter().map(|f| f.feature_name.as_str()).collect();
    assert_eq!(names, vec!["ok1", "ok2"]);
    assert_eq!(found.features[1].author, Some("me".to_string()));
    assert_eq!(found.features[1].description, Some("d".to_string()));
    assert_eq!(found.warnings, vec![Warning { line: 4, error: ArgError::OldAndNew }]);
}

#[test]
fn versions_with_suffix_are_rejected_end_to_end() {
    let code = "\
@brint.feature(name=\"x\", version=\"1.0.0-rc1\")
def f(): pass
@brint.feature(name=\"y\", version=\"1.0.0+b7\")
def g(): pass
@brint.feature(name=\"z\", version=\"2.3.1\")
def h(): pass
";
    let found = process_code("a.py", code).unwrap();
    assert_eq!(found.features.len(), 1);
    assert_eq!(found.features[0].version, Version { major: 2, minor: 3, patch: 1 });
    assert_eq!(
        found.warnings,
        vec![Warning { line: 2, error: ArgError::Prerelease }, Warning { line: 4, error: ArgError::BuildMetadata }]
    );
}

#[test]
fn other_shapes_are_passed_over() {
    let code = "\
@brint.feature
def a(): pass
@feature(name=\"x\", version=\"1.0.0\")
def b(): pass
@pkg.brint.feature(name=\"x\", version=\"1.0.0\")
def c(): pass
@brint.feature(name=\"x\", version=\"1.0.0\")()
def d(): pass
@brint.features(name=\"x\", version=\"1.0.0\")
def e(): pass
";
    let found = process_code("a.py", code).unwrap();
    assert!(found.features.is_empty());
    assert!(found.warnings.is_empty());
}

#[test]
fn only_top_level_definitions_are_read() {
    let code = "\
class C:
    @brint.feature(name=\"inner\", version=\"1.0.0\")
    def method(self): pass

if True:
    @brint.feature(name=\"nested\", version=\"1.0.0\")
    def f(): pass
";
    let found = process_code("a.py", code).unwrap();
    assert!(found.features.is_empty());
    assert!(found.warnings.is_empty());
}

#[test]
fn argument_shapes_are_told_apart() {
    let code = "\
@brint.feature(name=x, version=\"1.0.0\")
def a(): pass
@brint.feature(name=\"x\", version=\"1.0.0\", old=\"text\")
def b(): pass
@brint.feature(name=\"x\", version=\"1.0.0\", new=pkg.attr)
def c(): pass
@brint.feature(name=f\"x\", version=\"1.0.0\")
def d(): pass
@brint.feature(\"x\", version=\"1.0.0\")
def e(): pass
@brint.feature(**options)
def f(): pass
@brint.feature(name=\"x\", version=1)
def g(): pass
";
    let found = process_code("a.py", code).unwrap();
    assert!(found.features.is_empty());
    let errors: Vec<ArgError> = found.warnings.iter().map(|w| w.error).collect();
    assert_eq!(
        errors,
        vec![
            ArgError::WrongValue(brint::error::Field::Name),
            ArgError::WrongValue(brint::error::Field::Old),
            ArgError::WrongValue(brint::error::Field::New),
            ArgError::WrongValue(brint::error::Field::Name),
            ArgError::PositionalArgument,
            ArgError::UnknownKeyword,
            ArgError::WrongValue(brint::error::Field::Version),
        ]
    );
    let lines: Vec<usize> = found.warnings.iter().map(|w| w.line).collect();
    assert_eq!(lines, vec![2, 4, 6, 8, 10, 12, 14]);
}

#[test]
fn definitions_are_lowered_in_order() {
    let code = "x = 1\n@brint.feature(name=\"n\", old=prior)\n@other\ndef f(): pass\n\nclass C: pass\n";
    let definitions = parse_definitions("a.py", code).unwrap();
    assert_eq!(definitions.len(), 2);
    assert_eq!(definitions[0].kind, DefKind::Function);
    assert_eq!(definitions[0].name, "f");
    assert_eq!(definitions[0].line, 4);
    assert_eq!(
        definitions[0].decorators,
        vec![
            Decorator::Call {
                callee: Callee::Attribute { base: "brint".to_string(), base_load: true, attr: "feature".to_string(), attr_load: true },
                args: vec![],
                keywords: vec![
                    KeywordArg { arg: Some("name".to_string()), value: ArgValue::Str("n".to_string()) },
                    KeywordArg { arg: Some("old".to_string()), value: ArgValue::Name("prior".to_string()) },
                ],
            },
            Decorator::Other,
        ]
    );
    assert_eq!(definitions[1].kind, DefKind::Class);
    assert_eq!(definitions[1].name, "C");
    assert_eq!(definitions[1].line, 6);
    assert!(definitions[1].decorators.is_empty());
}

#[test]
fn lines_count_every_kind_of_line_break() {
    let code = "a = 1\r\nb = 2\r\n@brint.feature(name=\"n\", version=\"1.0.0\")\r\ndef f(): pass\r\n";
    let found = process_code("a.py", code).unwrap();
    assert_eq!(found.features.len(), 1);
    assert_eq!(found.features[0].line, 4);
}

#[test]
fn same_source_gives_same_records() {
    let code = "@brint.feature(name=\"x\", version=\"1.2.0\", old=legacy_x)\ndef x(): pass\n";
    assert_eq!(process_code("a.py", code), process_code("a.py", code));
}

#[test]
fn source_limit_is_the_largest_32_bit_offset() {
    assert_eq!(MAX_SOURCE_BYTES, 4294967295);
}

#[test]
fn same_source_gives_same_definitions_whatever_the_path() {
    let code = "@brint.feature(name=\"x\", version=\"1.2.0\", old=legacy_x)\ndef x(): pass\n";
    assert_eq!(parse_definitions("a.py", code), parse_definitions("b/c.py", code));
    let broken = "def broken(:\n";
    assert_eq!(parse_definitions("a.py", broken), parse_definitions("b/c.py", broken));
}

#[test]
fn syntax_error_keeps_message_and_offset() {
    let first = process_code("a.py", "x = (1,\n");
    let second = process_code("a.py", "x = (1,\n");
    assert!(matches!(first, Err(ParseFailure::Syntax { .. })));
    assert_eq!(first, second);
}
