use brint::args::{as_name, as_string_constant, keyword_field, parse_decorator_args, DecoratorArgs};
use brint::error::{ArgError, Field};
use brint::syntax::{ArgValue, KeywordArg};
use brint::version::Version;

fn text(value: &str) -> ArgValue {
    ArgValue::Str(value.to_string())
}

fn ident(id: &str) -> ArgValue {
    ArgValue::Name(id.to_string())
}

fn kw(arg: &str, value: ArgValue) -> KeywordArg {
    KeywordArg { arg: Some(arg.to_string()), value }
}

fn required() -> Vec<KeywordArg> {
    vec![kw("name", text("x")), kw("version", text("1.2.0"))]
}

fn with(extra: Vec<KeywordArg>) -> Vec<KeywordArg> {
    let mut all = required();
    all.extend(extra);
    all
}

#[test]
fn string_constant_is_read_from_a_literal_only() {
    assert_eq!(as_string_constant(&text("abc")), Some("abc".to_string()));
    assert_eq!(as_string_constant(&text("")), Some(String::new()));
    assert_eq!(as_string_constant(&ident("abc")), None);
    assert_eq!(as_string_constant(&ArgValue::Other), None);
}

#[test]
fn name_is_read_from_an_identifier_only() {
    assert_eq!(as_name(&ident("legacy_x")), Some("legacy_x".to_string()));
    assert_eq!(as_name(&text("legacy_x")), None);
    assert_eq!(as_name(&ArgValue::Other), None);
}

#[test]
fn the_six_keywords_are_known() {
    assert_eq!(keyword_field(&Some("name".to_string())), Some(Field::Name));
    assert_eq!(keyword_field(&Some("version".to_string())), Some(Field::Version));
    assert_eq!(keyword_field(&Some("author".to_string())), Some(Field::Author));
    assert_eq!(keyword_field(&Some("description".to_string())), Some(Field::Description));
    assert_eq!(keyword_field(&Some("new".to_string())), Some(Field::New));
    assert_eq!(keyword_field(&Some("old".to_string())), Some(Field::Old));
}

#[test]
fn other_keywords_are_unknown() {
    for word in ["", "extra", "Name", "name ", "names", "nam", "olds", "newer", "VERSION"] {
        assert_eq!(keyword_field(&Some(word.to_string())), None, "{:?}", word);
    }
    assert_eq!(keyword_field(&None), None);
}

#[test]
fn minimal_call_is_accepted() {
    let parsed = parse_decorator_args(&[], &required());
    assert_eq!(
        parsed,
        Ok(DecoratorArgs {
            name: Some("x".to_string()),
            version: Some(Version { major: 1, minor: 2, patch: 0 }),
            old: None,
            new: None,
            author: None,
            description: None,
        })
    );
}

#[test]
fn every_field_is_recorded() {
    let keywords = vec![
        kw("description", text("what it does")),
        kw("old", ident("before")),
        kw("author", text("somebody")),
        kw("version", text("10.0.7")),
        kw("name", text("feature one")),
    ];
    assert_eq!(
        parse_decorator_args(&[], &keywords),
        Ok(DecoratorArgs {
            name: Some("feature one".to_string()),
            version: Some(Version { major: 10, minor: 0, patch: 7 }),
            old: Some("before".to_string()),
            new: None,
            author: Some("somebody".to_string()),
            description: Some("what it does".to_string()),
        })
    );
}

#[test]
fn new_alone_is_recorded() {
    let parsed = parse_decorator_args(&[], &with(vec![kw("new", ident("after"))])).unwrap();
    assert_eq!(parsed.new, Some("after".to_string()));
    assert_eq!(parsed.old, None);
}

#[test]
fn positional_argument_is_rejected_first() {
    assert_eq!(parse_decorator_args(&[text("x")], &required()), Err(ArgError::PositionalArgument));
    assert_eq!(parse_decorator_args(&[ArgValue::Other], &[]), Err(ArgError::PositionalArgument));
    assert_eq!(
        parse_decorator_args(&[ident("a"), ident("b")], &[kw("extra", text("y"))]),
        Err(ArgError::PositionalArgument)
    );
}

#[test]
fn unknown_keyword_is_rejected() {
    assert_eq!(parse_decorator_args(&[], &with(vec![kw("extra", text("y"))])), Err(ArgError::UnknownKeyword));
    assert_eq!(parse_decorator_args(&[], &[kw("extra", text("y"))]), Err(ArgError::UnknownKeyword));
}

#[test]
fn keyword_without_a_name_is_rejected_as_unknown() {
    let unpacked = KeywordArg { arg: None, value: ident("options") };
    assert_eq!(parse_decorator_args(&[], &with(vec![unpacked])), Err(ArgError::UnknownKeyword));
}

#[test]
fn second_occurrence_of_a_keyword_is_rejected() {
    let cases = [
        ("name", text("y"), Field::Name),
        ("version", text("2.0.0"), Field::Version),
        ("author", text("a"), Field::Author),
        ("description", text("d"), Field::Description),
        ("new", ident("n"), Field::New),
        ("old", ident("o"), Field::Old),
    ];
    for (word, value, field) in cases {
        let keywords = vec![kw(word, value.clone()), kw(word, value)];
        assert_eq!(parse_decorator_args(&[], &keywords), Err(ArgError::Duplicate(field)), "{}", word);
    }
}

#[test]
fn duplicate_is_reported_before_its_value_is_looked_at() {
    let keywords = vec![kw("name", text("x")), kw("name", ident("not_a_string"))];
    assert_eq!(parse_decorator_args(&[], &keywords), Err(ArgError::Duplicate(Field::Name)));
}

#[test]
fn string_fields_take_only_a_string_literal() {
    for (word, field) in [
        ("name", Field::Name),
        ("version", Field::Version),
        ("author", Field::Author),
        ("description", Field::Description),
    ] {
        assert_eq!(parse_decorator_args(&[], &[kw(word, ident("x"))]), Err(ArgError::WrongValue(field)));
        assert_eq!(parse_decorator_args(&[], &[kw(word, ArgValue::Other)]), Err(ArgError::WrongValue(field)));
    }
}

#[test]
fn old_and_new_take_only_an_identifier() {
    for (word, field) in [("new", Field::New), ("old", Field::Old)] {
        assert_eq!(parse_decorator_args(&[], &[kw(word, text("x"))]), Err(ArgError::WrongValue(field)));
        assert_eq!(parse_decorator_args(&[], &[kw(word, ArgValue::Other)]), Err(ArgError::WrongValue(field)));
    }
}

#[test]
fn version_must_be_a_release() {
    let call = |version: &str| parse_decorator_args(&[], &[kw("name", text("x")), kw("version", text(version))]);
    assert_eq!(call("1.0.0-rc1"), Err(ArgError::Prerelease));
    assert_eq!(call("1.0.0+b1"), Err(ArgError::BuildMetadata));
    assert_eq!(call("1.0"), Err(ArgError::InvalidVersion));
    assert_eq!(call("one"), Err(ArgError::InvalidVersion));
    assert_eq!(call("2.3.1").unwrap().version, Some(Version { major: 2, minor: 3, patch: 1 }));
}

#[test]
fn version_and_name_are_required() {
    assert_eq!(parse_decorator_args(&[], &[]), Err(ArgError::MissingVersion));
    assert_eq!(parse_decorator_args(&[], &[kw("name", text("x"))]), Err(ArgError::MissingVersion));
    assert_eq!(parse_decorator_args(&[], &[kw("version", text("1.0.0"))]), Err(ArgError::MissingName));
    assert_eq!(parse_decorator_args(&[], &[kw("old", ident("a")), kw("new", ident("b"))]), Err(ArgError::MissingVersion));
}

#[test]
fn old_and_new_together_are_rejected() {
    let keywords = with(vec![kw("old", ident("a")), kw("new", ident("b"))]);
    assert_eq!(parse_decorator_args(&[], &keywords), Err(ArgError::OldAndNew));
    let keywords = with(vec![kw("new", ident("b")), kw("old", ident("a"))]);
    assert_eq!(parse_decorator_args(&[], &keywords), Err(ArgError::OldAndNew));
}

#[test]
fn first_offending_keyword_decides() {
    let keywords = vec![kw("name", ident("x")), kw("extra", text("y")), kw("version", text("bad"))];
    assert_eq!(parse_decorator_args(&[], &keywords), Err(ArgError::WrongValue(Field::Name)));
    let keywords = vec![kw("extra", text("y")), kw("name", ident("x"))];
    assert_eq!(parse_decorator_args(&[], &keywords), Err(ArgError::UnknownKeyword));
    let keywords = vec![kw("version", text("bad")), kw("version", text("1.0.0"))];
    assert_eq!(parse_decorator_args(&[], &keywords), Err(ArgError::InvalidVersion));
    let keywords = vec![kw("old", ident("a")), kw("new", ident("b")), kw("extra", text("y"))];
    assert_eq!(parse_decorator_args(&[], &keywords), Err(ArgError::UnknownKeyword));
}

#[test]
fn every_error_has_its_message() {
    assert_eq!(ArgError::PositionalArgument.message(), "@brint.feature(..) does not accept positional argument");
    assert_eq!(ArgError::UnknownKeyword.message(), "@brint.feature(..) has unknown keyword argument");
    assert_eq!(ArgError::Duplicate(Field::Name).message(), "@brint.feature(..) has two name keyword arguments");
    assert_eq!(ArgError::Duplicate(Field::Version).message(), "@brint.feature(..) has two version keyword arguments");
    assert_eq!(ArgError::Duplicate(Field::Author).message(), "@brint.feature(..) has two author keyword arguments");
    assert_eq!(ArgError::Duplicate(Field::Description).message(), "@brint.feature(..) has two description keyword arguments");
    assert_eq!(ArgError::Duplicate(Field::New).message(), "@brint.feature(..) has two new keyword arguments");
    assert_eq!(ArgError::Duplicate(Field::Old).message(), "@brint.feature(..) has two old keyword arguments");
    assert_eq!(ArgError::WrongValue(Field::Name).message(), "@brint.feature(..)'s name only accepts literal string");
    assert_eq!(ArgError::WrongValue(Field::Version).message(), "@brint.feature(..)'s version only accepts literal string");
    assert_eq!(ArgError::WrongValue(Field::Author).message(), "@brint.feature(..)'s author only accepts literal string");
    assert_eq!(ArgError::WrongValue(Field::Description).message(), "@brint.feature(..)'s description only accepts literal string");
    assert_eq!(ArgError::WrongValue(Field::New).message(), "@brint.feature(..)'s new only accepts an identifier");
    assert_eq!(ArgError::WrongValue(Field::Old).message(), "@brint.feature(..)'s old only accepts an identifier");
    assert_eq!(ArgError::InvalidVersion.message(), "@brint.feature(..)'s version keyword argument has invalid semver version");
    assert_eq!(ArgError::Prerelease.message(), "@brint.feature(..)'s version keyword argument does not support prerelease");
    assert_eq!(ArgError::BuildMetadata.message(), "@brint.feature(..)'s version keyword argument does not support build metadata");
    assert_eq!(ArgError::MissingVersion.message(), "@brint.feature(..) has no version keyword argument");
    assert_eq!(ArgError::MissingName.message(), "@brint.feature(..) has no name keyword argument");
    assert_eq!(ArgError::OldAndNew.message(), "@brint.feature(..) has both old and new keyword arguments");
}

#[test]
fn default_arguments_are_empty() {
    assert_eq!(
        DecoratorArgs::default(),
        DecoratorArgs { name: None, version: None, old: None, new: None, author: None, description: None }
    );
}
