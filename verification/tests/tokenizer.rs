use graphql_schema::common::{
    block_string_value, parse_integer, string, unquote_block_string, unquote_string, Value,
};
use graphql_schema::schema::ast::{Definition, TypeDefinition};
use graphql_schema::error::{ErrorItem, ParseError};
use graphql_schema::helpers::{at_end, at_ident, at_kind, at_punct, ident, kind, name, punct, text_is};
use graphql_schema::position::Pos;
use graphql_schema::schema::grammar::{input_value, parse_schema};
use graphql_schema::tokenizer::{chars_of, Kind, Token, TokenStream};

fn token(kind: Kind, value: &str, line: usize, column: usize) -> Token {
    Token { kind, value: value.to_string(), position: Pos { line, column } }
}

fn kinds(text: &str) -> Vec<(Kind, String)> {
    let stream = TokenStream::new(text);
    assert_eq!(stream.fault, None);
    stream.tokens.into_iter().map(|t| (t.kind, t.value)).collect()
}

fn fault(text: &str) -> (usize, Pos, String) {
    let stream = TokenStream::new(text);
    (stream.tokens.len(), stream.end, stream.fault.unwrap())
}

fn chars(text: &str) -> Vec<char> {
    text.chars().collect()
}

#[test]
fn tokens_carry_kind_text_and_place() {
    let stream = TokenStream::new("type Foo @a(b: 12) {\n  x: [Int!]!\n}");
    assert_eq!(
        stream.tokens,
        vec![
            token(Kind::Name, "type", 1, 1),
            token(Kind::Name, "Foo", 1, 6),
            token(Kind::Punctuator, "@", 1, 10),
            token(Kind::Name, "a", 1, 11),
            token(Kind::Punctuator, "(", 1, 12),
            token(Kind::Name, "b", 1, 13),
            token(Kind::Punctuator, ":", 1, 14),
            token(Kind::IntValue, "12", 1, 16),
            token(Kind::Punctuator, ")", 1, 18),
            token(Kind::Punctuator, "{", 1, 20),
            token(Kind::Name, "x", 2, 3),
            token(Kind::Punctuator, ":", 2, 4),
            token(Kind::Punctuator, "[", 2, 6),
            token(Kind::Name, "Int", 2, 7),
            token(Kind::Punctuator, "!", 2, 10),
            token(Kind::Punctuator, "]", 2, 11),
            token(Kind::Punctuator, "!", 2, 12),
            token(Kind::Punctuator, "}", 3, 1),
        ]
    );
    assert_eq!(stream.end, Pos { line: 3, column: 2 });
    assert_eq!(stream.fault, None);
    assert_eq!(stream.cursor, 0);
}

#[test]
fn blanks_move_the_place() {
    let stream = TokenStream::new("\u{feff}a,,b\tc\r\n# d e f\n\n  g # h");
    assert_eq!(
        stream.tokens,
        vec![
            token(Kind::Name, "a", 1, 1),
            token(Kind::Name, "b", 1, 4),
            token(Kind::Name, "c", 1, 13),
            token(Kind::Name, "g", 4, 3),
        ]
    );
    assert_eq!(stream.end, Pos { line: 4, column: 8 });
}

#[test]
fn empty_text_has_no_tokens() {
    let stream = TokenStream::new("");
    assert_eq!(stream.tokens, vec![]);
    assert_eq!(stream.end, Pos { line: 1, column: 1 });
    assert_eq!(stream.fault, None);
    let stream = TokenStream::new(" \n\t");
    assert_eq!(stream.tokens, vec![]);
    assert_eq!(stream.end, Pos { line: 2, column: 9 });
}

#[test]
fn every_punctuator_is_a_token() {
    assert_eq!(
        kinds("!$:=@|()[]{}&..."),
        vec![
            (Kind::Punctuator, "!".to_string()),
            (Kind::Punctuator, "$".to_string()),
            (Kind::Punctuator, ":".to_string()),
            (Kind::Punctuator, "=".to_string()),
            (Kind::Punctuator, "@".to_string()),
            (Kind::Punctuator, "|".to_string()),
            (Kind::Punctuator, "(".to_string()),
            (Kind::Punctuator, ")".to_string()),
            (Kind::Punctuator, "[".to_string()),
            (Kind::Punctuator, "]".to_string()),
            (Kind::Punctuator, "{".to_string()),
            (Kind::Punctuator, "}".to_string()),
            (Kind::Punctuator, "&".to_string()),
            (Kind::Punctuator, "...".to_string()),
        ]
    );
}

#[test]
fn names_hold_letters_digits_and_underscores() {
    assert_eq!(
        kinds("_a9Z b__ C"),
        vec![
            (Kind::Name, "_a9Z".to_string()),
            (Kind::Name, "b__".to_string()),
            (Kind::Name, "C".to_string()),
        ]
    );
}

#[test]
fn numbers_are_integers_or_floats() {
    assert_eq!(
        kinds("0 -0 12 -7 1.5 1e10 -1.5E-3 0.0 2e+2"),
        vec![
            (Kind::IntValue, "0".to_string()),
            (Kind::IntValue, "-0".to_string()),
            (Kind::IntValue, "12".to_string()),
            (Kind::IntValue, "-7".to_string()),
            (Kind::FloatValue, "1.5".to_string()),
            (Kind::FloatValue, "1e10".to_string()),
            (Kind::FloatValue, "-1.5E-3".to_string()),
            (Kind::FloatValue, "0.0".to_string()),
            (Kind::FloatValue, "2e+2".to_string()),
        ]
    );
}

#[test]
fn numbers_that_are_none() {
    assert_eq!(fault("01"), (0, Pos { line: 1, column: 1 }, "unsupported number 01".to_string()));
    assert_eq!(fault("a 1."), (1, Pos { line: 1, column: 3 }, "unsupported number 1.".to_string()));
    assert_eq!(fault("-"), (0, Pos { line: 1, column: 1 }, "unsupported number -".to_string()));
    assert_eq!(fault("1e"), (0, Pos { line: 1, column: 1 }, "unsupported number 1e".to_string()));
    assert_eq!(fault("1.2.3"), (0, Pos { line: 1, column: 1 }, "unsupported number 1.2.3".to_string()));
    assert_eq!(fault("12abc)"), (0, Pos { line: 1, column: 1 }, "unsupported number 12abc".to_string()));
    assert_eq!(fault("1.e5"), (0, Pos { line: 1, column: 1 }, "unsupported number 1.e5".to_string()));
}

#[test]
fn strings_end_at_the_first_quote_that_is_not_escaped() {
    assert_eq!(
        kinds("\"\" \"a b\" \"a\\\"b\" \"a\\\\\" x"),
        vec![
            (Kind::StringValue, "\"\"".to_string()),
            (Kind::StringValue, "\"a b\"".to_string()),
            (Kind::StringValue, "\"a\\\"b\"".to_string()),
            (Kind::StringValue, "\"a\\\\\"".to_string()),
            (Kind::Name, "x".to_string()),
        ]
    );
}

#[test]
fn block_strings_end_at_three_quotes_that_are_not_escaped() {
    let stream = TokenStream::new("\"\"\"a\nbc\"\"\" x \"\"\"\"\"\" \"\"\"q\\\"\"\"r\"\"\"");
    assert_eq!(
        stream.tokens,
        vec![
            token(Kind::BlockString, "\"\"\"a\nbc\"\"\"", 1, 1),
            token(Kind::Name, "x", 2, 7),
            token(Kind::BlockString, "\"\"\"\"\"\"", 2, 9),
            token(Kind::BlockString, "\"\"\"q\\\"\"\"r\"\"\"", 2, 16),
        ]
    );
    assert_eq!(stream.fault, None);
}

#[test]
fn what_begins_no_token_ends_the_tokens() {
    assert_eq!(fault("a ^ b"), (1, Pos { line: 1, column: 3 }, "unexpected character ^".to_string()));
    assert_eq!(
        fault("a . b"),
        (1, Pos { line: 1, column: 3 }, "bare dot is not supported, only \"...\"".to_string())
    );
    assert_eq!(fault("..").2, "bare dot is not supported, only \"...\"".to_string());
    assert_eq!(fault("\"abc"), (0, Pos { line: 1, column: 1 }, "unterminated string value".to_string()));
    assert_eq!(fault("x\n \"a\nb\""), (1, Pos { line: 2, column: 2 }, "unterminated string value".to_string()));
    assert_eq!(
        fault("\"\"\"abc\"\""),
        (0, Pos { line: 1, column: 1 }, "unterminated block string value".to_string())
    );
    assert_eq!(
        fault("\"\"\"a\\\"\"\""),
        (0, Pos { line: 1, column: 1 }, "unterminated block string value".to_string())
    );
    assert_eq!(fault("é").2, "unexpected character é".to_string());
}

#[test]
fn characters_are_counted_not_bytes() {
    let stream = TokenStream::new("\"héllo wörld\" x");
    assert_eq!(
        stream.tokens,
        vec![token(Kind::StringValue, "\"héllo wörld\"", 1, 1), token(Kind::Name, "x", 1, 15)]
    );
    assert_eq!(chars_of("aé\u{1F600}"), vec!['a', 'é', '\u{1F600}']);
}

#[test]
fn quoted_strings_are_decoded() {
    assert_eq!(unquote_string(&chars("\"\"")), Ok("".to_string()));
    assert_eq!(unquote_string(&chars("\"plain\"")), Ok("plain".to_string()));
    assert_eq!(
        unquote_string(&chars("\"a\\nb\\t\\\"q\\\"\\\\ \\/ \\b\\f\\r\"")),
        Ok("a\nb\t\"q\"\\ / \u{8}\u{c}\r".to_string())
    );
    assert_eq!(unquote_string(&chars("\"\\u0041\\u00e9\\u20AC\"")), Ok("Aé€".to_string()));
    assert_eq!(unquote_string(&chars("\"\\q\"")), Err("bad escaped character"));
    assert_eq!(unquote_string(&chars("\"\\u12\"")), Err("bad unicode escape"));
    assert_eq!(unquote_string(&chars("\"\\u12G4\"")), Err("bad unicode escape"));
    assert_eq!(unquote_string(&chars("\"\\ud800\"")), Err("bad unicode escape"));
    assert_eq!(unquote_string(&chars("abc")), Err("string is not quoted"));
    assert_eq!(unquote_string(&chars("\"")), Err("string is not quoted"));
}

#[test]
fn block_strings_are_decoded() {
    assert_eq!(unquote_block_string(&chars("\"\"\"\"\"\"")), Ok("".to_string()));
    assert_eq!(unquote_block_string(&chars("\"\"\"a \"b\" c\"\"\"")), Ok("a \"b\" c".to_string()));
    assert_eq!(
        unquote_block_string(&chars("\"\"\"a \\\"\"\" b \\n\"\"\"")),
        Ok("a \"\"\" b \\n".to_string())
    );
    assert_eq!(unquote_block_string(&chars("\"\"\"a\"\"")), Err("string is not quoted"));
}

#[test]
fn block_strings_lose_their_common_indent() {
    assert_eq!(
        unquote_block_string(&chars(
            "\"\"\"\n    Hello,\n      World!\n\n    Yours,\n      GraphQL.\n  \"\"\""
        )),
        Ok("Hello,\n  World!\n\nYours,\n  GraphQL.".to_string())
    );
    assert_eq!(unquote_block_string(&chars("\"\"\"  a  \"\"\"")), Ok("  a  ".to_string()));
    assert_eq!(unquote_block_string(&chars("\"\"\"\n\n  x\n\n\"\"\"")), Ok("x".to_string()));
    assert_eq!(unquote_block_string(&chars("\"\"\" \n\t\n \"\"\"")), Ok("".to_string()));
    assert_eq!(unquote_block_string(&chars("\"\"\"a\r\n  b\r  c\"\"\"")), Ok("a\nb\nc".to_string()));
    assert_eq!(
        unquote_block_string(&chars("\"\"\"first\n\t\tsecond\n\t third\n\t\t\tfourth\"\"\"")),
        Ok("first\nsecond\nthird\n\tfourth".to_string())
    );
    assert_eq!(
        unquote_block_string(&chars("\"\"\"\n    a\n \n    b\n\"\"\"")),
        Ok("a\n\nb".to_string())
    );
    assert_eq!(block_string_value(&chars("  x\n  y")), "  x\ny".to_string());
    assert_eq!(block_string_value(&chars("")), "".to_string());
    assert_eq!(block_string_value(&chars("\n")), "".to_string());
    assert_eq!(block_string_value(&chars("x\n\n")), "x".to_string());
    let doc = parse_schema("\"\"\"\n  A point\n    in time.\n\"\"\"\nscalar Date").unwrap();
    match &doc.definitions[0] {
        Definition::TypeDefinition(TypeDefinition::Scalar(t)) => {
            assert_eq!(t.description, Some("A point\n  in time.".to_string()));
            assert_eq!(t.position, Pos { line: 5, column: 1 });
        }
        other => panic!("read {:?}", other),
    }
}

#[test]
fn a_string_token_that_cannot_be_decoded_is_refused_where_it_stands() {
    let mut tokens = TokenStream::new("x \"a\\qb\"");
    tokens.cursor = 1;
    assert_eq!(
        string(&mut tokens),
        Err(ParseError {
            position: Pos { line: 1, column: 3 },
            errors: vec![ErrorItem::Message("bad escaped character".to_string())],
        })
    );
    assert_eq!(tokens.cursor, 1);
    let mut tokens = TokenStream::new("\"\"\"block\"\"\" \"line\"");
    assert_eq!(string(&mut tokens), Ok("block".to_string()));
    assert_eq!(string(&mut tokens), Ok("line".to_string()));
    assert_eq!(
        string(&mut tokens),
        Err(ParseError {
            position: Pos { line: 1, column: 19 },
            errors: vec![
                ErrorItem::UnexpectedEnd,
                ErrorItem::Expected("StringValue".to_string()),
                ErrorItem::Expected("BlockString".to_string()),
            ],
        })
    );
}

#[test]
fn integers_are_read_in_base_ten() {
    assert_eq!(parse_integer(&chars("0")), Some(0));
    assert_eq!(parse_integer(&chars("-0")), Some(0));
    assert_eq!(parse_integer(&chars("1234567890")), Some(1234567890));
    assert_eq!(parse_integer(&chars("-42")), Some(-42));
    assert_eq!(parse_integer(&chars("007")), Some(7));
    assert_eq!(parse_integer(&chars("9223372036854775807")), Some(i64::MAX));
    assert_eq!(parse_integer(&chars("9223372036854775808")), None);
    assert_eq!(parse_integer(&chars("-9223372036854775808")), Some(i64::MIN));
    assert_eq!(parse_integer(&chars("-9223372036854775809")), None);
    assert_eq!(parse_integer(&chars("99999999999999999999999")), None);
    assert_eq!(parse_integer(&chars("")), None);
    assert_eq!(parse_integer(&chars("-")), None);
    assert_eq!(parse_integer(&chars("12a")), None);
    assert_eq!(parse_integer(&chars("+5")), None);
}

#[test]
fn the_smallest_rules_take_one_token() {
    let mut tokens = TokenStream::new("type { Foo 7");
    assert!(at_ident(&tokens, "type"));
    assert!(!at_ident(&tokens, "typ"));
    assert!(!at_ident(&tokens, "types"));
    assert!(!at_punct(&tokens, "type"));
    assert!(at_kind(&tokens, Kind::Name));
    assert_eq!(ident(&mut tokens, "type"), Ok(()));
    assert_eq!(tokens.cursor, 1);
    assert_eq!(
        ident(&mut tokens, "type"),
        Err(ParseError {
            position: Pos { line: 1, column: 6 },
            errors: vec![
                ErrorItem::UnexpectedToken { kind: Kind::Punctuator, value: "{".to_string() },
                ErrorItem::Expected("type".to_string()),
            ],
        })
    );
    assert_eq!(tokens.cursor, 1);
    assert_eq!(punct(&mut tokens, "{"), Ok(()));
    assert_eq!(name(&mut tokens), Ok("Foo".to_string()));
    assert_eq!(
        name(&mut tokens),
        Err(ParseError {
            position: Pos { line: 1, column: 12 },
            errors: vec![
                ErrorItem::UnexpectedToken { kind: Kind::IntValue, value: "7".to_string() },
                ErrorItem::Expected("Name".to_string()),
            ],
        })
    );
    assert_eq!(kind(&mut tokens, Kind::IntValue), Ok(token(Kind::IntValue, "7", 1, 12)));
    assert!(at_end(&tokens));
    assert_eq!(
        kind(&mut tokens, Kind::FloatValue),
        Err(ParseError {
            position: Pos { line: 1, column: 13 },
            errors: vec![ErrorItem::UnexpectedEnd, ErrorItem::Expected("FloatValue".to_string())],
        })
    );
    assert!(text_is("abc", "abc"));
    assert!(!text_is("abc", "abd"));
    assert!(!text_is("abc", "ab"));
    assert!(text_is("", ""));
}

#[test]
fn a_diagnostic_holds_nothing_twice() {
    let mut error = ParseError::empty(Pos { line: 2, column: 3 });
    error.add_error(ErrorItem::Expected("a".to_string()));
    error.add_error(ErrorItem::Unexpected("a".to_string()));
    error.add_error(ErrorItem::Expected("a".to_string()));
    error.add_error(ErrorItem::UnexpectedEnd);
    error.add_error(ErrorItem::UnexpectedEnd);
    error.add_error(ErrorItem::Message("a".to_string()));
    error.add_error(ErrorItem::UnexpectedToken { kind: Kind::Name, value: "a".to_string() });
    error.add_error(ErrorItem::UnexpectedToken { kind: Kind::IntValue, value: "a".to_string() });
    error.add_error(ErrorItem::UnexpectedToken { kind: Kind::Name, value: "a".to_string() });
    assert_eq!(
        error,
        ParseError {
            position: Pos { line: 2, column: 3 },
            errors: vec![
                ErrorItem::Expected("a".to_string()),
                ErrorItem::Unexpected("a".to_string()),
                ErrorItem::UnexpectedEnd,
                ErrorItem::Message("a".to_string()),
                ErrorItem::UnexpectedToken { kind: Kind::Name, value: "a".to_string() },
                ErrorItem::UnexpectedToken { kind: Kind::IntValue, value: "a".to_string() },
            ],
        }
    );
    assert!(ErrorItem::UnexpectedEnd.same(&ErrorItem::UnexpectedEnd));
    assert!(!ErrorItem::Expected("a".to_string()).same(&ErrorItem::Message("a".to_string())));
}

#[test]
fn places_stay_within_what_a_count_can_hold() {
    let far = Pos { line: usize::MAX, column: usize::MAX - 3 };
    assert_eq!(far.shifted(2), Pos { line: usize::MAX, column: usize::MAX - 1 });
    assert_eq!(far.shifted(8), Pos { line: usize::MAX, column: usize::MAX });
    assert_eq!(far.next_line(), Pos { line: usize::MAX, column: 1 });
    assert_eq!(Pos::start(), Pos { line: 1, column: 1 });
    assert_eq!(Pos::start().past('\n'), Pos { line: 2, column: 1 });
    assert_eq!(Pos::start().past('x'), Pos { line: 1, column: 2 });
}

#[test]
fn descriptions_may_be_block_strings() {
    let doc = parse_schema("\"\"\"The root\"\"\"\nschema { query: Q }").unwrap_err();
    assert_eq!(doc.0.position, Pos { line: 2, column: 1 });
    let doc = parse_schema("\"\"\"A \\\"\"\" date\"\"\"\nscalar Date").unwrap();
    assert_eq!(doc.definitions.len(), 1);
    let mut tokens = TokenStream::new("\"\"\"how many\"\"\" first: Int = 0x");
    let read = input_value(&mut tokens);
    assert_eq!(tokens.fault, Some("unsupported number 0x".to_string()));
    assert_eq!(
        read,
        Err(ParseError {
            position: Pos { line: 1, column: 29 },
            errors: vec![
                ErrorItem::Unexpected("unsupported number 0x".to_string()),
                ErrorItem::Expected("IntValue".to_string()),
                ErrorItem::Expected("FloatValue".to_string()),
                ErrorItem::Expected("StringValue".to_string()),
                ErrorItem::Expected("BlockString".to_string()),
                ErrorItem::Expected("Name".to_string()),
                ErrorItem::Expected("[".to_string()),
                ErrorItem::Expected("{".to_string()),
            ],
        })
    );
    let mut tokens = TokenStream::new("a: Int = 1.50");
    assert_eq!(input_value(&mut tokens).unwrap().default_value, Some(Value::Float("1.50".to_string())));
}
