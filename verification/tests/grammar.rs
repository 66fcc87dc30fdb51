use graphql_schema::common::{Directive, Number, Type, Value};
use graphql_schema::error::{ErrorItem, ParseError};
use graphql_schema::position::Pos;
use graphql_schema::schema::ast::{
    Definition, Document, EnumType, EnumValue, Field, InputObjectType, InputValue, InterfaceType,
    ObjectType, ObjectTypeExtension, ScalarType, ScalarTypeExtension, SchemaDefinition,
    TypeDefinition, TypeExtension, UnionType, UnionTypeExtension,
};
use graphql_schema::schema::error::SchemaParseError;
use graphql_schema::schema::grammar::{
    definition, field, fields, implements_interfaces, input_value, object_type, parse_schema,
    scalar_type, schema, type_definition, type_extension, union_members, union_type,
};
use graphql_schema::tokenizer::{Kind, TokenStream};

fn ast(s: &str) -> Document {
    parse_schema(s).unwrap()
}

fn failure(s: &str) -> ParseError {
    match parse_schema(s) {
        Ok(doc) => panic!("read {:?}", doc),
        Err(SchemaParseError(error)) => error,
    }
}

fn expected(text: &str) -> ErrorItem {
    ErrorItem::Expected(text.to_string())
}

fn name_token(text: &str) -> ErrorItem {
    ErrorItem::UnexpectedToken { kind: Kind::Name, value: text.to_string() }
}

fn punctuator(text: &str) -> ErrorItem {
    ErrorItem::UnexpectedToken { kind: Kind::Punctuator, value: text.to_string() }
}

fn named(text: &str) -> Type {
    Type::NamedType(text.to_string())
}

#[test]
fn one_field() {
    assert_eq!(
        ast("schema { query: Query }"),
        Document {
            definitions: vec![Definition::SchemaDefinition(SchemaDefinition {
                position: Pos { line: 1, column: 1 },
                directives: vec![],
                query: Some("Query".into()),
                mutation: None,
                subscription: None
            })],
        }
    );
}

#[test]
fn schema_binds_all_three_operations() {
    assert_eq!(
        ast("schema {\n  query: Q\n  mutation: M\n  subscription: S\n}"),
        Document {
            definitions: vec![Definition::SchemaDefinition(SchemaDefinition {
                position: Pos { line: 1, column: 1 },
                directives: vec![],
                query: Some("Q".into()),
                mutation: Some("M".into()),
                subscription: Some("S".into()),
            })],
        }
    );
}

#[test]
fn empty_schema_block_binds_nothing() {
    assert_eq!(
        ast("schema {}"),
        Document {
            definitions: vec![Definition::SchemaDefinition(SchemaDefinition {
                position: Pos { line: 1, column: 1 },
                directives: vec![],
                query: None,
                mutation: None,
                subscription: None,
            })],
        }
    );
}

#[test]
fn directives_of_a_schema_block_stand_inside_its_braces() {
    let mut tokens = TokenStream::new("schema { @d query: Q }");
    let read = schema(&mut tokens).unwrap();
    assert_eq!(
        read,
        SchemaDefinition {
            position: Pos { line: 1, column: 1 },
            directives: vec![Directive {
                position: Pos { line: 1, column: 10 },
                name: "d".into(),
                arguments: vec![],
            }],
            query: Some("Q".into()),
            mutation: None,
            subscription: None,
        }
    );
    assert_eq!(tokens.cursor, tokens.tokens.len());
    let doc = ast("schema { @a(x: 1) @b mutation: M }");
    match &doc.definitions[0] {
        Definition::SchemaDefinition(x) => {
            assert_eq!(x.directives.len(), 2);
            assert_eq!(x.mutation, Some("M".to_string()));
            assert_eq!(x.query, None);
        }
        other => panic!("read {:?}", other),
    }
    let error = failure("schema @d { query: Q }");
    assert_eq!(
        error,
        ParseError { position: Pos { line: 1, column: 8 }, errors: vec![punctuator("@"), expected("{")] }
    );
    let error = failure("schema { query: Q @d }");
    assert_eq!(
        error,
        ParseError { position: Pos { line: 1, column: 19 }, errors: vec![punctuator("@"), expected("}")] }
    );
}

#[test]
fn a_schema_block_binds_in_any_order() {
    assert_eq!(
        ast("schema { subscription: S, query: Q }"),
        Document {
            definitions: vec![Definition::SchemaDefinition(SchemaDefinition {
                position: Pos { line: 1, column: 1 },
                directives: vec![],
                query: Some("Q".into()),
                mutation: None,
                subscription: Some("S".into()),
            })],
        }
    );
}

#[test]
fn duplicate_query_is_refused() {
    let error = failure("schema { query: A query: B }");
    assert_eq!(
        error,
        ParseError {
            position: Pos { line: 1, column: 1 },
            errors: vec![ErrorItem::Unexpected("duplicate `query` operation".to_string())],
        }
    );
}

#[test]
fn every_duplicate_is_reported_once() {
    let error = failure(
        "  schema { query: A mutation: B query: C subscription: D mutation: E query: F subscription: G }",
    );
    assert_eq!(
        error,
        ParseError {
            position: Pos { line: 1, column: 3 },
            errors: vec![
                ErrorItem::Unexpected("duplicate `query` operation".to_string()),
                ErrorItem::Unexpected("duplicate `mutation` operation".to_string()),
                ErrorItem::Unexpected("duplicate `subscription` operation".to_string()),
            ],
        }
    );
}

#[test]
fn unknown_operation_lists_the_three_that_exist() {
    let error = failure("schema { query: A fetch: B store: C }");
    assert_eq!(
        error,
        ParseError {
            position: Pos { line: 1, column: 1 },
            errors: vec![
                name_token("fetch"),
                expected("query"),
                expected("mutation"),
                expected("subscription"),
                name_token("store"),
            ],
        }
    );
}

#[test]
fn syntax_comes_before_duplicates() {
    let error = failure("schema { query: A query: B mutation }");
    assert_eq!(
        error,
        ParseError {
            position: Pos { line: 1, column: 37 },
            errors: vec![punctuator("}"), expected(":")],
        }
    );
}

#[test]
fn scalar_extension_needs_a_directive() {
    let error = failure("extend scalar Foo");
    assert_eq!(
        error,
        ParseError {
            position: Pos { line: 1, column: 8 },
            errors: vec![expected("Scalar type extension should contain at least one directive.")],
        }
    );
    assert_eq!(
        ast("extend scalar Foo @bar"),
        Document {
            definitions: vec![Definition::TypeExtension(TypeExtension::Scalar(
                ScalarTypeExtension {
                    position: Pos { line: 1, column: 8 },
                    name: "Foo".into(),
                    directives: vec![Directive {
                        position: Pos { line: 1, column: 19 },
                        name: "bar".into(),
                        arguments: vec![],
                    }],
                }
            ))],
        }
    );
}

#[test]
fn object_extension_needs_something() {
    let error = failure("extend type Foo");
    assert_eq!(
        error,
        ParseError {
            position: Pos { line: 1, column: 8 },
            errors: vec![expected(
                "Object type extension should contain at least one interface, directive or field."
            )],
        }
    );
    assert_eq!(
        ast("extend type Foo { bar: Int }"),
        Document {
            definitions: vec![Definition::TypeExtension(TypeExtension::Object(
                ObjectTypeExtension {
                    position: Pos { line: 1, column: 8 },
                    name: "Foo".into(),
                    implements_interfaces: vec![],
                    directives: vec![],
                    fields: vec![Field {
                        position: Pos { line: 1, column: 19 },
                        description: None,
                        name: "bar".into(),
                        arguments: vec![],
                        field_type: named("Int"),
                        directives: vec![],
                    }],
                }
            ))],
        }
    );
    assert!(parse_schema("extend type Foo implements Bar").is_ok());
    assert!(parse_schema("extend type Foo @baz").is_ok());
}

#[test]
fn interface_extension_needs_something() {
    let error = failure("extend interface Foo");
    assert_eq!(
        error,
        ParseError {
            position: Pos { line: 1, column: 8 },
            errors: vec![expected(
                "Interface type extension should contain at least one directive or field."
            )],
        }
    );
    assert!(parse_schema("extend interface Foo @a").is_ok());
    assert!(parse_schema("extend interface Foo { a: B }").is_ok());
}

#[test]
fn union_extension_needs_something() {
    let error = failure("extend union Foo");
    assert_eq!(
        error,
        ParseError {
            position: Pos { line: 1, column: 8 },
            errors: vec![expected(
                "Union type extension should contain at least one directive or type."
            )],
        }
    );
    assert_eq!(
        ast("extend union Foo = | A | B"),
        Document {
            definitions: vec![Definition::TypeExtension(TypeExtension::Union(
                UnionTypeExtension {
                    position: Pos { line: 1, column: 8 },
                    name: "Foo".into(),
                    directives: vec![],
                    types: vec!["A".into(), "B".into()],
                }
            ))],
        }
    );
    assert!(parse_schema("extend union Foo @a").is_ok());
    assert!(parse_schema("extend union Foo =").is_err());
}

#[test]
fn empty_argument_parentheses_are_refused() {
    let error = failure("type T { f(): Int }");
    assert_eq!(
        error,
        ParseError { position: Pos { line: 1, column: 12 }, errors: vec![punctuator(")"), expected("Name")] }
    );
    assert_eq!(
        ast("type T { f: Int }"),
        Document {
            definitions: vec![Definition::TypeDefinition(TypeDefinition::Object(ObjectType {
                position: Pos { line: 1, column: 1 },
                description: None,
                name: "T".into(),
                implements_interfaces: vec![],
                directives: vec![],
                fields: vec![Field {
                    position: Pos { line: 1, column: 10 },
                    description: None,
                    name: "f".into(),
                    arguments: vec![],
                    field_type: named("Int"),
                    directives: vec![],
                }],
            }))],
        }
    );
}

#[test]
fn empty_field_block_is_refused() {
    let error = failure("type T { }");
    assert_eq!(
        error,
        ParseError { position: Pos { line: 1, column: 10 }, errors: vec![punctuator("}"), expected("Name")] }
    );
}

#[test]
fn definitions_are_counted() {
    let doc = ast(
        "schema { query: Q }\nscalar Date\n\"a point\" type P implements A & B { x: Int y: Int }\ninterface A { x: Int }\nunion U = P | Q\nextend scalar Date @iso\nunion Empty",
    );
    assert_eq!(doc.definitions.len(), 7);
}

#[test]
fn description_goes_to_each_kind_of_type() {
    let doc = ast("\"s\" scalar S \"o\" type O \"i\" interface I \"u\" union U");
    assert_eq!(
        doc,
        Document {
            definitions: vec![
                Definition::TypeDefinition(TypeDefinition::Scalar(ScalarType {
                    position: Pos { line: 1, column: 5 },
                    description: Some("s".into()),
                    name: "S".into(),
                    directives: vec![],
                })),
                Definition::TypeDefinition(TypeDefinition::Object(ObjectType {
                    position: Pos { line: 1, column: 18 },
                    description: Some("o".into()),
                    name: "O".into(),
                    implements_interfaces: vec![],
                    directives: vec![],
                    fields: vec![],
                })),
                Definition::TypeDefinition(TypeDefinition::Interface(InterfaceType {
                    position: Pos { line: 1, column: 29 },
                    description: Some("i".into()),
                    name: "I".into(),
                    directives: vec![],
                    fields: vec![],
                })),
                Definition::TypeDefinition(TypeDefinition::Union(UnionType {
                    position: Pos { line: 1, column: 45 },
                    description: Some("u".into()),
                    name: "U".into(),
                    directives: vec![],
                    types: vec![],
                })),
            ],
        }
    );
}

#[test]
fn field_with_everything() {
    let mut tokens = TokenStream::new(
        "\"doc\" pick(\"which\" first: Int = 10 @a, second: [String!]! = [\"x\", \"y\"]): [Item] @deprecated(reason: \"old\")",
    );
    let read = field(&mut tokens).unwrap();
    assert_eq!(
        read,
        Field {
            position: Pos { line: 1, column: 1 },
            description: Some("doc".into()),
            name: "pick".into(),
            arguments: vec![
                InputValue {
                    position: Pos { line: 1, column: 12 },
                    description: Some("which".into()),
                    name: "first".into(),
                    value_type: named("Int"),
                    default_value: Some(Value::Int(Number(10))),
                    directives: vec![Directive {
                        position: Pos { line: 1, column: 36 },
                        name: "a".into(),
                        arguments: vec![],
                    }],
                },
                InputValue {
                    position: Pos { line: 1, column: 40 },
                    description: None,
                    name: "second".into(),
                    value_type: Type::NonNullType(Box::new(Type::ListType(Box::new(
                        Type::NonNullType(Box::new(named("String")))
                    )))),
                    default_value: Some(Value::List(vec![
                        Value::String("x".into()),
                        Value::String("y".into())
                    ])),
                    directives: vec![],
                },
            ],
            field_type: Type::ListType(Box::new(named("Item"))),
            directives: vec![Directive {
                position: Pos { line: 1, column: 81 },
                name: "deprecated".into(),
                arguments: vec![("reason".into(), Value::String("old".into()))],
            }],
        }
    );
    assert_eq!(tokens.cursor, tokens.tokens.len());
}

#[test]
fn rules_leave_the_cursor_behind_what_they_read() {
    let mut tokens = TokenStream::new("scalar A @x scalar B");
    let first = scalar_type(&mut tokens).unwrap();
    assert_eq!(first.name, "A");
    assert_eq!(tokens.cursor, 4);
    let second = scalar_type(&mut tokens).unwrap();
    assert_eq!(second.name, "B");
    assert_eq!(second.position, Pos { line: 1, column: 13 });
    assert_eq!(tokens.cursor, 6);
    let third = scalar_type(&mut tokens).unwrap_err();
    assert_eq!(
        third,
        ParseError {
            position: Pos { line: 1, column: 21 },
            errors: vec![ErrorItem::UnexpectedEnd, expected("scalar")],
        }
    );
    assert_eq!(tokens.cursor, 6);
}

#[test]
fn a_failing_rule_stops_at_the_token_that_does_not_fit() {
    let mut tokens = TokenStream::new("type T implements & { a: B }");
    let error = object_type(&mut tokens).unwrap_err();
    assert_eq!(
        error,
        ParseError { position: Pos { line: 1, column: 21 }, errors: vec![punctuator("{"), expected("Name")] }
    );
    assert_eq!(tokens.cursor, 4);
}

#[test]
fn interfaces_with_and_without_leading_ampersand() {
    let mut tokens = TokenStream::new("implements & A & B");
    assert_eq!(implements_interfaces(&mut tokens).unwrap(), vec!["A".to_string(), "B".to_string()]);
    let mut tokens = TokenStream::new("implements A");
    assert_eq!(implements_interfaces(&mut tokens).unwrap(), vec!["A".to_string()]);
    let mut tokens = TokenStream::new("@d");
    assert_eq!(implements_interfaces(&mut tokens).unwrap(), Vec::<String>::new());
    assert_eq!(tokens.cursor, 0);
}

#[test]
fn union_members_need_a_name() {
    let mut tokens = TokenStream::new("| A | B | C");
    assert_eq!(
        union_members(&mut tokens).unwrap(),
        vec!["A".to_string(), "B".to_string(), "C".to_string()]
    );
    let mut tokens = TokenStream::new("A |");
    let error = union_members(&mut tokens).unwrap_err();
    assert_eq!(
        error,
        ParseError {
            position: Pos { line: 1, column: 4 },
            errors: vec![ErrorItem::UnexpectedEnd, expected("Name")],
        }
    );
    let mut tokens = TokenStream::new("union U @a = A");
    let read = union_type(&mut tokens).unwrap();
    assert_eq!(read.types, vec!["A".to_string()]);
    assert_eq!(read.directives.len(), 1);
}

#[test]
fn fields_are_optional_but_not_empty() {
    let mut tokens = TokenStream::new("{ a: A b: B }");
    assert_eq!(fields(&mut tokens).unwrap().len(), 2);
    let mut tokens = TokenStream::new("scalar X");
    assert_eq!(fields(&mut tokens).unwrap().len(), 0);
    assert_eq!(tokens.cursor, 0);
}

#[test]
fn input_value_with_object_default() {
    let mut tokens = TokenStream::new("where: Filter = {a: 1, b: {c: true}, a: null, d: E, e: -2.5e3}");
    let read = input_value(&mut tokens).unwrap();
    assert_eq!(
        read.default_value,
        Some(Value::Object(vec![
            ("a".into(), Value::Null),
            ("b".into(), Value::Object(vec![("c".into(), Value::Boolean(true))])),
            ("d".into(), Value::Enum("E".into())),
            ("e".into(), Value::Float("-2.5e3".into())),
        ]))
    );
}

#[test]
fn default_values_hold_no_variable() {
    let mut tokens = TokenStream::new("a: Int = $x");
    let error = input_value(&mut tokens).unwrap_err();
    assert_eq!(error.position, Pos { line: 1, column: 10 });
    assert_eq!(error.errors[0], punctuator("$"));
    let mut tokens = TokenStream::new("scalar S @d(a: $x)");
    let read = scalar_type(&mut tokens).unwrap();
    assert_eq!(read.directives[0].arguments, vec![("a".to_string(), Value::Variable("x".into()))]);
}

#[test]
fn integers_must_fit() {
    let mut tokens = TokenStream::new("a: Int = -9223372036854775808");
    assert_eq!(
        input_value(&mut tokens).unwrap().default_value,
        Some(Value::Int(Number(i64::MIN)))
    );
    let mut tokens = TokenStream::new("a: Int = 9223372036854775807");
    assert_eq!(
        input_value(&mut tokens).unwrap().default_value,
        Some(Value::Int(Number(i64::MAX)))
    );
    let mut tokens = TokenStream::new("a: Int = 9223372036854775808");
    assert_eq!(
        input_value(&mut tokens).unwrap_err(),
        ParseError {
            position: Pos { line: 1, column: 10 },
            errors: vec![ErrorItem::Message("unsupported integer".to_string())],
        }
    );
}

#[test]
fn unknown_keyword_lists_every_definition() {
    let error = failure("enum E { A }");
    assert_eq!(
        error,
        ParseError {
            position: Pos { line: 1, column: 1 },
            errors: vec![
                name_token("enum"),
                expected("schema"),
                expected("scalar"),
                expected("type"),
                expected("interface"),
                expected("union"),
                expected("extend"),
            ],
        }
    );
}

#[test]
fn empty_text_is_refused() {
    let error = failure("  # nothing here\n");
    assert_eq!(error.position, Pos { line: 2, column: 1 });
    assert_eq!(error.errors[0], ErrorItem::UnexpectedEnd);
    assert_eq!(error.errors.len(), 7);
}

#[test]
fn trailing_tokens_are_refused() {
    let error = failure("scalar A }");
    assert_eq!(
        error,
        ParseError {
            position: Pos { line: 1, column: 10 },
            errors: vec![punctuator("}"), expected("end of input")],
        }
    );
}

#[test]
fn unmatched_brace_is_the_end_of_input() {
    let error = failure("type T { a: Int");
    assert_eq!(
        error,
        ParseError {
            position: Pos { line: 1, column: 16 },
            errors: vec![ErrorItem::UnexpectedEnd, expected("}")],
        }
    );
}

#[test]
fn a_character_that_begins_no_token_is_reported_where_the_rules_reach_it() {
    let error = failure("scalar A ^ scalar B");
    assert_eq!(
        error,
        ParseError {
            position: Pos { line: 1, column: 10 },
            errors: vec![
                ErrorItem::Unexpected("unexpected character ^".to_string()),
                expected("end of input")
            ],
        }
    );
    let error = failure("scalar } ^");
    assert_eq!(
        error,
        ParseError { position: Pos { line: 1, column: 8 }, errors: vec![punctuator("}"), expected("Name")] }
    );
}

#[test]
fn description_before_extend_is_refused() {
    let error = failure("\"about\" extend scalar A @b");
    assert_eq!(error.position, Pos { line: 1, column: 9 });
    assert_eq!(
        error.errors,
        vec![
            name_token("extend"),
            expected("scalar"),
            expected("type"),
            expected("interface"),
            expected("union")
        ]
    );
}

#[test]
fn a_description_can_be_given_to_every_kind_of_type() {
    let at = Pos { line: 4, column: 2 };
    let text = Some("about".to_string());
    let mut def = TypeDefinition::Scalar(ScalarType {
        position: at,
        description: None,
        name: "S".into(),
        directives: vec![],
    });
    def.set_description(text.clone());
    assert_eq!(
        def,
        TypeDefinition::Scalar(ScalarType {
            position: at,
            description: text.clone(),
            name: "S".into(),
            directives: vec![],
        })
    );
    let mut def = TypeDefinition::Object(ObjectType {
        position: at,
        description: Some("old".into()),
        name: "O".into(),
        implements_interfaces: vec!["I".into()],
        directives: vec![],
        fields: vec![],
    });
    def.set_description(None);
    assert_eq!(
        def,
        TypeDefinition::Object(ObjectType {
            position: at,
            description: None,
            name: "O".into(),
            implements_interfaces: vec!["I".into()],
            directives: vec![],
            fields: vec![],
        })
    );
    let mut def = TypeDefinition::Interface(InterfaceType {
        position: at,
        description: None,
        name: "I".into(),
        directives: vec![],
        fields: vec![],
    });
    def.set_description(text.clone());
    match &def {
        TypeDefinition::Interface(t) => assert_eq!(t.description, text),
        other => panic!("made {:?}", other),
    }
    let mut def = TypeDefinition::Union(UnionType {
        position: at,
        description: None,
        name: "U".into(),
        directives: vec![],
        types: vec![],
    });
    def.set_description(text.clone());
    match &def {
        TypeDefinition::Union(t) => assert_eq!(t.description, text),
        other => panic!("made {:?}", other),
    }
    let mut def = TypeDefinition::Enum(EnumType {
        position: at,
        description: None,
        name: "E".into(),
        directives: vec![],
        values: vec![EnumValue {
            position: at,
            description: None,
            name: "A".into(),
            directives: vec![],
        }],
    });
    def.set_description(text.clone());
    match &def {
        TypeDefinition::Enum(t) => {
            assert_eq!(t.description, text);
            assert_eq!(t.values.len(), 1);
            assert_eq!(t.values[0].description, None);
        }
        other => panic!("made {:?}", other),
    }
    let mut def = TypeDefinition::InputObject(InputObjectType {
        position: at,
        description: None,
        name: "In".into(),
        directives: vec![],
        fields: vec![],
    });
    def.set_description(text.clone());
    match &def {
        TypeDefinition::InputObject(t) => {
            assert_eq!(t.description, text);
            assert_eq!(t.position, at);
        }
        other => panic!("made {:?}", other),
    }
    assert_eq!(Number(-5).as_i64(), -5);
}

#[test]
fn each_rule_can_be_asked_alone() {
    let mut tokens = TokenStream::new("schema { @a query: Q }");
    assert_eq!(schema(&mut tokens).unwrap().directives.len(), 1);
    let mut tokens = TokenStream::new("\"d\" union U");
    match type_definition(&mut tokens).unwrap() {
        TypeDefinition::Union(u) => assert_eq!(u.description, Some("d".to_string())),
        other => panic!("read {:?}", other),
    }
    let mut tokens = TokenStream::new("extend union U = A");
    match type_extension(&mut tokens).unwrap() {
        TypeExtension::Union(u) => assert_eq!(u.types, vec!["A".to_string()]),
        other => panic!("read {:?}", other),
    }
    let mut tokens = TokenStream::new("interface I");
    match definition(&mut tokens).unwrap() {
        Definition::TypeDefinition(TypeDefinition::Interface(i)) => assert_eq!(i.name, "I"),
        other => panic!("read {:?}", other),
    }
}
