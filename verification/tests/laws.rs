use graphql_schema::common::Directive;
use graphql_schema::position::Pos;
use graphql_schema::schema::ast::{
    Definition, Document, Field, InputValue, InterfaceType, InterfaceTypeExtension, ObjectType,
    ObjectTypeExtension, ScalarType, ScalarTypeExtension, SchemaDefinition, TypeDefinition,
    TypeExtension, UnionType, UnionTypeExtension,
};
use graphql_schema::schema::grammar::{
    field, input_value, interface_type, object_type, parse_schema, scalar_type, schema,
    union_type,
};
use graphql_schema::tokenizer::TokenStream;

fn nowhere() -> Pos {
    Pos { line: 1, column: 1 }
}

fn unplaced_directives(list: Vec<Directive>) -> Vec<Directive> {
    list.into_iter().map(|d| Directive { position: nowhere(), ..d }).collect()
}

fn unplaced_input_value(x: InputValue) -> InputValue {
    InputValue { position: nowhere(), directives: unplaced_directives(x.directives), ..x }
}

fn unplaced_fields(list: Vec<Field>) -> Vec<Field> {
    list.into_iter()
        .map(|x| Field {
            position: nowhere(),
            arguments: x.arguments.into_iter().map(unplaced_input_value).collect(),
            directives: unplaced_directives(x.directives),
            ..x
        })
        .collect()
}

fn unplaced_definition(d: Definition) -> Definition {
    match d {
        Definition::SchemaDefinition(x) => Definition::SchemaDefinition(SchemaDefinition {
            position: nowhere(),
            directives: unplaced_directives(x.directives),
            ..x
        }),
        Definition::TypeDefinition(TypeDefinition::Scalar(x)) => {
            Definition::TypeDefinition(TypeDefinition::Scalar(ScalarType {
                position: nowhere(),
                directives: unplaced_directives(x.directives),
                ..x
            }))
        }
        Definition::TypeDefinition(TypeDefinition::Object(x)) => {
            Definition::TypeDefinition(TypeDefinition::Object(ObjectType {
                position: nowhere(),
                directives: unplaced_directives(x.directives),
                fields: unplaced_fields(x.fields),
                ..x
            }))
        }
        Definition::TypeDefinition(TypeDefinition::Interface(x)) => {
            Definition::TypeDefinition(TypeDefinition::Interface(InterfaceType {
                position: nowhere(),
                directives: unplaced_directives(x.directives),
                fields: unplaced_fields(x.fields),
                ..x
            }))
        }
        Definition::TypeDefinition(TypeDefinition::Union(x)) => {
            Definition::TypeDefinition(TypeDefinition::Union(UnionType {
                position: nowhere(),
                directives: unplaced_directives(x.directives),
                ..x
            }))
        }
        Definition::TypeDefinition(other) => panic!("read {:?}", other),
        Definition::TypeExtension(TypeExtension::Scalar(x)) => {
            Definition::TypeExtension(TypeExtension::Scalar(ScalarTypeExtension {
                position: nowhere(),
                directives: unplaced_directives(x.directives),
                ..x
            }))
        }
        Definition::TypeExtension(TypeExtension::Object(x)) => {
            Definition::TypeExtension(TypeExtension::Object(ObjectTypeExtension {
                position: nowhere(),
                directives: unplaced_directives(x.directives),
                fields: unplaced_fields(x.fields),
                ..x
            }))
        }
        Definition::TypeExtension(TypeExtension::Interface(x)) => {
            Definition::TypeExtension(TypeExtension::Interface(InterfaceTypeExtension {
                position: nowhere(),
                directives: unplaced_directives(x.directives),
                fields: unplaced_fields(x.fields),
                ..x
            }))
        }
        Definition::TypeExtension(TypeExtension::Union(x)) => {
            Definition::TypeExtension(TypeExtension::Union(UnionTypeExtension {
                position: nowhere(),
                directives: unplaced_directives(x.directives),
                ..x
            }))
        }
    }
}

fn unplaced(doc: Document) -> Document {
    Document { definitions: doc.definitions.into_iter().map(unplaced_definition).collect() }
}

const AS_FIRST_WRITTEN: &str = "# a schema
schema { @a subscription: S, query: Q }
\"\"\"
  Doc
\"\"\"
type T implements & A & B @d(x: [1, 2.5, \"s\", true, null, E, {k: $v, l: -3}]) {
  \"f\" f(a: Int = 1 @x, b: [T!]! = []): [T!]! @y
  g: U
}
interface I @i { h: Int }
union U @u = | A | B
scalar S
extend scalar S @z
extend type T implements C
extend interface I { j: Int }
extend union U = C
";

const AS_WRITTEN_AGAIN: &str = "schema { @a query: Q subscription: S } \"Doc\" type T implements A & B @d(x: [1 2.5 \"s\" true null E {k: $v l: -3}]) { \"f\" f(a: Int = 1 @x b: [T!]! = []): [T!]! @y g: U } interface I @i { h: Int } union U @u = A | B scalar S extend scalar S @z extend type T implements C extend interface I { j: Int } extend union U = C";

#[test]
fn what_is_written_again_is_read_as_it_was() {
    let first = parse_schema(AS_FIRST_WRITTEN).unwrap();
    let again = parse_schema(AS_WRITTEN_AGAIN).unwrap();
    assert_eq!(first.definitions.len(), 9);
    assert_eq!(again.definitions.len(), 9);
    assert_ne!(first, again);
    assert_eq!(unplaced(first), unplaced(again));
}

#[test]
fn a_text_is_read_the_same_every_time() {
    assert_eq!(parse_schema(AS_FIRST_WRITTEN), parse_schema(AS_FIRST_WRITTEN));
    assert_eq!(parse_schema("type T {"), parse_schema("type T {"));
}

#[test]
fn a_node_stands_where_its_first_token_stands() {
    let short = "  type T { f: Int }";
    let long = "  type T implements A @a @b { f: Int g(a: B): [C] @c } scalar X";
    let mut tokens = TokenStream::new(short);
    assert_eq!(object_type(&mut tokens).unwrap().position, Pos { line: 1, column: 3 });
    let mut tokens = TokenStream::new(long);
    assert_eq!(object_type(&mut tokens).unwrap().position, Pos { line: 1, column: 3 });

    let mut tokens = TokenStream::new("\n\n   scalar S @a");
    assert_eq!(scalar_type(&mut tokens).unwrap().position, Pos { line: 3, column: 4 });
    let mut tokens = TokenStream::new("\tinterface I");
    assert_eq!(interface_type(&mut tokens).unwrap().position, Pos { line: 1, column: 9 });
    let mut tokens = TokenStream::new(" union U = A");
    assert_eq!(union_type(&mut tokens).unwrap().position, Pos { line: 1, column: 2 });
    let mut tokens = TokenStream::new(",schema { }");
    assert_eq!(schema(&mut tokens).unwrap().position, Pos { line: 1, column: 2 });
    let mut tokens = TokenStream::new("  \"about f\"\n  f: Int");
    assert_eq!(field(&mut tokens).unwrap().position, Pos { line: 1, column: 3 });
    let mut tokens = TokenStream::new("  \"about a\"\n  a: Int = 3");
    assert_eq!(input_value(&mut tokens).unwrap().position, Pos { line: 1, column: 3 });
}

#[test]
fn a_described_type_stands_at_its_keyword() {
    let doc = parse_schema("\"about\"\n  type T\n\"more\" extend").unwrap_err();
    assert_eq!(doc.0.position, Pos { line: 3, column: 8 });
    let doc = parse_schema("\"about\"\n  type T\nextend type T @a").unwrap();
    match &doc.definitions[0] {
        Definition::TypeDefinition(TypeDefinition::Object(t)) => {
            assert_eq!(t.position, Pos { line: 2, column: 3 })
        }
        other => panic!("read {:?}", other),
    }
    match &doc.definitions[1] {
        Definition::TypeExtension(TypeExtension::Object(t)) => {
            assert_eq!(t.position, Pos { line: 3, column: 8 })
        }
        other => panic!("read {:?}", other),
    }
}

#[test]
fn as_many_definitions_as_are_written() {
    let mut text = String::new();
    for n in 1..40 {
        text.push_str("scalar S @d\n");
        let doc = parse_schema(&text).unwrap();
        assert_eq!(doc.definitions.len(), n);
    }
}

#[test]
fn nothing_is_given_unless_all_is_read() {
    assert!(parse_schema("scalar A scalar B scalar").is_err());
    assert!(parse_schema("scalar A scalar B type T { f: }").is_err());
    assert!(parse_schema("scalar A scalar B").is_ok());
}
