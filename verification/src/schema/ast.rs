//! What a schema text holds.
//!
//! Every node owns its children. Beside each type stands its model, the
//! same node as a mathematical value, which the grammar speaks of.
use vstd::prelude::*;
use crate::common::{Directive, DirectiveModel, Name, Type, TypeModel, Value, ValueModel};
use crate::position::Pos;

verus! {

/// The name of a type that is defined elsewhere.
pub type NamedType = String;

/// A schema text: its definitions in the order written.
#[derive(Debug, PartialEq)]
pub struct Document {
    pub definitions: Vec<Definition>,
}

/// A schema text as a mathematical value.
pub struct DocumentModel {
    pub definitions: Seq<DefinitionModel>,
}

/// One definition of a schema text.
#[derive(Debug, PartialEq)]
pub enum Definition {
    SchemaDefinition(SchemaDefinition),
    TypeDefinition(TypeDefinition),
    TypeExtension(TypeExtension),
}

/// A definition as a mathematical value.
pub enum DefinitionModel {
    SchemaDefinition(SchemaDefinitionModel),
    TypeDefinition(TypeDefinitionModel),
    TypeExtension(TypeExtensionModel),
}

/// A `schema` block: the type bound to each kind of operation, if one is.
#[derive(Debug, PartialEq)]
pub struct SchemaDefinition {
    pub position: Pos,
    pub directives: Vec<Directive>,
    pub query: Option<NamedType>,
    pub mutation: Option<NamedType>,
    pub subscription: Option<NamedType>,
}

/// A `schema` block as a mathematical value.
pub struct SchemaDefinitionModel {
    pub position: Pos,
    pub directives: Seq<DirectiveModel>,
    pub query: Option<Seq<char>>,
    pub mutation: Option<Seq<char>>,
    pub subscription: Option<Seq<char>>,
}

/// The definition of a type. The grammar of this crate reads scalars,
/// objects, interfaces and unions; enums and input objects have their place
/// here for the rules that read them.
#[derive(Debug, PartialEq)]
pub enum TypeDefinition {
    Scalar(ScalarType),
    Object(ObjectType),
    Interface(InterfaceType),
    Union(UnionType),
    Enum(EnumType),
    InputObject(InputObjectType),
}

/// The definition of a type as a mathematical value.
pub enum TypeDefinitionModel {
    Scalar(ScalarTypeModel),
    Object(ObjectTypeModel),
    Interface(InterfaceTypeModel),
    Union(UnionTypeModel),
    Enum(EnumTypeModel),
    InputObject(InputObjectTypeModel),
}

/// The extension of a type that is defined elsewhere.
#[derive(Debug, PartialEq)]
pub enum TypeExtension {
    Scalar(ScalarTypeExtension),
    Object(ObjectTypeExtension),
    Interface(InterfaceTypeExtension),
    Union(UnionTypeExtension),
}

/// The extension of a type as a mathematical value.
pub enum TypeExtensionModel {
    Scalar(ScalarTypeExtensionModel),
    Object(ObjectTypeExtensionModel),
    Interface(InterfaceTypeExtensionModel),
    Union(UnionTypeExtensionModel),
}

/// A scalar type.
#[derive(Debug, PartialEq)]
pub struct ScalarType {
    pub position: Pos,
    pub description: Option<String>,
    pub name: Name,
    pub directives: Vec<Directive>,
}

/// A scalar type as a mathematical value.
pub struct ScalarTypeModel {
    pub position: Pos,
    pub description: Option<Seq<char>>,
    pub name: Seq<char>,
    pub directives: Seq<DirectiveModel>,
}

/// An extension of a scalar type. It holds at least one directive.
#[derive(Debug, PartialEq)]
pub struct ScalarTypeExtension {
    pub position: Pos,
    pub name: Name,
    pub directives: Vec<Directive>,
}

/// The extension of a scalar type as a mathematical value.
pub struct ScalarTypeExtensionModel {
    pub position: Pos,
    pub name: Seq<char>,
    pub directives: Seq<DirectiveModel>,
}

/// An object type: the interfaces it implements and its fields.
#[derive(Debug, PartialEq)]
pub struct ObjectType {
    pub position: Pos,
    pub description: Option<String>,
    pub name: Name,
    pub implements_interfaces: Vec<NamedType>,
    pub directives: Vec<Directive>,
    pub fields: Vec<Field>,
}

/// An object type as a mathematical value.
pub struct ObjectTypeModel {
    pub position: Pos,
    pub description: Option<Seq<char>>,
    pub name: Seq<char>,
    pub implements_interfaces: Seq<Seq<char>>,
    pub directives: Seq<DirectiveModel>,
    pub fields: Seq<FieldModel>,
}

/// An extension of an object type. It holds at least one interface,
/// directive or field.
#[derive(Debug, PartialEq)]
pub struct ObjectTypeExtension {
    pub position: Pos,
    pub name: Name,
    pub implements_interfaces: Vec<NamedType>,
    pub directives: Vec<Directive>,
    pub fields: Vec<Field>,
}

/// The extension of an object type as a mathematical value.
pub struct ObjectTypeExtensionModel {
    pub position: Pos,
    pub name: Seq<char>,
    pub implements_interfaces: Seq<Seq<char>>,
    pub directives: Seq<DirectiveModel>,
    pub fields: Seq<FieldModel>,
}

/// A field of an object or an interface. Its place is that of its
/// description, or of its name where it has none.
#[derive(Debug, PartialEq)]
pub struct Field {
    pub position: Pos,
    pub description: Option<String>,
    pub name: Name,
    pub arguments: Vec<InputValue>,
    pub field_type: Type,
    pub directives: Vec<Directive>,
}

/// A field as a mathematical value.
pub struct FieldModel {
    pub position: Pos,
    pub description: Option<Seq<char>>,
    pub name: Seq<char>,
    pub arguments: Seq<InputValueModel>,
    pub field_type: TypeModel,
    pub directives: Seq<DirectiveModel>,
}

/// An argument of a field, or a field of an input object. Its place is
/// that of its description, or of its name where it has none.
#[derive(Debug, PartialEq)]
pub struct InputValue {
    pub position: Pos,
    pub description: Option<String>,
    pub name: Name,
    pub value_type: Type,
    pub default_value: Option<Value>,
    pub directives: Vec<Directive>,
}

/// An input value as a mathematical value.
pub struct InputValueModel {
    pub position: Pos,
    pub description: Option<Seq<char>>,
    pub name: Seq<char>,
    pub value_type: TypeModel,
    pub default_value: Option<ValueModel>,
    pub directives: Seq<DirectiveModel>,
}

/// An interface type and its fields.
#[derive(Debug, PartialEq)]
pub struct InterfaceType {
    pub position: Pos,
    pub description: Option<String>,
    pub name: Name,
    pub directives: Vec<Directive>,
    pub fields: Vec<Field>,
}

/// An interface type as a mathematical value.
pub struct InterfaceTypeModel {
    pub position: Pos,
    pub description: Option<Seq<char>>,
    pub name: Seq<char>,
    pub directives: Seq<DirectiveModel>,
    pub fields: Seq<FieldModel>,
}

/// An extension of an interface type. It holds at least one directive or
/// field.
#[derive(Debug, PartialEq)]
pub struct InterfaceTypeExtension {
    pub position: Pos,
    pub name: Name,
    pub directives: Vec<Directive>,
    pub fields: Vec<Field>,
}

/// The extension of an interface type as a mathematical value.
pub struct InterfaceTypeExtensionModel {
    pub position: Pos,
    pub name: Seq<char>,
    pub directives: Seq<DirectiveModel>,
    pub fields: Seq<FieldModel>,
}

/// A union type and the types it may be. A union may be written without
/// any.
#[derive(Debug, PartialEq)]
pub struct UnionType {
    pub position: Pos,
    pub description: Option<String>,
    pub name: Name,
    pub directives: Vec<Directive>,
    pub types: Vec<NamedType>,
}

/// A union type as a mathematical value.
pub struct UnionTypeModel {
    pub position: Pos,
    pub description: Option<Seq<char>>,
    pub name: Seq<char>,
    pub directives: Seq<DirectiveModel>,
    pub types: Seq<Seq<char>>,
}

/// An extension of a union type. It holds at least one directive or
/// member type.
#[derive(Debug, PartialEq)]
pub struct UnionTypeExtension {
    pub position: Pos,
    pub name: Name,
    pub directives: Vec<Directive>,
    pub types: Vec<NamedType>,
}

/// The extension of a union type as a mathematical value.
pub struct UnionTypeExtensionModel {
    pub position: Pos,
    pub name: Seq<char>,
    pub directives: Seq<DirectiveModel>,
    pub types: Seq<Seq<char>>,
}

/// An enum type and its values.
#[derive(Debug, PartialEq)]
pub struct EnumType {
    pub position: Pos,
    pub description: Option<String>,
    pub name: Name,
    pub directives: Vec<Directive>,
    pub values: Vec<EnumValue>,
}

/// An enum type as a mathematical value.
pub struct EnumTypeModel {
    pub position: Pos,
    pub description: Option<Seq<char>>,
    pub name: Seq<char>,
    pub directives: Seq<DirectiveModel>,
    pub values: Seq<EnumValueModel>,
}

/// One value of an enum type.
#[derive(Debug, PartialEq)]
pub struct EnumValue {
    pub position: Pos,
    pub description: Option<String>,
    pub name: Name,
    pub directives: Vec<Directive>,
}

/// A value of an enum type as a mathematical value.
pub struct EnumValueModel {
    pub position: Pos,
    pub description: Option<Seq<char>>,
    pub name: Seq<char>,
    pub directives: Seq<DirectiveModel>,
}

/// An input object type and its fields.
#[derive(Debug, PartialEq)]
pub struct InputObjectType {
    pub position: Pos,
    pub description: Option<String>,
    pub name: Name,
    pub directives: Vec<Directive>,
    pub fields: Vec<InputValue>,
}

/// An input object type as a mathematical value.
pub struct InputObjectTypeModel {
    pub position: Pos,
    pub description: Option<Seq<char>>,
    pub name: Seq<char>,
    pub directives: Seq<DirectiveModel>,
    pub fields: Seq<InputValueModel>,
}

impl DeepView for Document {
    type V = DocumentModel;

    open spec fn deep_view(&self) -> DocumentModel {
        DocumentModel { definitions: self.definitions.deep_view() }
    }
}

impl DeepView for Definition {
    type V = DefinitionModel;

    open spec fn deep_view(&self) -> DefinitionModel {
        match self {
            Definition::SchemaDefinition(d) => DefinitionModel::SchemaDefinition(d.deep_view()),
            Definition::TypeDefinition(d) => DefinitionModel::TypeDefinition(d.deep_view()),
            Definition::TypeExtension(d) => DefinitionModel::TypeExtension(d.deep_view()),
        }
    }
}

impl DeepView for SchemaDefinition {
    type V = SchemaDefinitionModel;

    open spec fn deep_view(&self) -> SchemaDefinitionModel {
        SchemaDefinitionModel {
            position: self.position,
            directives: self.directives.deep_view(),
            query: self.query.deep_view(),
            mutation: self.mutation.deep_view(),
            subscription: self.subscription.deep_view(),
        }
    }
}

impl DeepView for TypeDefinition {
    type V = TypeDefinitionModel;

    open spec fn deep_view(&self) -> TypeDefinitionModel {
        match self {
            TypeDefinition::Scalar(t) => TypeDefinitionModel::Scalar(t.deep_view()),
            TypeDefinition::Object(t) => TypeDefinitionModel::Object(t.deep_view()),
            TypeDefinition::Interface(t) => TypeDefinitionModel::Interface(t.deep_view()),
            TypeDefinition::Union(t) => TypeDefinitionModel::Union(t.deep_view()),
            TypeDefinition::Enum(t) => TypeDefinitionModel::Enum(t.deep_view()),
            TypeDefinition::InputObject(t) => TypeDefinitionModel::InputObject(t.deep_view()),
        }
    }
}

impl DeepView for TypeExtension {
    type V = TypeExtensionModel;

    open spec fn deep_view(&self) -> TypeExtensionModel {
        match self {
            TypeExtension::Scalar(t) => TypeExtensionModel::Scalar(t.deep_view()),
            TypeExtension::Object(t) => TypeExtensionModel::Object(t.deep_view()),
            TypeExtension::Interface(t) => TypeExtensionModel::Interface(t.deep_view()),
            TypeExtension::Union(t) => TypeExtensionModel::Union(t.deep_view()),
        }
    }
}

impl DeepView for ScalarType {
    type V = ScalarTypeModel;

    open spec fn deep_view(&self) -> ScalarTypeModel {
        ScalarTypeModel {
            position: self.position,
            description: self.description.deep_view(),
            name: self.name@,
            directives: self.directives.deep_view(),
        }
    }
}

impl DeepView for ScalarTypeExtension {
    type V = ScalarTypeExtensionModel;

    open spec fn deep_view(&self) -> ScalarTypeExtensionModel {
        ScalarTypeExtensionModel {
            position: self.position,
            name: self.name@,
            directives: self.directives.deep_view(),
        }
    }
}

impl DeepView for ObjectType {
    type V = ObjectTypeModel;

    open spec fn deep_view(&self) -> ObjectTypeModel {
        ObjectTypeModel {
            position: self.position,
            description: self.description.deep_view(),
            name: self.name@,
            implements_interfaces: self.implements_interfaces.deep_view(),
            directives: self.directives.deep_view(),
            fields: self.fields.deep_view(),
        }
    }
}

impl DeepView for ObjectTypeExtension {
    type V = ObjectTypeExtensionModel;

    open spec fn deep_view(&self) -> ObjectTypeExtensionModel {
        ObjectTypeExtensionModel {
            position: self.position,
            name: self.name@,
            implements_interfaces: self.implements_interfaces.deep_view(),
            directives: self.directives.deep_view(),
            fields: self.fields.deep_view(),
        }
    }
}

impl DeepView for Field {
    type V = FieldModel;

    open spec fn deep_view(&self) -> FieldModel {
        FieldModel {
            position: self.position,
            description: self.description.deep_view(),
            name: self.name@,
            arguments: self.arguments.deep_view(),
            field_type: self.field_type.deep_view(),
            directives: self.directives.deep_view(),
        }
    }
}

impl DeepView for InputValue {
    type V = InputValueModel;

    open spec fn deep_view(&self) -> InputValueModel {
        InputValueModel {
            position: self.position,
            description: self.description.deep_view(),
            name: self.name@,
            value_type: self.value_type.deep_view(),
            default_value: self.default_value.deep_view(),
            directives: self.directives.deep_view(),
        }
    }
}

impl DeepView for InterfaceType {
    type V = InterfaceTypeModel;

    open spec fn deep_view(&self) -> InterfaceTypeModel {
        InterfaceTypeModel {
            position: self.position,
            description: self.description.deep_view(),
            name: self.name@,
            directives: self.directives.deep_view(),
            fields: self.fields.deep_view(),
        }
    }
}

impl DeepView for InterfaceTypeExtension {
    type V = InterfaceTypeExtensionModel;

    open spec fn deep_view(&self) -> InterfaceTypeExtensionModel {
        InterfaceTypeExtensionModel {
            position: self.position,
            name: self.name@,
            directives: self.directives.deep_view(),
            fields: self.fields.deep_view(),
        }
    }
}

impl DeepView for UnionType {
    type V = UnionTypeModel;

    open spec fn deep_view(&self) -> UnionTypeModel {
        UnionTypeModel {
            position: self.position,
            description: self.description.deep_view(),
            name: self.name@,
            directives: self.directives.deep_view(),
            types: self.types.deep_view(),
        }
    }
}

impl DeepView for UnionTypeExtension {
    type V = UnionTypeExtensionModel;

    open spec fn deep_view(&self) -> UnionTypeExtensionModel {
        UnionTypeExtensionModel {
            position: self.position,
            name: self.name@,
            directives: self.directives.deep_view(),
            types: self.types.deep_view(),
        }
    }
}

impl DeepView for EnumType {
    type V = EnumTypeModel;

    open spec fn deep_view(&self) -> EnumTypeModel {
        EnumTypeModel {
            position: self.position,
            description: self.description.deep_view(),
            name: self.name@,
            directives: self.directives.deep_view(),
            values: self.values.deep_view(),
        }
    }
}

impl DeepView for EnumValue {
    type V = EnumValueModel;

    open spec fn deep_view(&self) -> EnumValueModel {
        EnumValueModel {
            position: self.position,
            description: self.description.deep_view(),
            name: self.name@,
            directives: self.directives.deep_view(),
        }
    }
}

impl DeepView for InputObjectType {
    type V = InputObjectTypeModel;

    open spec fn deep_view(&self) -> InputObjectTypeModel {
        InputObjectTypeModel {
            position: self.position,
            description: self.description.deep_view(),
            name: self.name@,
            directives: self.directives.deep_view(),
            fields: self.fields.deep_view(),
        }
    }
}

/// The type definition `def` with `description` as its description,
/// whatever kind of type it defines.
pub open spec fn described(def: TypeDefinitionModel, description: Option<Seq<char>>)
    -> TypeDefinitionModel {
    match def {
        TypeDefinitionModel::Scalar(t) => TypeDefinitionModel::Scalar(
            ScalarTypeModel { description, ..t },
        ),
        TypeDefinitionModel::Object(t) => TypeDefinitionModel::Object(
            ObjectTypeModel { description, ..t },
        ),
        TypeDefinitionModel::Interface(t) => TypeDefinitionModel::Interface(
            InterfaceTypeModel { description, ..t },
        ),
        TypeDefinitionModel::Union(t) => TypeDefinitionModel::Union(
            UnionTypeModel { description, ..t },
        ),
        TypeDefinitionModel::Enum(t) => TypeDefinitionModel::Enum(
            EnumTypeModel { description, ..t },
        ),
        TypeDefinitionModel::InputObject(t) => TypeDefinitionModel::InputObject(
            InputObjectTypeModel { description, ..t },
        ),
    }
}

impl TypeDefinition {
    /// Gives the definition `description` as its description, whatever
    /// kind of type it defines, and changes nothing else.
    pub fn set_description(&mut self, description: Option<String>)
        ensures
            final(self).deep_view() == described(old(self).deep_view(), description.deep_view()),
    {
        match self {
            TypeDefinition::Scalar(t) => {
                t.description = description;
            },
            TypeDefinition::Object(t) => {
                t.description = description;
            },
            TypeDefinition::Interface(t) => {
                t.description = description;
            },
            TypeDefinition::Union(t) => {
                t.description = description;
            },
            TypeDefinition::Enum(t) => {
                t.description = description;
            },
            TypeDefinition::InputObject(t) => {
                t.description = description;
            },
        }
    }
}

} // verus!
