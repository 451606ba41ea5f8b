//! The intermediate representation a backend receives from the driver: type
//! reference expressions, top-level declarations, and the strategy record a
//! backend hands back once to steer lowering.
//!
//! Nested type references arrive already rendered: the payload of `ArrayOf`,
//! `DictOf` and `NullableOf` is the rendered text of the inner type, so
//! rendering proceeds innermost first.

use vstd::prelude::*;

verus! {

/// Opaque schema annotations attached to items and expressions.  The backends
/// here read nothing from them; they are carried through unchanged.
pub struct Metadata;

/// What sort of identifier the driver asks a name for.
pub enum NameableKind {
    Type,
    Field,
    EnumMember,
}

/// A type reference.  Composite variants hold the already-rendered inner type.
pub enum Expr {
    Empty,
    Boolean,
    Int8,
    Uint8,
    Int16,
    Uint16,
    Int32,
    Uint32,
    Float32,
    Float64,
    String,
    Timestamp,
    ArrayOf(String),
    DictOf(String),
    NullableOf(String),
}

/// One member of a generated enum: its target-legal name and the original
/// JSON value it stands for.
pub struct EnumMember {
    pub name: String,
    pub json_value: String,
}

/// One field of a generated struct or discriminator variant.
pub struct Field {
    pub metadata: Metadata,
    pub name: String,
    pub json_name: String,
    pub optional: bool,
    pub type_: String,
}

/// A top-level declaration, delivered once per output file.
pub enum Item {
    Auxiliary { path: String },
    Preamble,
    Postamble,
    Alias { metadata: Metadata, name: String, type_: String },
    Enum { metadata: Metadata, name: String, members: Vec<EnumMember> },
    Struct { metadata: Metadata, name: String, has_additional: bool, fields: Vec<Field> },
    Discriminator {
        metadata: Metadata,
        name: String,
        tag_field_name: String,
        tag_json_name: String,
        variants: Vec<String>,
    },
    DiscriminatorVariant {
        metadata: Metadata,
        name: String,
        parent_name: String,
        tag_field_name: String,
        tag_json_name: String,
        tag_value: String,
        fields: Vec<Field>,
    },
}

/// How output is split over files.
pub enum FilePartitioningStrategy {
    SingleFile(String),
    FilePerType(String),
}

/// Whether enum members are named within their enum or globally.
pub enum EnumMemberNamingStrategy {
    Modularized,
    Unmodularized,
}

/// How the driver lowers optional properties before delivery.
pub enum OptionalPropertyHandlingStrategy {
    WrapWithNullable,
    NoWrap,
}

/// The static configuration a backend returns once, before any delivery.
pub struct Strategy {
    pub file_partitioning: FilePartitioningStrategy,
    pub enum_member_naming: EnumMemberNamingStrategy,
    pub optional_property_handling: OptionalPropertyHandlingStrategy,
    pub booleans_are_nullable: bool,
    pub int8s_are_nullable: bool,
    pub uint8s_are_nullable: bool,
    pub int16s_are_nullable: bool,
    pub uint16s_are_nullable: bool,
    pub int32s_are_nullable: bool,
    pub uint32s_are_nullable: bool,
    pub float32s_are_nullable: bool,
    pub float64s_are_nullable: bool,
    pub strings_are_nullable: bool,
    pub timestamps_are_nullable: bool,
    pub arrays_are_nullable: bool,
    pub dicts_are_nullable: bool,
    pub aliases_are_nullable: bool,
    pub enums_are_nullable: bool,
    pub structs_are_nullable: bool,
    pub discriminators_are_nullable: bool,
}

} // verus!
