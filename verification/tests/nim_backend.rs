use jtd_targets::ir::EnumMember;
use jtd_targets::ir::Expr;
use jtd_targets::ir::Field;
use jtd_targets::ir::FilePartitioningStrategy;
use jtd_targets::ir::Item;
use jtd_targets::ir::Metadata;
use jtd_targets::nim::FileState;
use jtd_targets::nim::Target;

fn target() -> Target {
    Target::new("out".to_string())
}

fn field(name: &str, json_name: &str, type_: &str, optional: bool) -> Field {
    Field {
        metadata: Metadata,
        name: name.to_string(),
        json_name: json_name.to_string(),
        optional,
        type_: type_.to_string(),
    }
}

#[test]
fn strategy_names_single_nim_file() {
    let t = target();
    let s = t.strategy();
    match s.file_partitioning {
        FilePartitioningStrategy::SingleFile(f) => assert_eq!(f, "out.nim"),
        _ => panic!("expected a single output file"),
    }
    assert!(!s.strings_are_nullable);
    assert!(!s.discriminators_are_nullable);
}

#[test]
fn expr_renders_every_variant() {
    let t = target();
    let mut st = FileState::default();
    let cases: Vec<(Expr, &str)> = vec![
        (Expr::Empty, "JsonNode"),
        (Expr::Boolean, "bool"),
        (Expr::Int8, "int8"),
        (Expr::Uint8, "uint8"),
        (Expr::Int16, "int16"),
        (Expr::Uint16, "uint16"),
        (Expr::Int32, "int32"),
        (Expr::Uint32, "uint32"),
        (Expr::Float32, "float32"),
        (Expr::Float64, "float64"),
        (Expr::String, "string"),
        (Expr::Timestamp, "uint64"),
        (Expr::ArrayOf("int32".to_string()), "seq[int32]"),
        (Expr::DictOf("int32".to_string()), "Table[string, int32]"),
        (Expr::NullableOf("int32".to_string()), "Option[int32]"),
    ];
    for (e, expected) in cases {
        let rendered = t.expr(&mut st, Metadata, e);
        assert!(!rendered.is_empty());
        assert_eq!(rendered, expected);
    }
}

fn preamble_text(t: &Target, st: &mut FileState) -> String {
    let mut out = String::new();
    let exported = t.item(&mut out, st, Item::Preamble);
    assert!(exported.is_none());
    out
}

#[test]
fn preamble_lists_accumulated_imports() {
    let t = target();
    let mut st = FileState::default();
    t.expr(&mut st, Metadata, Expr::DictOf("int32".to_string()));
    let out = preamble_text(&t, &mut st);
    assert_eq!(
        out,
        "# Code generated by jtd-codegen for Nim v0.1.0\n\nfrom tables import Table\n\n"
    );
}

#[test]
fn import_registration_is_idempotent() {
    let t = target();
    let mut once = FileState::default();
    t.expr(&mut once, Metadata, Expr::DictOf("int32".to_string()));
    let mut twice = FileState::default();
    t.expr(&mut twice, Metadata, Expr::DictOf("int32".to_string()));
    t.expr(&mut twice, Metadata, Expr::DictOf("int32".to_string()));
    t.expr(&mut twice, Metadata, Expr::Empty);
    t.expr(&mut twice, Metadata, Expr::Empty);
    let a = preamble_text(&t, &mut once);
    let mut only_empty = FileState::default();
    t.expr(&mut only_empty, Metadata, Expr::Empty);
    let b = preamble_text(&t, &mut only_empty);
    let c = preamble_text(&t, &mut twice);
    assert_eq!(
        a,
        "# Code generated by jtd-codegen for Nim v0.1.0\n\nfrom tables import Table\n\n"
    );
    assert_eq!(
        b,
        "# Code generated by jtd-codegen for Nim v0.1.0\n\nfrom json import JsonNode\n\n"
    );
    // Rendering each expression twice adds nothing new; modules sort by name.
    assert_eq!(
        c,
        "# Code generated by jtd-codegen for Nim v0.1.0\n\nfrom json import JsonNode\nfrom tables import Table\n\n"
    );
}

#[test]
fn struct_emission_round_trip() {
    let t = target();
    let mut st = FileState::default();
    let id_type = t.expr(&mut st, Metadata, Expr::Int32);
    let name_type = t.expr(&mut st, Metadata, Expr::String);
    let item = Item::Struct {
        metadata: Metadata,
        name: "Item".to_string(),
        has_additional: false,
        fields: vec![
            field("id", "id", &id_type, false),
            field("user_name", "userName", &name_type, true),
        ],
    };
    let mut out = String::new();
    let exported = t.item(&mut out, &mut st, item);
    assert!(exported.is_none());
    assert_eq!(out, "\ntype Item* = object\n    id*: int32\n    user_name*: string\n");
    // Scalar types register no imports.
    let preamble = preamble_text(&t, &mut st);
    assert_eq!(preamble, "# Code generated by jtd-codegen for Nim v0.1.0\n\n\n");
}

#[test]
fn alias_and_postamble_render() {
    let t = target();
    let mut st = FileState::default();
    let mut out = String::new();
    t.item(
        &mut out,
        &mut st,
        Item::Alias { metadata: Metadata, name: "Id".to_string(), type_: "int32".to_string() },
    );
    t.item(&mut out, &mut st, Item::Postamble);
    assert_eq!(out, "\ntype Id* = int32\n\n");
}

#[test]
fn enum_members_carry_quoted_json_values() {
    let t = target();
    let mut st = FileState::default();
    let item = Item::Enum {
        metadata: Metadata,
        name: "Color".to_string(),
        members: vec![
            EnumMember { name: "RED".to_string(), json_value: "red".to_string() },
            EnumMember { name: "ODD".to_string(), json_value: "a\"b\\c".to_string() },
        ],
    };
    let mut out = String::new();
    t.item(&mut out, &mut st, item);
    assert_eq!(
        out,
        "\ntype Color* {.pure.} = enum\n    RED = \"red\"\n    ODD = \"a\\\"b\\\\c\"\n"
    );
}

#[test]
fn referenced_declaration_precedes_referencing_one() {
    // The driver delivers referenced types first; emission appends, so the
    // referenced declaration's text stands strictly before the referencer's.
    let t = target();
    let mut st = FileState::default();
    let mut out = String::new();
    t.item(
        &mut out,
        &mut st,
        Item::Alias { metadata: Metadata, name: "Id".to_string(), type_: "int32".to_string() },
    );
    let referencing = Item::Struct {
        metadata: Metadata,
        name: "Holder".to_string(),
        has_additional: false,
        fields: vec![field("id", "id", "Id", false)],
    };
    t.item(&mut out, &mut st, referencing);
    let declared = out.find("type Id* = int32").expect("declaration missing");
    let used = out.find("id*: Id").expect("reference missing");
    assert!(declared < used);
}

#[test]
fn auxiliary_and_discriminators_are_quiet() {
    let t = target();
    let mut st = FileState::default();
    let mut out = String::new();
    t.item(&mut out, &mut st, Item::Auxiliary { path: "extra".to_string() });
    assert_eq!(out, "");
    t.item(
        &mut out,
        &mut st,
        Item::Discriminator {
            metadata: Metadata,
            name: "D".to_string(),
            tag_field_name: "kind".to_string(),
            tag_json_name: "kind".to_string(),
            variants: vec!["A".to_string()],
        },
    );
    t.item(
        &mut out,
        &mut st,
        Item::DiscriminatorVariant {
            metadata: Metadata,
            name: "A".to_string(),
            parent_name: "D".to_string(),
            tag_field_name: "kind".to_string(),
            tag_json_name: "kind".to_string(),
            tag_value: "a".to_string(),
            fields: vec![],
        },
    );
    assert_eq!(out, "\n\n");
}
