use jtd_targets::ir::EnumMember;
use jtd_targets::ir::Expr;
use jtd_targets::ir::Field;
use jtd_targets::ir::FilePartitioningStrategy;
use jtd_targets::ir::Item;
use jtd_targets::ir::Metadata;
use jtd_targets::proto::FileState;
use jtd_targets::proto::Target;

fn target(emit_required: bool) -> Target {
    Target::new("out".to_string(), "pkg".to_string(), emit_required)
}

fn field(name: &str, json_name: &str, type_: &str, optional: bool) -> Field {
    Field {
        metadata: Metadata,
        name: name.to_string(),
        json_name: json_name.to_string(),
        optional,
        type_: type_.to_string(),
    }
}

#[test]
fn strategy_names_single_proto_file() {
    let t = target(false);
    let s = t.strategy();
    match s.file_partitioning {
        FilePartitioningStrategy::SingleFile(f) => assert_eq!(f, "out.proto"),
        _ => panic!("expected a single output file"),
    }
}

#[test]
fn proto_expr_renders_every_variant() {
    let t = target(false);
    let mut st = FileState::default();
    let cases: Vec<(Expr, &str)> = vec![
        (Expr::Empty, "reserved"),
        (Expr::Boolean, "bool"),
        (Expr::Int8, "int8"),
        (Expr::Uint8, "uint8"),
        (Expr::Int16, "int16"),
        (Expr::Uint16, "uint16"),
        (Expr::Int32, "int32"),
        (Expr::Uint32, "uint32"),
        (Expr::Float32, "float32"),
        (Expr::Float64, "float64"),
        (Expr::String, "string"),
        (Expr::Timestamp, "uint64"),
        (Expr::ArrayOf("int32".to_string()), "repeated int32"),
        (Expr::DictOf("int32".to_string()), "map<string, int32>"),
        (Expr::NullableOf("int32".to_string()), "int32"),
    ];
    for (e, expected) in cases {
        let rendered = t.expr(&mut st, Metadata, e);
        assert!(!rendered.is_empty());
        assert_eq!(rendered, expected);
    }
}

#[test]
fn preamble_names_the_package() {
    let t = target(false);
    let mut st = FileState::default();
    let mut out = String::new();
    let exported = t.item(&mut out, &mut st, Item::Preamble);
    assert!(exported.is_none());
    assert_eq!(out, "// Code generated by jtd-codegen for proto v0.1.0\n\npackage pkg;\n\n\n");
}

#[test]
fn struct_fields_are_sorted_and_numbered() {
    let t = target(false);
    let mut st = FileState::default();
    let item = Item::Struct {
        metadata: Metadata,
        name: "M".to_string(),
        has_additional: false,
        fields: vec![
            field("b", "b", "int32", false),
            field("a", "a", "int32", false),
        ],
    };
    let mut out = String::new();
    t.item(&mut out, &mut st, item);
    assert_eq!(out, "message M {\n  optional int32 a = 1;\n  optional int32 b = 2;\n}\n\n");
}

#[test]
fn required_block_precedes_sorted_optionals() {
    let t = target(true);
    let mut st = FileState::default();
    let item = Item::Struct {
        metadata: Metadata,
        name: "M".to_string(),
        has_additional: false,
        fields: vec![
            field("z", "z", "int32", false),
            field("items", "items", "repeated int32", false),
            field("a", "a", "string", true),
        ],
    };
    let mut out = String::new();
    t.item(&mut out, &mut st, item);
    assert_eq!(
        out,
        "message M {\n  required int32 z = 1;\n  optional string a = 2;\n  repeated int32 items = 3;\n}\n\n"
    );
}

#[test]
fn differing_json_name_gets_alias_clause() {
    let t = target(false);
    let mut st = FileState::default();
    let item = Item::Struct {
        metadata: Metadata,
        name: "M".to_string(),
        has_additional: false,
        fields: vec![field("user_name", "userName", "string", true)],
    };
    let mut out = String::new();
    t.item(&mut out, &mut st, item);
    assert_eq!(
        out,
        "message M {\n  optional string user_name = 1 [ alias = \"userName\" ];\n}\n\n"
    );
}

#[test]
fn underscored_json_name_gets_alias_clause() {
    let t = target(false);
    let mut st = FileState::default();
    let item = Item::Struct {
        metadata: Metadata,
        name: "M".to_string(),
        has_additional: false,
        fields: vec![field("a_b", "a_b", "int32", false)],
    };
    let mut out = String::new();
    t.item(&mut out, &mut st, item);
    assert_eq!(out, "message M {\n  optional int32 a_b = 1 [ alias = \"a_b\" ];\n}\n\n");
}

#[test]
fn enum_with_numeric_values_keeps_them() {
    let t = target(false);
    let mut st = FileState::default();
    let item = Item::Enum {
        metadata: Metadata,
        name: "E".to_string(),
        members: vec![
            EnumMember { name: "A".to_string(), json_value: "1".to_string() },
            EnumMember { name: "B".to_string(), json_value: "7".to_string() },
        ],
    };
    let mut out = String::new();
    t.item(&mut out, &mut st, item);
    assert_eq!(out, "enum E {\n  A = 1;\n  B = 7;\n}\n\n");
}

#[test]
fn enum_with_named_values_numbers_from_one() {
    let t = target(false);
    let mut st = FileState::default();
    let item = Item::Enum {
        metadata: Metadata,
        name: "E".to_string(),
        members: vec![
            EnumMember { name: "A".to_string(), json_value: "x".to_string() },
            EnumMember { name: "B".to_string(), json_value: "y".to_string() },
        ],
    };
    let mut out = String::new();
    t.item(&mut out, &mut st, item);
    assert_eq!(out, "enum E {\n  A = 1; // \"x\"\n  B = 2; // \"y\"\n}\n\n");
}

#[test]
fn field_numbers_reach_two_digits() {
    let t = target(false);
    let mut st = FileState::default();
    let mut members = Vec::new();
    for i in 0..12 {
        members.push(EnumMember {
            name: format!("M{:02}", i),
            json_value: format!("v{}", i),
        });
    }
    let item = Item::Enum { metadata: Metadata, name: "E".to_string(), members };
    let mut out = String::new();
    t.item(&mut out, &mut st, item);
    assert!(out.contains("  M00 = 1; // \"v0\"\n"));
    assert!(out.contains("  M09 = 10; // \"v9\"\n"));
    assert!(out.contains("  M11 = 12; // \"v11\"\n"));
}

#[test]
fn alias_item_renders_as_comment() {
    let t = target(false);
    let mut st = FileState::default();
    let mut out = String::new();
    t.item(
        &mut out,
        &mut st,
        Item::Alias { metadata: Metadata, name: "Id".to_string(), type_: "int32".to_string() },
    );
    assert_eq!(out, "//alias Id = int32\n\n");
}
