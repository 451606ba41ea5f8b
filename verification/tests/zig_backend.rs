use jtd_targets::ir::EnumMember;
use jtd_targets::ir::Expr;
use jtd_targets::ir::Field;
use jtd_targets::ir::FilePartitioningStrategy;
use jtd_targets::ir::Item;
use jtd_targets::ir::Metadata;
use jtd_targets::zig::FileState;
use jtd_targets::zig::Target;

fn target(with_optionals: bool) -> Target {
    Target::new("out".to_string(), with_optionals)
}

#[test]
fn strategy_names_single_zig_file() {
    let t = target(false);
    let s = t.strategy();
    match s.file_partitioning {
        FilePartitioningStrategy::SingleFile(f) => assert_eq!(f, "out.zig"),
        _ => panic!("expected a single output file"),
    }
}

#[test]
fn zig_expr_renders_every_variant() {
    let t = target(false);
    let mut st = FileState::default();
    let cases: Vec<(Expr, &str)> = vec![
        (Expr::Empty, "std.json.Value"),
        (Expr::Boolean, "bool"),
        (Expr::Int8, "i8"),
        (Expr::Uint8, "u8"),
        (Expr::Int16, "i16"),
        (Expr::Uint16, "u16"),
        (Expr::Int32, "i32"),
        (Expr::Uint32, "u32"),
        (Expr::Float32, "f32"),
        (Expr::Float64, "f64"),
        (Expr::String, "[]const u8"),
        (Expr::Timestamp, "u64"),
        (Expr::ArrayOf("i32".to_string()), "[]i32"),
        (Expr::DictOf("i32".to_string()), "jsonm.Map(json.Value)"),
        (Expr::NullableOf("i32".to_string()), "i32"),
    ];
    for (e, expected) in cases {
        let rendered = t.expr(&mut st, Metadata, e);
        assert!(!rendered.is_empty());
        assert_eq!(rendered, expected);
    }
}

#[test]
fn optional_toggle_wraps_nullable() {
    let t = target(true);
    let mut st = FileState::default();
    let rendered = t.expr(&mut st, Metadata, Expr::NullableOf("i32".to_string()));
    assert_eq!(rendered, "?i32");
}

fn preamble_text(t: &Target, st: &mut FileState) -> String {
    let mut out = String::new();
    let exported = t.item(&mut out, st, Item::Preamble);
    assert!(exported.is_none());
    out
}

#[test]
fn zig_import_registration_is_idempotent() {
    let t = target(false);
    let mut once = FileState::default();
    t.expr(&mut once, Metadata, Expr::Empty);
    let mut twice = FileState::default();
    t.expr(&mut twice, Metadata, Expr::Empty);
    t.expr(&mut twice, Metadata, Expr::Empty);
    let a = preamble_text(&t, &mut once);
    let b = preamble_text(&t, &mut twice);
    assert_eq!(a, b);
    assert_eq!(
        a,
        "// Code generated by jtd-codegen for Zig v0.1.0\n\nconst std = @import(\"std\");\n\n"
    );
}

#[test]
fn imports_come_out_sorted() {
    let t = target(false);
    let mut st = FileState::default();
    t.expr(&mut st, Metadata, Expr::Empty);
    t.expr(&mut st, Metadata, Expr::DictOf("i32".to_string()));
    let out = preamble_text(&t, &mut st);
    assert_eq!(
        out,
        "// Code generated by jtd-codegen for Zig v0.1.0\n\nconst jsonm = @import(\"jsonm\");\nconst std = @import(\"std\");\n\n"
    );
}

#[test]
fn struct_renders_fields() {
    let t = target(false);
    let mut st = FileState::default();
    let item = Item::Struct {
        metadata: Metadata,
        name: "S".to_string(),
        has_additional: false,
        fields: vec![Field {
            metadata: Metadata,
            name: "a".to_string(),
            json_name: "a".to_string(),
            optional: false,
            type_: "i32".to_string(),
        }],
    };
    let mut out = String::new();
    let exported = t.item(&mut out, &mut st, item);
    assert!(exported.is_none());
    assert_eq!(out, "\npub const S = struct {\n    a: i32,\n};\n");
}

#[test]
fn enum_renders_name_table_and_lookups() {
    let t = target(false);
    let mut st = FileState::default();
    let item = Item::Enum {
        metadata: Metadata,
        name: "E".to_string(),
        members: vec![
            EnumMember { name: "A".to_string(), json_value: "a".to_string() },
            EnumMember { name: "B".to_string(), json_value: "b".to_string() },
        ],
    };
    let mut out = String::new();
    t.item(&mut out, &mut st, item);
    let mut expected = String::new();
    expected.push_str("\npub const E = enum {\n");
    expected.push_str("    A,\n");
    expected.push_str("    B,\n");
    expected.push_str("\n");
    expected.push_str("    pub const NAMES = [@typeInfo(E).Enum.fields.len][:0]const u8 {\n");
    expected.push_str("        \"a\",\n");
    expected.push_str("        \"b\",\n");
    expected.push_str("    };\n");
    expected.push_str("    pub const NAME_MAP = std.ComptimeStringMap(E, .{\n");
    expected.push_str("        .{ NAMES[0], .A },\n");
    expected.push_str("        .{ NAMES[1], .B },\n");
    expected.push_str("    };\n");
    expected.push_str("\n");
    expected.push_str("    pub fn name(self: E) [:0]const u8 {\n");
    expected.push_str("        return NAMES[@enumToInt(self)];\n");
    expected.push_str("    }\n");
    expected.push_str("    pub fn fromNumber(i: u8) ?E {\n");
    expected.push_str("        return if (i < NAMES.len) @intToEnum(E, i) else null;\n");
    expected.push_str("    }\n");
    expected.push_str("    pub fn fromName(s: []const u8]) ?E {\n");
    expected.push_str("        return NAME_MAP.get(s);\n");
    expected.push_str("    }\n");
    expected.push_str("};\n");
    assert_eq!(out, expected);
}

#[test]
fn postamble_is_a_blank_line() {
    let t = target(false);
    let mut st = FileState::default();
    let mut out = String::new();
    t.item(&mut out, &mut st, Item::Postamble);
    assert_eq!(out, "\n");
}
