use jtd_targets::inflector::Case;
use jtd_targets::inflector::CombiningInflector;
use jtd_targets::inflector::Inflector;
use jtd_targets::inflector::TailInflector;
use jtd_targets::ir::NameableKind;

fn parts(words: &[&str]) -> Vec<String> {
    words.iter().map(|w| w.to_string()).collect()
}

#[test]
fn combining_pascal_joins_all_fragments() {
    let inf = CombiningInflector::new(Case::PascalCase);
    let p = parts(&["user", "id"]);
    assert_eq!(inf.inflect(&p), "UserId");
}

#[test]
fn combining_keeps_fragment_order() {
    let inf = CombiningInflector::new(Case::PascalCase);
    let p = parts(&["id", "user"]);
    assert_eq!(inf.inflect(&p), "IdUser");
}

#[test]
fn tail_snake_uses_last_fragment_only() {
    let inf = TailInflector::new(Case::SnakeCase);
    let p = parts(&["user", "id"]);
    assert_eq!(inf.inflect(&p), "id");
}

#[test]
fn tail_screaming_snake_uses_last_fragment_only() {
    let inf = TailInflector::new(Case::ScreamingSnakeCase);
    let p = parts(&["user", "name"]);
    assert_eq!(inf.inflect(&p), "NAME");
}

#[test]
fn camel_case_transform() {
    let inf = CombiningInflector::new(Case::CamelCase);
    let p = parts(&["user", "id"]);
    assert_eq!(inf.inflect(&p), "userId");
}

#[test]
fn name_is_deterministic_nim() {
    let t = jtd_targets::nim::Target::new("f".to_string());
    let p = parts(&["user", "id"]);
    let a = t.name(NameableKind::Type, &p);
    let b = t.name(NameableKind::Type, &p);
    assert_eq!(a, b);
    let c = t.name(NameableKind::Field, &p);
    let d = t.name(NameableKind::Field, &p);
    assert_eq!(c, d);
}

#[test]
fn name_is_deterministic_proto() {
    let t = jtd_targets::proto::Target::new("f".to_string(), "pkg".to_string(), false);
    let p = parts(&["user", "id"]);
    assert_eq!(t.name(NameableKind::EnumMember, &p), t.name(NameableKind::EnumMember, &p));
}

#[test]
fn name_is_deterministic_zig() {
    let t = jtd_targets::zig::Target::new("f".to_string(), false);
    let p = parts(&["user", "id"]);
    assert_eq!(t.name(NameableKind::Type, &p), t.name(NameableKind::Type, &p));
}

#[test]
fn nim_keyword_field_is_escaped() {
    let t = jtd_targets::nim::Target::new("f".to_string());
    let p = parts(&["addr"]);
    let escaped = t.name(NameableKind::Field, &p);
    assert_eq!(escaped, "`addr`");
    assert_ne!(escaped, "addr");
}

#[test]
fn nim_plain_field_passes_through() {
    let t = jtd_targets::nim::Target::new("f".to_string());
    let p = parts(&["user", "id"]);
    assert_eq!(t.name(NameableKind::Field, &p), "id");
}

#[test]
fn nim_type_name_combines_fragments() {
    let t = jtd_targets::nim::Target::new("f".to_string());
    let p = parts(&["user", "id"]);
    assert_eq!(t.name(NameableKind::Type, &p), "UserId");
}

#[test]
fn zig_keyword_field_is_escaped() {
    let t = jtd_targets::zig::Target::new("f".to_string(), false);
    let p = parts(&["if"]);
    let escaped = t.name(NameableKind::Field, &p);
    assert_eq!(escaped, "@\"if\"");
    assert_ne!(escaped, "if");
}

#[test]
fn proto_keyword_passes_through_undecorated() {
    let t = jtd_targets::proto::Target::new("f".to_string(), "pkg".to_string(), false);
    let p = parts(&["message"]);
    assert_eq!(t.name(NameableKind::Field, &p), "message");
}

#[test]
fn enum_member_names_scream() {
    let t = jtd_targets::nim::Target::new("f".to_string());
    let p = parts(&["color", "light_red"]);
    assert_eq!(t.name(NameableKind::EnumMember, &p), "LIGHT_RED");
}
