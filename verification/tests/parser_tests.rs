use hub_be::errors::GenError;
use hub_be::parser_converter::extract_type;
use hub_be::parser_converter::parse_entity_source;

fn posts_model_source() -> String {
    [
        "use sea_orm::entity::prelude::*;",
        "",
        "#[sea_orm(table_name = \"posts\")]",
        "pub struct Model {",
        "  #[sea_orm(primary_key, auto_increment = false)]",
        "  pub id: Uuid,",
        "  pub user_id: Uuid,",
        "  pub title: String,",
        "  // the body of the post",
        "  #[sea_orm(column_type = \"Text\")]",
        "  pub content: String,",
        "  pub status: PostStatus,",
        "  pub created_at: DateTimeWithTimeZone,",
        "  pub updated_at: Option<DateTimeWithTimeZone>,",
        "}",
        "",
    ]
    .join("\n")
}

#[test]
fn parse_extracts_columns_in_declaration_order() {
    let e = parse_entity_source(&posts_model_source(), "posts").unwrap();
    assert_eq!(e.table_name, "posts");
    assert_eq!(e.struct_name, "Posts");
    let names: Vec<&str> = e.columns.iter().map(|c| c.name.as_str()).collect();
    assert_eq!(
        names,
        vec!["id", "user_id", "title", "content", "status", "created_at", "updated_at"]
    );
    let types: Vec<&str> = e.columns.iter().map(|c| c.rust_type.as_str()).collect();
    assert_eq!(
        types,
        vec![
            "Uuid",
            "Uuid",
            "String",
            "String",
            "PostStatus",
            "DateTimeWithTimeZone",
            "Option"
        ]
    );
    assert_eq!(e.primary_key.name, "id");
    assert_eq!(e.primary_key.rust_type, "Uuid");
}

#[test]
fn parse_takes_table_name_from_annotation() {
    let e = parse_entity_source(&posts_model_source(), "some_file").unwrap();
    assert_eq!(e.table_name, "posts");
    assert_eq!(e.struct_name, "Posts");
}

#[test]
fn parse_falls_back_to_file_stem() {
    let src = [
        "pub struct Model {",
        "  #[sea_orm(primary_key)]",
        "  pub id: i64,",
        "}",
        "",
    ]
    .join("\n");
    let e = parse_entity_source(&src, "order_items").unwrap();
    assert_eq!(e.table_name, "order_items");
    assert_eq!(e.struct_name, "OrderItems");
}

#[test]
fn parse_without_primary_key_fails() {
    let src = [
        "#[sea_orm(table_name = \"users\")]",
        "pub struct Model {",
        "  pub id: Uuid,",
        "  pub name: String,",
        "}",
        "",
    ]
    .join("\n");
    let e = parse_entity_source(&src, "users").unwrap_err();
    match e {
        GenError::MissingPrimaryKey(m) => {
            assert_eq!(m, "No primary key found in users");
        }
        other => panic!("unexpected error: {:?}", other),
    }
}

#[test]
fn parse_without_model_struct_fails_as_missing_pk() {
    let src = "pub struct Other {\n  pub id: Uuid,\n}\n";
    let e = parse_entity_source(src, "other").unwrap_err();
    assert!(matches!(e, GenError::MissingPrimaryKey(_)));
}

#[test]
fn parse_unterminated_struct_fails() {
    let src = "pub struct Model {\n  #[sea_orm(primary_key)]\n  pub id: Uuid,\n";
    let e = parse_entity_source(src, "broken").unwrap_err();
    match e {
        GenError::ParseError(m) => {
            assert_eq!(m, "invalid model declaration in broken");
        }
        other => panic!("unexpected error: {:?}", other),
    }
}

#[test]
fn parse_malformed_field_fails() {
    let src = "pub struct Model {\n  #[sea_orm(primary_key)]\n  pub id Uuid\n}\n";
    let e = parse_entity_source(src, "bad").unwrap_err();
    assert!(matches!(e, GenError::ParseError(_)));
}

#[test]
fn parse_last_primary_key_wins() {
    let src = [
        "pub struct Model {",
        "  #[sea_orm(primary_key)]",
        "  pub id: Uuid,",
        "  #[sea_orm(primary_key)]",
        "  pub other_id: Uuid,",
        "}",
        "",
    ]
    .join("\n");
    let e = parse_entity_source(&src, "pair").unwrap();
    assert_eq!(e.primary_key.name, "other_id");
    assert_eq!(e.columns.len(), 2);
}

#[test]
fn extract_type_takes_last_segment_without_generics() {
    assert_eq!(extract_type("Option<String>"), "Option");
    assert_eq!(extract_type("Uuid"), "Uuid");
    assert_eq!(extract_type("prelude::Uuid"), "Uuid");
    assert_eq!(extract_type("Vec<Uuid>"), "Vec");
    assert_eq!(extract_type(" DateTimeWithTimeZone "), "DateTimeWithTimeZone");
}

#[test]
fn extract_type_rejects_non_paths() {
    assert_eq!(extract_type("&str"), "Unknown");
    assert_eq!(extract_type("(u8, u8)"), "Unknown");
    assert_eq!(extract_type(""), "Unknown");
}

#[test]
fn parse_full_entity_file_shape() {
    let src = [
        "use super::sea_orm_active_enums::PostStatus;",
        "use sea_orm::entity::prelude::*;",
        "use serde::{Deserialize, Serialize};",
        "",
        "#[derive(Clone, Debug, PartialEq, DeriveEntityModel, Eq, Serialize, Deserialize)]",
        "#[sea_orm(table_name = \"posts\")]",
        "pub struct Model {",
        "  #[sea_orm(primary_key, auto_increment = false)]",
        "  pub id: Uuid,",
        "  pub user_id: Uuid,",
        "  pub title: String,",
        "  #[sea_orm(column_type = \"Text\")]",
        "  pub content: String,",
        "  pub status: PostStatus,",
        "  pub created_at: DateTimeWithTimeZone,",
        "  pub updated_at: DateTimeWithTimeZone,",
        "}",
        "",
        "#[derive(Copy, Clone, Debug, EnumIter, DeriveRelation)]",
        "pub enum Relation {",
        "  Users,",
        "}",
        "",
        "impl ActiveModelBehavior for ActiveModel {}",
        "",
    ]
    .join("\n");
    let e = parse_entity_source(&src, "posts").unwrap();
    assert_eq!(e.table_name, "posts");
    assert_eq!(e.struct_name, "Posts");
    assert_eq!(e.columns.len(), 7);
    assert_eq!(e.primary_key.name, "id");
}

#[test]
fn parse_tolerates_loose_spacing() {
    let src = "pub struct Model {\n  #[sea_orm(primary_key)]\n  pub  id :  Uuid ,\n}\n";
    let e = parse_entity_source(src, "things").unwrap();
    assert_eq!(e.primary_key.name, "id");
    assert_eq!(e.primary_key.rust_type, "Uuid");
    assert_eq!(e.columns[0].name, "id");
}

#[test]
fn parse_handles_crlf_line_endings() {
    let src = "#[sea_orm(table_name = \"posts\")]\r\npub struct Model {\r\n  #[sea_orm(primary_key)]\r\n  pub id: Uuid,\r\n  pub title: String,\r\n}\r\n";
    let e = parse_entity_source(src, "posts").unwrap();
    assert_eq!(e.table_name, "posts");
    assert_eq!(e.primary_key.name, "id");
    let types: Vec<&str> = e.columns.iter().map(|c| c.rust_type.as_str()).collect();
    assert_eq!(types, vec!["Uuid", "String"]);
}
