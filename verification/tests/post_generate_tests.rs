use hub_be::post_generate::add_schema_alias;
use hub_be::post_generate::add_serde_skip_attributes;
use hub_be::post_generate::default_skip_fields;
use hub_be::post_generate::process_entity_source;

fn model_file_text() -> String {
    [
        "use sea_orm::entity::prelude::*;",
        "",
        "#[sea_orm(table_name = \"order_items\")]",
        "pub struct Model {",
        "  #[sea_orm(primary_key)]",
        "  pub id: Uuid,",
        "  pub name: String,",
        "  pub deleted_at: Option<String>,",
        "  pub updated_at: Option<String>,",
        "}",
        "",
    ]
    .join("\n")
}

#[test]
fn skip_attribute_inserted_above_deleted_at() {
    let fields = vec!["deleted_at"];
    let out = add_serde_skip_attributes(
        "pub struct S {\n  pub deleted_at: Option<String>,\n}\n",
        &fields,
    );
    assert_eq!(
        out,
        "pub struct S {\n  #[serde(skip_serializing_if = \"Option::is_none\")]\n  pub deleted_at: Option<String>,\n}\n"
    );
}

#[test]
fn skip_attribute_inserted_exactly_once() {
    let fields = vec!["deleted_at", "updated_at"];
    let input = "  pub deleted_at: Option<String>,\n";
    let once = add_serde_skip_attributes(input, &fields);
    let count = once.matches("skip_serializing_if").count();
    assert_eq!(count, 1);
    assert_eq!(
        once,
        "  #[serde(skip_serializing_if = \"Option::is_none\")]\n  pub deleted_at: Option<String>,\n"
    );
}

#[test]
fn skip_attribute_not_duplicated_when_present() {
    let fields = vec!["deleted_at"];
    let input =
        "  #[serde(skip_serializing_if = \"Option::is_none\")]\n  pub deleted_at: Option<String>,\n";
    let out = add_serde_skip_attributes(input, &fields);
    assert_eq!(out, input);
}

#[test]
fn schema_alias_inserted_between_table_and_struct() {
    let input = "#[sea_orm(table_name = \"order_items\")]\npub struct Model {\n}\n";
    let out = add_schema_alias(input, "order_items");
    assert_eq!(
        out,
        "#[sea_orm(table_name = \"order_items\")]\n#[schema(as = OrderItems)]\npub struct Model {\n}\n"
    );
}

#[test]
fn schema_alias_keeps_indentation() {
    let input = "  #[sea_orm(table_name = \"posts\")]\n  pub struct Model {\n  }\n";
    let out = add_schema_alias(input, "posts");
    assert_eq!(
        out,
        "  #[sea_orm(table_name = \"posts\")]\n  #[schema(as = Posts)]\n  pub struct Model {\n  }\n"
    );
}

#[test]
fn schema_alias_respects_existing_annotation() {
    let input =
        "#[sea_orm(table_name = \"posts\")]\n#[schema(as = Posts)]\npub struct Model {\n}\n";
    let out = add_schema_alias(input, "posts");
    assert_eq!(out, input);
}

#[test]
fn schema_alias_without_match_is_identity() {
    let input = "pub struct Other {\n}\n";
    assert_eq!(add_schema_alias(input, "other"), input);
}

#[test]
fn post_process_inserts_both_annotations() {
    let fields = default_skip_fields();
    let out = process_entity_source(&model_file_text(), "order_items", &fields);
    assert!(out.contains("#[schema(as = OrderItems)]"));
    assert_eq!(out.matches("skip_serializing_if").count(), 2);
    let lines: Vec<&str> = out.lines().collect();
    let di = lines
        .iter()
        .position(|l| l.trim_start().starts_with("pub deleted_at"))
        .unwrap();
    assert_eq!(
        lines[di - 1].trim_start(),
        "#[serde(skip_serializing_if = \"Option::is_none\")]"
    );
}

#[test]
fn post_process_twice_is_no_op() {
    let fields = default_skip_fields();
    let once = process_entity_source(&model_file_text(), "order_items", &fields);
    let twice = process_entity_source(&once, "order_items", &fields);
    assert_eq!(twice, once);
}

#[test]
fn post_process_twice_is_no_op_without_alias_match() {
    let fields = default_skip_fields();
    let input = "pub struct S {\n  pub deleted_at: Option<String>,\n}\n";
    let once = process_entity_source(input, "s", &fields);
    let twice = process_entity_source(&once, "s", &fields);
    assert_eq!(twice, once);
}

#[test]
fn schema_alias_keeps_missing_final_newline() {
    let input = "#[sea_orm(table_name = \"posts\")]\npub struct Model";
    let out = add_schema_alias(input, "posts");
    assert_eq!(
        out,
        "#[sea_orm(table_name = \"posts\")]\n#[schema(as = Posts)]\npub struct Model"
    );
}

#[test]
fn schema_alias_skips_blank_lines_between_pair() {
    let input = "#[sea_orm(table_name = \"posts\")]\n\n  \npub struct Model {\n}\n";
    let out = add_schema_alias(input, "posts");
    assert_eq!(
        out,
        "#[sea_orm(table_name = \"posts\")]\n\n  \n#[schema(as = Posts)]\npub struct Model {\n}\n"
    );
}

#[test]
fn schema_alias_fires_on_crlf_lines() {
    let input = "#[sea_orm(table_name = \"posts\")]\r\npub struct Model {\r\n}\r\n";
    let out = add_schema_alias(input, "posts");
    assert!(out.contains("#[schema(as = Posts)]"));
}
