use hub_be::errors::GenError;
use hub_be::generator::mod_file_path;
use hub_be::generator::render_mod_file;
use hub_be::generator::render_repository;
use hub_be::generator::repository_file_path;
use hub_be::table_structs::ColumnInfo;
use hub_be::table_structs::EntityInfo;
use hub_be::table_structs::PrimaryKeyInfo;

fn order_items_entity() -> EntityInfo {
    EntityInfo {
        table_name: "order_items".to_owned(),
        struct_name: "OrderItems".to_owned(),
        primary_key: PrimaryKeyInfo { name: "id".to_owned(), rust_type: "Uuid".to_owned() },
        columns: vec![
            ColumnInfo { name: "id".to_owned(), rust_type: "Uuid".to_owned() },
            ColumnInfo { name: "amount".to_owned(), rust_type: "i64".to_owned() },
        ],
    }
}

#[test]
fn repository_rendered_under_derived_type_name() {
    let src = render_repository(&order_items_entity()).unwrap();
    assert!(src.contains("pub struct OrderItemsRepository;"));
    assert!(src.contains("impl OrderItemsRepository {"));
    assert!(src.contains("order_items::Entity::find_by_id(id)"));
    assert!(src.contains("pub async fn find_by_id"));
    assert!(src.contains("pub async fn find_all"));
    assert!(src.contains("pub async fn create"));
    assert!(src.contains("pub async fn update"));
    assert!(src.contains("pub async fn delete"));
    assert!(src.contains("// Columns of order_items: id, amount"));
    assert!(src.contains("\"OrderItems not found\""));
}

#[test]
fn repository_path_follows_convention() {
    assert_eq!(
        repository_file_path("order_items"),
        "./hub-be-repository/src/repositories/order_items_repository.rs"
    );
    assert_eq!(mod_file_path(), "./hub-be-repository/src/repositories/mod.rs");
}

#[test]
fn repository_rendering_requires_bindings() {
    let mut e = order_items_entity();
    e.table_name = String::new();
    match render_repository(&e).unwrap_err() {
        GenError::TemplateError(m) => assert_eq!(m, "missing template binding"),
        other => panic!("unexpected error: {:?}", other),
    }
    let mut e2 = order_items_entity();
    e2.primary_key.name = String::new();
    assert!(matches!(render_repository(&e2), Err(GenError::TemplateError(_))));
}

#[test]
fn mod_file_rendering_is_deterministic() {
    let repos = vec!["users".to_owned(), "posts".to_owned()];
    let a = render_mod_file(&repos);
    let b = render_mod_file(&repos);
    assert_eq!(a, b);
}

#[test]
fn mod_file_reorder_changes_only_order() {
    let ab = render_mod_file(&["users".to_owned(), "posts".to_owned()]);
    let ba = render_mod_file(&["posts".to_owned(), "users".to_owned()]);
    assert_ne!(ab, ba);
    for out in [&ab, &ba] {
        assert!(out.contains("pub mod users_repository;\n"));
        assert!(out.contains("pub mod posts_repository;\n"));
        assert!(out.contains("pub use users_repository::UsersRepository;\n"));
        assert!(out.contains("pub use posts_repository::PostsRepository;\n"));
    }
    assert_eq!(ab.len(), ba.len());
}

#[test]
fn mod_file_holds_declarations_then_reexports() {
    let out = render_mod_file(&["users".to_owned()]);
    assert_eq!(
        out,
        "#[allow(unused_imports)]\n// Repository module index\n\npub mod users_repository;\n\n// Re-export for convenience\n\n#[allow(unused_imports)]\npub use users_repository::UsersRepository;\n"
    );
}

#[test]
fn mod_file_of_no_repositories_is_bare() {
    let none: Vec<String> = Vec::new();
    let out = render_mod_file(&none);
    assert_eq!(
        out,
        "#[allow(unused_imports)]\n// Repository module index\n\n\n// Re-export for convenience\n"
    );
}
