//! The repository renderer and the module index writer.
//!
//! From extracted entity metadata the renderer produces the source of a
//! repository unit offering find-by-id, paginated find-all, create,
//! update and delete against the entity's table. The module index
//! writer produces the aggregating module file declaring every
//! generated repository and re-exporting its type.
use crate::errors::GenError;
use crate::names::pascal_of;
use crate::names::to_pascal_case;
use crate::table_structs::ColumnSpec;
use crate::table_structs::EntityInfo;
use crate::table_structs::EntitySpec;
use crate::text::push_str_chars;
use crate::text::str_to_chars;
use crate::text::string_from_chars;
use vstd::prelude::*;

verus! {

/// The column names joined with `", "`.
pub open spec fn comma_names(cols: Seq<ColumnSpec>) -> Seq<char>
    decreases cols.len(),
{
    if cols.len() == 0 {
        seq![]
    } else {
        cols[0].name + rest_names(cols.skip(1))
    }
}

/// The remaining column names, each preceded by `", "`.
pub open spec fn rest_names(cols: Seq<ColumnSpec>) -> Seq<char>
    decreases cols.len(),
{
    if cols.len() == 0 {
        seq![]
    } else {
        ", "@ + cols[0].name + rest_names(cols.skip(1))
    }
}

/// The metadata a repository can be rendered from: nonempty table,
/// type and primary-key names.
pub open spec fn valid_entity(es: EntitySpec) -> bool {
    es.table_name.len() > 0 && es.struct_name.len() > 0 && es.primary_key.name.len()
        > 0
}

/// The repository source rendered for table `t`, entity type name `e`,
/// primary-key field `k` and column listing `names`.
pub open spec fn repo_source(
    t: Seq<char>,
    e: Seq<char>,
    k: Seq<char>,
    names: Seq<char>,
) -> Seq<char> {
    "use ::hub_be_entity::entity::"@ + t
        + ";\nuse sea_orm::prelude::Uuid;\nuse sea_orm::{DbConn, DbErr, DeleteResult, EntityTrait, PaginatorTrait, QueryOrder, Set};\n\n// Columns of "@
        + t + ": "@ + names + "\npub struct "@ + e + "Repository;\n\nimpl "@ + e
        + "Repository {\n  pub async fn find_by_id(db: &DbConn, "@ + k
        + ": Uuid) -> Result<Option<"@ + t + "::Model>, DbErr> {\n    "@ + t
        + "::Entity::find_by_id("@ + k
        + ").one(db).await\n  }\n\n  pub async fn find_all(\n    db: &DbConn,\n    page: u64,\n    per_page: u64,\n  ) -> Result<(Vec<"@
        + t + "::Model>, u64), DbErr> {\n    let paginator = "@ + t
        + "::Entity::find()\n      .order_by_desc("@ + t
        + "::Column::CreatedAt)\n      .paginate(db, per_page);\n    let num_pages = paginator.num_pages().await?;\n    let items = paginator.fetch_page(page - 1).await?;\n    Ok((items, num_pages))\n  }\n\n  pub async fn create(db: &DbConn, form_data: "@
        + t + "::ActiveModel) -> Result<"@ + t
        + "::Model, DbErr> {\n    form_data.insert(db).await\n  }\n\n  pub async fn update(\n    db: &DbConn,\n    "@
        + k + ": Uuid,\n    form_data: "@ + t + "::ActiveModel,\n  ) -> Result<"@ + t
        + "::Model, DbErr> {\n    "@ + t + "::Entity::find_by_id("@ + k
        + ")\n      .one(db)\n      .await?\n      .ok_or(DbErr::RecordNotFound(\""@
        + e
        + " not found\".to_owned()))?;\n\n    let mut form_data = form_data;\n    form_data."@
        + k + " = Set("@ + k
        + ");\n\n    form_data.update(db).await\n  }\n\n  pub async fn delete(db: &DbConn, "@
        + k + ": Uuid) -> Result<DeleteResult, DbErr> {\n    "@ + t
        + "::Entity::delete_by_id("@ + k + ").exec(db).await\n  }\n}\n"@
}

/// Render the repository source for an entity.
///
/// Succeeds exactly when the metadata carries nonempty table, type and
/// primary-key names; a gap yields `TemplateError`.
pub fn render_repository(entity: &EntityInfo) -> (r: Result<String, GenError>)
    ensures
        valid_entity(entity@) ==> (r matches Result::Ok(s) && s@ == repo_source(
            entity@.table_name,
            entity@.struct_name,
            entity@.primary_key.name,
            comma_names(entity@.columns),
        )),
        !valid_entity(entity@) ==> (r matches Result::Err(GenError::TemplateError(m))
            && m@ == "missing template binding"@),
{
    if entity.table_name.as_str().unicode_len() == 0
        || entity.struct_name.as_str().unicode_len() == 0
        || entity.primary_key.name.as_str().unicode_len() == 0 {
        return Result::Err(GenError::TemplateError("missing template binding".to_owned()));
    }
    // the column listing
    let mut names: Vec<char> = Vec::new();
    let mut i: usize = 0;
    let ghost cv = entity@.columns;
    proof {
        assert(cv.skip(0) =~= cv);
        assert(names@ + comma_names(cv) =~= comma_names(cv));
    }
    while i < entity.columns.len()
        invariant
            0 <= i <= entity.columns@.len(),
            cv == entity@.columns,
            cv.len() == entity.columns@.len(),
            i == 0 ==> names@ + comma_names(cv.skip(i as int)) == comma_names(cv),
            i > 0 ==> names@ + rest_names(cv.skip(i as int)) == comma_names(cv),
        decreases entity.columns@.len() - i,
    {
        let ghost n0 = names@;
        if i > 0 {
            push_str_chars(&mut names, ", ");
        }
        let c = &entity.columns[i];
        proof {
            assert(cv[i as int] == entity.columns@[i as int]@);
        }
        push_str_chars(&mut names, c.name.as_str());
        proof {
            assert(cv.skip(i as int)[0] == cv[i as int]);
            assert(cv.skip(i as int).skip(1) =~= cv.skip(i + 1));
            if i == 0 {
                assert(comma_names(cv.skip(0)) == cv[0].name + rest_names(cv.skip(1)));
                assert(names@ =~= n0 + cv[0].name);
            } else {
                assert(rest_names(cv.skip(i as int)) == ", "@ + cv[i as int].name
                    + rest_names(cv.skip(i + 1)));
                assert(names@ =~= n0 + ", "@ + cv[i as int].name);
            }
            assert(names@ + rest_names(cv.skip(i + 1)) =~= n0 + rest_names(
                cv.skip(i as int),
            ) || i == 0);
            if i == 0 {
                assert(names@ + rest_names(cv.skip(1)) =~= n0 + comma_names(cv.skip(0)));
            }
        }
        i += 1;
    }
    proof {
        assert(cv.skip(cv.len() as int) =~= Seq::<ColumnSpec>::empty());
        if cv.len() == 0 {
            assert(names@ =~= comma_names(cv));
        } else {
            assert(rest_names(Seq::<ColumnSpec>::empty()) == Seq::<char>::empty());
            assert(names@ =~= comma_names(cv));
        }
    }
    let t = entity.table_name.as_str();
    let e = entity.struct_name.as_str();
    let k = entity.primary_key.name.as_str();
    let mut out: Vec<char> = Vec::new();
    push_str_chars(&mut out, "use ::hub_be_entity::entity::");
    push_str_chars(&mut out, t);
    push_str_chars(
        &mut out,
        ";\nuse sea_orm::prelude::Uuid;\nuse sea_orm::{DbConn, DbErr, DeleteResult, EntityTrait, PaginatorTrait, QueryOrder, Set};\n\n// Columns of ",
    );
    push_str_chars(&mut out, t);
    push_str_chars(&mut out, ": ");
    let nv = string_from_chars(&names);
    push_str_chars(&mut out, nv.as_str());
    push_str_chars(&mut out, "\npub struct ");
    push_str_chars(&mut out, e);
    push_str_chars(&mut out, "Repository;\n\nimpl ");
    push_str_chars(&mut out, e);
    push_str_chars(&mut out, "Repository {\n  pub async fn find_by_id(db: &DbConn, ");
    push_str_chars(&mut out, k);
    push_str_chars(&mut out, ": Uuid) -> Result<Option<");
    push_str_chars(&mut out, t);
    push_str_chars(&mut out, "::Model>, DbErr> {\n    ");
    push_str_chars(&mut out, t);
    push_str_chars(&mut out, "::Entity::find_by_id(");
    push_str_chars(&mut out, k);
    push_str_chars(
        &mut out,
        ").one(db).await\n  }\n\n  pub async fn find_all(\n    db: &DbConn,\n    page: u64,\n    per_page: u64,\n  ) -> Result<(Vec<",
    );
    push_str_chars(&mut out, t);
    push_str_chars(&mut out, "::Model>, u64), DbErr> {\n    let paginator = ");
    push_str_chars(&mut out, t);
    push_str_chars(&mut out, "::Entity::find()\n      .order_by_desc(");
    push_str_chars(&mut out, t);
    push_str_chars(
        &mut out,
        "::Column::CreatedAt)\n      .paginate(db, per_page);\n    let num_pages = paginator.num_pages().await?;\n    let items = paginator.fetch_page(page - 1).await?;\n    Ok((items, num_pages))\n  }\n\n  pub async fn create(db: &DbConn, form_data: ",
    );
    push_str_chars(&mut out, t);
    push_str_chars(&mut out, "::ActiveModel) -> Result<");
    push_str_chars(&mut out, t);
    push_str_chars(
        &mut out,
        "::Model, DbErr> {\n    form_data.insert(db).await\n  }\n\n  pub async fn update(\n    db: &DbConn,\n    ",
    );
    push_str_chars(&mut out, k);
    push_str_chars(&mut out, ": Uuid,\n    form_data: ");
    push_str_chars(&mut out, t);
    push_str_chars(&mut out, "::ActiveModel,\n  ) -> Result<");
    push_str_chars(&mut out, t);
    push_str_chars(&mut out, "::Model, DbErr> {\n    ");
    push_str_chars(&mut out, t);
    push_str_chars(&mut out, "::Entity::find_by_id(");
    push_str_chars(&mut out, k);
    push_str_chars(
        &mut out,
        ")\n      .one(db)\n      .await?\n      .ok_or(DbErr::RecordNotFound(\"",
    );
    push_str_chars(&mut out, e);
    push_str_chars(
        &mut out,
        " not found\".to_owned()))?;\n\n    let mut form_data = form_data;\n    form_data.",
    );
    push_str_chars(&mut out, k);
    push_str_chars(&mut out, " = Set(");
    push_str_chars(&mut out, k);
    push_str_chars(
        &mut out,
        ");\n\n    form_data.update(db).await\n  }\n\n  pub async fn delete(db: &DbConn, ",
    );
    push_str_chars(&mut out, k);
    push_str_chars(&mut out, ": Uuid) -> Result<DeleteResult, DbErr> {\n    ");
    push_str_chars(&mut out, t);
    push_str_chars(&mut out, "::Entity::delete_by_id(");
    push_str_chars(&mut out, k);
    push_str_chars(&mut out, ").exec(db).await\n  }\n}\n");
    proof {
        assert(out@ == repo_source(
            entity@.table_name,
            entity@.struct_name,
            entity@.primary_key.name,
            comma_names(entity@.columns),
        ));
    }
    Result::Ok(string_from_chars(&out))
}

/// The conventional output path of one table's repository source.
pub fn repository_file_path(table_name: &str) -> (r: String)
    ensures
        r@ == "./hub-be-repository/src/repositories/"@ + table_name@
            + "_repository.rs"@,
{
    let mut out = str_to_chars("./hub-be-repository/src/repositories/");
    push_str_chars(&mut out, table_name);
    push_str_chars(&mut out, "_repository.rs");
    string_from_chars(&out)
}

/// The conventional path of the aggregating module file.
pub fn mod_file_path() -> (r: String)
    ensures
        r@ == "./hub-be-repository/src/repositories/mod.rs"@,
{
    "./hub-be-repository/src/repositories/mod.rs".to_owned()
}

/// One `pub mod` declaration line.
pub open spec fn mod_decl(r: Seq<char>) -> Seq<char> {
    "pub mod "@ + r + "_repository;\n"@
}

/// The declaration lines of all repositories, in the given order.
pub open spec fn mod_decls(rs: Seq<Seq<char>>) -> Seq<char>
    decreases rs.len(),
{
    if rs.len() == 0 {
        seq![]
    } else {
        mod_decl(rs[0]) + mod_decls(rs.skip(1))
    }
}

/// One re-export block.
pub open spec fn reexport(r: Seq<char>) -> Seq<char> {
    "\n#[allow(unused_imports)]\npub use "@ + r + "_repository::"@ + pascal_of(r)
        + "Repository;\n"@
}

/// The re-export blocks of all repositories, in the given order.
pub open spec fn reexports(rs: Seq<Seq<char>>) -> Seq<char>
    decreases rs.len(),
{
    if rs.len() == 0 {
        seq![]
    } else {
        reexport(rs[0]) + reexports(rs.skip(1))
    }
}

/// The whole module index: a function of the repository list alone, so
/// rendering the same list twice gives identical text, and each entry
/// contributes its own declaration and re-export independently of the
/// others.
pub open spec fn mod_file_source(rs: Seq<Seq<char>>) -> Seq<char> {
    "#[allow(unused_imports)]\n// Repository module index\n\n"@ + mod_decls(rs)
        + "\n// Re-export for convenience\n"@ + reexports(rs)
}

/// Each repository contributes its own declaration line and re-export
/// block, dependent on that entry alone: over a concatenation of two
/// lists, the declarations and re-exports are the concatenations of
/// each list's own.
pub proof fn lemma_mod_file_entries(rs1: Seq<Seq<char>>, rs2: Seq<Seq<char>>)
    ensures
        mod_decls(rs1 + rs2) == mod_decls(rs1) + mod_decls(rs2),
        reexports(rs1 + rs2) == reexports(rs1) + reexports(rs2),
    decreases rs1.len(),
{
    if rs1.len() == 0 {
        assert(rs1 + rs2 =~= rs2);
        assert(mod_decls(rs1) + mod_decls(rs2) =~= mod_decls(rs2));
        assert(reexports(rs1) + reexports(rs2) =~= reexports(rs2));
    } else {
        assert((rs1 + rs2)[0] == rs1[0]);
        assert((rs1 + rs2).skip(1) =~= rs1.skip(1) + rs2);
        lemma_mod_file_entries(rs1.skip(1), rs2);
        assert(mod_decls(rs1 + rs2) =~= mod_decls(rs1) + mod_decls(rs2));
        assert(reexports(rs1 + rs2) =~= reexports(rs1) + reexports(rs2));
    }
}

/// Render the aggregating module file for the given repositories, in
/// the given order.
pub fn render_mod_file(repos: &[String]) -> (r: String)
    ensures
        r@ == mod_file_source(repos.deep_view()),
{
    let ghost rv = repos.deep_view();
    let mut out = str_to_chars("#[allow(unused_imports)]\n// Repository module index\n\n");
    let ghost header = out@;
    let mut i: usize = 0;
    proof {
        assert(rv.skip(0) =~= rv);
        assert(out@ + mod_decls(rv) =~= header + mod_decls(rv));
    }
    while i < repos.len()
        invariant
            0 <= i <= repos@.len(),
            rv == repos.deep_view(),
            rv.len() == repos@.len(),
            out@ + mod_decls(rv.skip(i as int)) == header + mod_decls(rv),
        decreases repos@.len() - i,
    {
        let ghost o0 = out@;
        push_str_chars(&mut out, "pub mod ");
        push_str_chars(&mut out, repos[i].as_str());
        push_str_chars(&mut out, "_repository;\n");
        proof {
            assert(rv[i as int] == repos@[i as int].deep_view());
            assert(rv.skip(i as int)[0] == rv[i as int]);
            assert(rv.skip(i as int).skip(1) =~= rv.skip(i + 1));
            assert(out@ =~= o0 + mod_decl(rv[i as int]));
            assert(out@ + mod_decls(rv.skip(i + 1)) =~= o0 + mod_decls(
                rv.skip(i as int),
            ));
        }
        i += 1;
    }
    proof {
        assert(rv.skip(rv.len() as int) =~= Seq::<Seq<char>>::empty());
        assert(out@ =~= header + mod_decls(rv));
    }
    push_str_chars(&mut out, "\n// Re-export for convenience\n");
    let ghost mid = out@;
    let mut j: usize = 0;
    proof {
        assert(rv.skip(0) =~= rv);
        assert(out@ + reexports(rv) =~= mid + reexports(rv));
    }
    while j < repos.len()
        invariant
            0 <= j <= repos@.len(),
            rv == repos.deep_view(),
            rv.len() == repos@.len(),
            out@ + reexports(rv.skip(j as int)) == mid + reexports(rv),
        decreases repos@.len() - j,
    {
        let ghost o0 = out@;
        push_str_chars(&mut out, "\n#[allow(unused_imports)]\npub use ");
        push_str_chars(&mut out, repos[j].as_str());
        push_str_chars(&mut out, "_repository::");
        let p = to_pascal_case(repos[j].as_str());
        push_str_chars(&mut out, p.as_str());
        push_str_chars(&mut out, "Repository;\n");
        proof {
            assert(rv[j as int] == repos@[j as int].deep_view());
            assert(rv.skip(j as int)[0] == rv[j as int]);
            assert(rv.skip(j as int).skip(1) =~= rv.skip(j + 1));
            assert(out@ =~= o0 + reexport(rv[j as int]));
            assert(out@ + reexports(rv.skip(j + 1)) =~= o0 + reexports(
                rv.skip(j as int),
            ));
        }
        j += 1;
    }
    proof {
        assert(rv.skip(rv.len() as int) =~= Seq::<Seq<char>>::empty());
        assert(out@ =~= mid + reexports(rv));
        assert(out@ == mod_file_source(rv));
    }
    string_from_chars(&out)
}

} // verus!
