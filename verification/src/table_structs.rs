//! Metadata extracted from a model declaration: the table, its columns,
//! and its primary key. Built once per model source file and consumed by
//! the repository renderer.
use vstd::prelude::*;

verus! {

/// Mathematical view of a primary key: its field name and type tag.
pub struct PrimaryKeySpec {
    pub name: Seq<char>,
    pub rust_type: Seq<char>,
}

/// Mathematical view of a column: its field name and type tag.
pub struct ColumnSpec {
    pub name: Seq<char>,
    pub rust_type: Seq<char>,
}

/// Mathematical view of the extracted entity metadata.
pub struct EntitySpec {
    pub table_name: Seq<char>,
    pub struct_name: Seq<char>,
    pub primary_key: PrimaryKeySpec,
    pub columns: Seq<ColumnSpec>,
}

/// The field identified as the primary key of a model.
#[derive(Debug)]
pub struct PrimaryKeyInfo {
    pub name: String,
    pub rust_type: String,
}

impl View for PrimaryKeyInfo {
    type V = PrimaryKeySpec;

    open spec fn view(&self) -> PrimaryKeySpec {
        PrimaryKeySpec { name: self.name@, rust_type: self.rust_type@ }
    }
}

/// One declared field of a model, in declaration order.
#[derive(Debug)]
pub struct ColumnInfo {
    pub name: String,
    pub rust_type: String,
}

impl View for ColumnInfo {
    type V = ColumnSpec;

    open spec fn view(&self) -> ColumnSpec {
        ColumnSpec { name: self.name@, rust_type: self.rust_type@ }
    }
}

/// Everything extracted from one model source file.
#[derive(Debug)]
pub struct EntityInfo {
    pub table_name: String,
    pub struct_name: String,
    pub primary_key: PrimaryKeyInfo,
    pub columns: Vec<ColumnInfo>,
}

impl View for EntityInfo {
    type V = EntitySpec;

    open spec fn view(&self) -> EntitySpec {
        EntitySpec {
            table_name: self.table_name@,
            struct_name: self.struct_name@,
            primary_key: self.primary_key@,
            columns: self.columns@.map_values(|c: ColumnInfo| c@),
        }
    }
}

} // verus!
