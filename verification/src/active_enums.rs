//! Enumerations stored as strings in the database.
use crate::text::str_eq;
use vstd::prelude::*;

verus! {

/// The publication status of a post.
#[derive(Debug, Clone, Copy, PartialEq, Eq, Structural)]
pub enum PostStatus {
    Draft,
    Published,
    Archived,
}

impl PostStatus {
    /// The string stored in the database for this status.
    pub fn to_db_value(&self) -> (r: &'static str)
        ensures
            r@ == match self {
                PostStatus::Draft => "DRAFT"@,
                PostStatus::Published => "PUBLISHED"@,
                PostStatus::Archived => "ARCHIVED"@,
            },
    {
        match self {
            PostStatus::Draft => "DRAFT",
            PostStatus::Published => "PUBLISHED",
            PostStatus::Archived => "ARCHIVED",
        }
    }

    /// The status a stored string denotes, if any.
    pub fn from_db_value(s: &str) -> (r: Option<PostStatus>)
        ensures
            s@ == "DRAFT"@ ==> r == Option::Some(PostStatus::Draft),
            s@ == "PUBLISHED"@ ==> r == Option::Some(PostStatus::Published),
            s@ == "ARCHIVED"@ ==> r == Option::Some(PostStatus::Archived),
            s@ != "DRAFT"@ && s@ != "PUBLISHED"@ && s@ != "ARCHIVED"@ ==> r
                matches Option::None,
    {
        proof {
            reveal_strlit("DRAFT");
            reveal_strlit("PUBLISHED");
            reveal_strlit("ARCHIVED");
            assert("DRAFT"@.len() == 5);
            assert("PUBLISHED"@.len() == 9);
            assert("ARCHIVED"@.len() == 8);
        }
        if str_eq(s, "DRAFT") {
            Option::Some(PostStatus::Draft)
        } else if str_eq(s, "PUBLISHED") {
            Option::Some(PostStatus::Published)
        } else if str_eq(s, "ARCHIVED") {
            Option::Some(PostStatus::Archived)
        } else {
            Option::None
        }
    }
}

} // verus!
