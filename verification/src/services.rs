//! The decision logic of the user and post services: what record an
//! operation builds or how it changes one, independent of the database
//! that stores it. The surrounding process performs the lookups and
//! writes and hands the outcomes in as plain values.
use crate::active_enums::PostStatus;
use crate::dto::CreatePostRequest;
use crate::dto::CreateUserRequest;
use crate::dto::UpdatePostRequest;
use crate::dto::UpdateUserRequest;
use crate::errors::AppError;
use crate::validators::UuidValue;
use vstd::prelude::*;

verus! {

/// A stored user row.
#[derive(Debug, Clone)]
pub struct UserRecord {
    pub id: UuidValue,
    pub name: String,
    pub email: String,
    pub created_at: i64,
    pub updated_at: i64,
}

/// A stored post row.
#[derive(Debug, Clone)]
pub struct PostRecord {
    pub id: UuidValue,
    pub user_id: UuidValue,
    pub title: String,
    pub content: String,
    pub status: PostStatus,
    pub created_at: i64,
    pub updated_at: i64,
}

/// Decide a user creation: refused when the email is already taken,
/// otherwise the record to insert, stamped with the fresh id and the
/// current time.
pub fn create_user_decision(
    req: CreateUserRequest,
    email_taken: bool,
    id: UuidValue,
    now: i64,
) -> (r: Result<UserRecord, AppError>)
    ensures
        email_taken ==> (r matches Result::Err(AppError::ValidationError(m)) && m@
            == "Email already exists"@),
        !email_taken ==> (r matches Result::Ok(u) && u.id == id && u.name@ == req.name@
            && u.email@ == req.email@ && u.created_at == now && u.updated_at == now),
{
    if email_taken {
        return Result::Err(AppError::ValidationError("Email already exists".to_owned()));
    }
    Result::Ok(
        UserRecord {
            id,
            name: req.name,
            email: req.email,
            created_at: now,
            updated_at: now,
        },
    )
}

/// The looked-up user, or the not-found error the service answers.
pub fn require_user_found(found: Option<UserRecord>) -> (r: Result<UserRecord, AppError>)
    ensures
        found matches Option::Some(u) ==> (r matches Result::Ok(v) && v == u),
        found matches Option::None ==> (r matches Result::Err(AppError::NotFound(m))
            && m@ == "User not found"@),
{
    match found {
        Option::Some(u) => Result::Ok(u),
        Option::None => Result::Err(AppError::NotFound("User not found".to_owned())),
    }
}

/// Apply an update request to a user row: present fields replace the
/// stored ones, the update time is stamped, everything else is kept.
pub fn apply_user_update(user: UserRecord, req: UpdateUserRequest, now: i64) -> (r:
    UserRecord)
    ensures
        r.id == user.id,
        r.created_at == user.created_at,
        r.updated_at == now,
        r.name@ == match req.name {
            Option::Some(n) => n@,
            Option::None => user.name@,
        },
        r.email@ == match req.email {
            Option::Some(e) => e@,
            Option::None => user.email@,
        },
{
    let name: String = match req.name {
        Option::Some(n) => n,
        Option::None => user.name,
    };
    let email: String = match req.email {
        Option::Some(e) => e,
        Option::None => user.email,
    };
    UserRecord { id: user.id, name, email, created_at: user.created_at, updated_at: now }
}

/// The record inserted for a post creation: the fresh id, the request
/// fields, draft status, and the current time on both stamps.
pub fn create_post_decision(req: CreatePostRequest, id: UuidValue, now: i64) -> (r:
    PostRecord)
    ensures
        r.id == id,
        r.user_id == req.user_id,
        r.title@ == req.title@,
        r.content@ == req.content@,
        r.status == PostStatus::Draft,
        r.created_at == now,
        r.updated_at == now,
{
    PostRecord {
        id,
        user_id: req.user_id,
        title: req.title,
        content: req.content,
        status: PostStatus::Draft,
        created_at: now,
        updated_at: now,
    }
}

/// The looked-up post, or the not-found error the service answers.
pub fn require_post_found(found: Option<PostRecord>) -> (r: Result<PostRecord, AppError>)
    ensures
        found matches Option::Some(p) ==> (r matches Result::Ok(v) && v == p),
        found matches Option::None ==> (r matches Result::Err(AppError::NotFound(m))
            && m@ == "Post not found"@),
{
    match found {
        Option::Some(p) => Result::Ok(p),
        Option::None => Result::Err(AppError::NotFound("Post not found".to_owned())),
    }
}

/// Apply an update request to a post row: present fields replace the
/// stored ones, the update time is stamped, everything else is kept.
pub fn apply_post_update(post: PostRecord, req: UpdatePostRequest, now: i64) -> (r:
    PostRecord)
    ensures
        r.id == post.id,
        r.user_id == post.user_id,
        r.created_at == post.created_at,
        r.updated_at == now,
        r.title@ == match req.title {
            Option::Some(t) => t@,
            Option::None => post.title@,
        },
        r.content@ == match req.content {
            Option::Some(c) => c@,
            Option::None => post.content@,
        },
        r.status == match req.status {
            Option::Some(s) => s,
            Option::None => post.status,
        },
{
    let title: String = match req.title {
        Option::Some(t) => t,
        Option::None => post.title,
    };
    let content: String = match req.content {
        Option::Some(c) => c,
        Option::None => post.content,
    };
    let status: PostStatus = match req.status {
        Option::Some(s) => s,
        Option::None => post.status,
    };
    PostRecord {
        id: post.id,
        user_id: post.user_id,
        title,
        content,
        status,
        created_at: post.created_at,
        updated_at: now,
    }
}

} // verus!
