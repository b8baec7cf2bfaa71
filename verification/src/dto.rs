//! Request payloads accepted by the API handlers.
use crate::active_enums::PostStatus;
use crate::validators::UuidValue;
use vstd::prelude::*;

verus! {

/// Payload for creating a user.
#[derive(Debug, Clone)]
pub struct CreateUserRequest {
    pub name: String,
    pub email: String,
}

/// Payload for updating a user: absent fields stay unchanged.
#[derive(Debug, Clone)]
pub struct UpdateUserRequest {
    pub name: Option<String>,
    pub email: Option<String>,
}

/// Payload for creating a post.
#[derive(Debug, Clone)]
pub struct CreatePostRequest {
    pub user_id: UuidValue,
    pub title: String,
    pub content: String,
}

/// Payload for updating a post: absent fields stay unchanged.
#[derive(Debug, Clone)]
pub struct UpdatePostRequest {
    pub title: Option<String>,
    pub content: Option<String>,
    pub status: Option<PostStatus>,
}

} // verus!
