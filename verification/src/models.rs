//! Request and entity types of the forum, with timestamps carried as Unix
//! seconds and counters as plain integers so that every field is visible to
//! the verifier.

use vstd::prelude::*;

verus! {

/// Payload of a post-creation submission.
#[derive(Debug)]
pub struct CreatePostRequest {
    pub title: String,
    pub content: String,
    pub author_address: String,
    pub author_name: Option<String>,
    pub tags: Vec<String>,
    pub image: Option<String>,
    pub blockchain_transaction_hash: Option<String>,
    pub blockchain_transaction_proof: Option<String>,
    pub blockchain_post_id: Option<u32>,
}

/// Payload of a comment-creation submission.
#[derive(Debug)]
pub struct CreateCommentRequest {
    pub post_id: String,
    pub content: String,
    pub author_address: String,
    pub author_name: Option<String>,
    pub parent_id: Option<String>,
    pub image: Option<String>,
    pub blockchain_transaction_hash: Option<String>,
}

/// A stored post. `created_at` and `updated_at` are Unix seconds.
#[derive(Debug)]
pub struct Post {
    pub id: String,
    pub title: String,
    pub content: String,
    pub author_address: String,
    pub author_id: Option<String>,
    pub author_name: Option<String>,
    pub author_avatar: Option<String>,
    pub created_at: u64,
    pub updated_at: u64,
    pub likes: u32,
    pub comments_count: u32,
    pub tags: Vec<String>,
    pub irys_transaction_id: Option<String>,
    pub image: Option<String>,
    pub blockchain_post_id: Option<u32>,
    pub is_liked_by_user: bool,
    pub views: u32,
}

/// A stored comment. `created_at` is Unix seconds; `content_hash` is the
/// lower-case hex digest of the content body.
#[derive(Debug)]
pub struct Comment {
    pub id: String,
    pub post_id: String,
    pub content: String,
    pub author_address: String,
    pub author_id: Option<String>,
    pub author_name: Option<String>,
    pub author_avatar: Option<String>,
    pub created_at: u64,
    pub parent_id: Option<String>,
    pub likes: u32,
    pub irys_transaction_id: Option<String>,
    pub image: Option<String>,
    pub content_hash: String,
    pub is_liked_by_user: bool,
}

/// Sitewide counters.
#[derive(Debug)]
pub struct GlobalStats {
    pub total_users: u32,
    pub total_posts: u32,
    pub total_comments: u32,
    pub total_likes: u32,
}

/// Body of a like request.
#[derive(Debug)]
pub struct LikeRequest {
    pub user_address: String,
}

/// Body of a username-registration request.
#[derive(Debug)]
pub struct RegisterUsernameRequest {
    pub username: String,
    pub user_address: String,
}

/// Body of a username-availability request.
#[derive(Debug)]
pub struct CheckUsernameRequest {
    pub username: String,
}

/// Body of a username-synchronisation request.
#[derive(Debug)]
pub struct SyncUsernameRequest {
    pub user_address: String,
}

/// Answer to a username-availability request.
#[derive(Debug)]
pub struct UsernameCheckResponse {
    pub available: bool,
    pub message: String,
}

/// Body of an avatar upload.
#[derive(Debug)]
pub struct AvatarUploadData {
    pub user_address: String,
}

/// Body of a biography update.
#[derive(Debug)]
pub struct BioUpdateRequest {
    pub user_address: String,
    pub bio: String,
}

/// Body of a follow/unfollow request.
#[derive(Debug)]
pub struct FollowRequest {
    pub follower_id: Option<String>,
    pub following_id: Option<String>,
    pub follower_address: Option<String>,
    pub following_address: Option<String>,
}

/// Answer to a follow/unfollow request.
#[derive(Debug)]
pub struct FollowResponse {
    pub success: bool,
    pub is_following: bool,
    pub following_count: u32,
    pub followers_count: u32,
}

/// Body of an upload to the content-storage gateway.
#[derive(Debug)]
pub struct IrysUploadRequest {
    pub data: String,
    pub tags: Vec<String>,
    pub address: String,
}

/// Body of a query against the content-storage gateway.
#[derive(Debug)]
pub struct IrysQueryRequest {
    pub address: Option<String>,
    pub tags: Option<Vec<String>>,
    pub limit: Option<u32>,
}

/// Uniform envelope for boundary answers: exactly one of `data` and `error`
/// is set, and `success` says which.
#[derive(Debug)]
pub struct ApiResponse<T> {
    pub success: bool,
    pub data: Option<T>,
    pub message: Option<String>,
    pub error: Option<String>,
}

impl<T> ApiResponse<T> {
    /// A successful envelope around `data`.
    pub fn success(data: T) -> (r: Self)
        ensures
            r.success,
            r.data == Some(data),
            r.message is None,
            r.error is None,
    {
        Self { success: true, data: Some(data), message: None, error: None }
    }

    /// A failed envelope carrying `message` as its error text.
    pub fn error(message: String) -> (r: Self)
        ensures
            !r.success,
            r.data is None,
            r.message is None,
            r.error == Some(message),
    {
        Self { success: false, data: None, message: None, error: Some(message) }
    }
}

/// Clones an optional string; the copy has the very same value.
pub fn clone_opt_string(s: &Option<String>) -> (r: Option<String>)
    ensures
        r == *s,
{
    match s {
        Some(v) => Some(v.clone()),
        None => None,
    }
}

} // verus!
