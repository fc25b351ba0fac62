//! Admission: the synchronous shape checks a submission must pass before a
//! task is created. A rejected request never reaches the queue.

use vstd::prelude::*;
use crate::models::{CreateCommentRequest, CreatePostRequest};
use crate::text::{is_blank, spec_is_blank};

verus! {

/// Checks a post submission's shape: the title and content must not be
/// blank and a transaction reference must be present. The reference comes
/// back on success; otherwise exactly the first failing check's message.
pub fn admit_post_request(request: &CreatePostRequest) -> (r: Result<String, String>)
    ensures
        match r {
            Ok(h) => {
                &&& !spec_is_blank(request.title@)
                &&& !spec_is_blank(request.content@)
                &&& request.blockchain_transaction_hash matches Some(h0) && h == h0
            },
            Err(m) => if spec_is_blank(request.title@) {
                m@ == "The title of the post cannot be empty"@
            } else if spec_is_blank(request.content@) {
                m@ == "The content of the post cannot be empty"@
            } else {
                request.blockchain_transaction_hash is None && m@
                    == "Lack of blockchain transaction hash"@
            },
        },
{
    if is_blank(request.title.as_str()) {
        return Err("The title of the post cannot be empty".to_owned());
    }
    if is_blank(request.content.as_str()) {
        return Err("The content of the post cannot be empty".to_owned());
    }
    match &request.blockchain_transaction_hash {
        Some(h) => Ok(h.clone()),
        None => Err("Lack of blockchain transaction hash".to_owned()),
    }
}

/// Checks a comment submission's shape: the content and the post
/// identifier must not be blank and a transaction reference must be
/// present.
pub fn admit_comment_request(request: &CreateCommentRequest) -> (r: Result<String, String>)
    ensures
        match r {
            Ok(h) => {
                &&& !spec_is_blank(request.content@)
                &&& !spec_is_blank(request.post_id@)
                &&& request.blockchain_transaction_hash matches Some(h0) && h == h0
            },
            Err(m) => if spec_is_blank(request.content@) {
                m@ == "The content of the comment cannot be empty"@
            } else if spec_is_blank(request.post_id@) {
                m@ == "The post ID cannot be empty"@
            } else {
                request.blockchain_transaction_hash is None && m@
                    == "Lack of blockchain transaction hash"@
            },
        },
{
    if is_blank(request.content.as_str()) {
        return Err("The content of the comment cannot be empty".to_owned());
    }
    if is_blank(request.post_id.as_str()) {
        return Err("The post ID cannot be empty".to_owned());
    }
    match &request.blockchain_transaction_hash {
        Some(h) => Ok(h.clone()),
        None => Err("Lack of blockchain transaction hash".to_owned()),
    }
}

} // verus!
