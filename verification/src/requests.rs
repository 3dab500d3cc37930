//! What clients send to create things.

use vstd::prelude::*;

verus! {

/// A request to put a question into a bucket.
#[derive(Clone, Debug, PartialEq, Eq)]
pub struct NewQuestionRequest {
    pub bucket_id: i32,
    pub author_id: i32,
    pub question_text: String,
}

/// A request to create an article.
#[derive(Clone, Debug, PartialEq, Eq)]
pub struct NewArticleRequest {
    pub title: String,
    pub body: String,
    pub author_id: i32,
}

} // verus!
