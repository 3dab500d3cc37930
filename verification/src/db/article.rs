//! Articles.

use crate::requests::NewArticleRequest;
use vstd::prelude::*;
use vstd::std_specs::convert::FromSpecImpl;

verus! {

/// An article as the store holds it.
#[derive(Clone, Debug, PartialEq, Eq)]
pub struct Article {
    pub id: i32,
    pub author_id: i32,
    pub title: String,
    pub body: String,
    pub published: bool,
}

/// An article that is about to be stored: it has no id yet and is not
/// published.
#[derive(Clone, Debug, PartialEq, Eq)]
pub struct NewArticle {
    pub title: String,
    pub body: String,
    pub author_id: i32,
}

impl From<NewArticleRequest> for NewArticle {
    /// Takes over the title, the body and the author of the request.
    fn from(new_article_request: NewArticleRequest) -> (new_article: NewArticle) {
        NewArticle {
            title: new_article_request.title,
            body: new_article_request.body,
            author_id: new_article_request.author_id,
        }
    }
}

impl FromSpecImpl<NewArticleRequest> for NewArticle {
    open spec fn obeys_from_spec() -> bool {
        true
    }

    open spec fn from_spec(new_article_request: NewArticleRequest) -> NewArticle {
        NewArticle {
            title: new_article_request.title,
            body: new_article_request.body,
            author_id: new_article_request.author_id,
        }
    }
}

} // verus!
