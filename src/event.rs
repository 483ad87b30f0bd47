use vstd::prelude::*;

use crate::app::{PostsFetchError, PostsFetchResult};
use crate::hn::{Comment, Item};

verus! {

/// What the application's tasks report back to its event loop.
pub enum AppEvent {
    Refresh,
    RefreshComplete(Result<Vec<Item>, String>),
    Quit,
    OpenPost(String),
    PostsFetched { request_id: u64, result: Result<PostsFetchResult, PostsFetchError> },
    LoadCommentsComplete { post_id: u64, result: Result<Vec<Comment>, String> },
}

} // verus!
