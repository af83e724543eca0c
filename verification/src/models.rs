//! The rows the site stores: views, posts, messages, friendships, follows.
//! Times are seconds since the Unix epoch (UTC).
use vstd::prelude::*;

use crate::search::SearchQuery;
use crate::user::User;

verus! {

/// One of a user's public identities.
#[derive(Debug)]
pub struct View {
    pub id: i32,
    pub user_id: i32,
    pub name: String,
}

/// A post written under a view.
#[derive(Debug)]
pub struct Post {
    pub id: i32,
    pub view_id: i32,
    pub title: String,
    pub body: String,
    pub created: i64,
}

/// A message from one view to another.
#[derive(Debug)]
pub struct Message {
    pub id: i32,
    pub sender: i32,
    pub receiver: i32,
    pub body: String,
    pub created: i64,
}

/// A friend request from `sender` to `receiver`, `accepted` once answered.
#[derive(Debug)]
pub struct Friend {
    pub id: i32,
    pub sender: i32,
    pub receiver: i32,
    pub accepted: bool,
}

/// `subscriber` follows the posts of `publisher`.
#[derive(Debug)]
pub struct Follow {
    pub id: i32,
    pub subscriber: i32,
    pub publisher: i32,
}

/// The form for writing a post.
#[derive(Debug)]
pub struct PostForm {
    pub title: String,
    pub body: String,
}

/// The results of a search.
#[derive(Debug)]
pub struct Search {
    pub users: Vec<User>,
    pub posts: Vec<Post>,
    pub query: SearchQuery,
}

/// The page number, the number of items on a page and the index of the first
/// item that a listing's optional `page` and `count` give: page 0 and 50
/// items when absent.
pub fn page_window(page: Option<i64>, count: Option<i64>) -> (r: (i64, i64, i64))
    requires
        i64::MIN <= (match page {
            Some(p) => p as int,
            None => 0int,
        }) * (match count {
            Some(c) => c as int,
            None => 50int,
        }) <= i64::MAX,
    ensures
        r.0 == match page {
            Some(p) => p,
            None => 0i64,
        },
        r.1 == match count {
            Some(c) => c,
            None => 50i64,
        },
        r.2 == r.0 * r.1,
{
    let page_number: i64 = match page {
        Some(p) => p,
        None => 0,
    };
    let item_count: i64 = match count {
        Some(c) => c,
        None => 50,
    };
    let start = page_number * item_count;
    (page_number, item_count, start)
}

} // verus!
