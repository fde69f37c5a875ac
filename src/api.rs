use vstd::prelude::*;

verus! {

/// The identifier of a post, comment or user.
pub type Id = u32;

/// An address.
pub type Uri = String;

/// A point in time, in seconds since the Unix epoch.
pub type Date = i64;

/// The author of a post or comment.
#[derive(Debug, Clone)]
pub struct User {
    pub display_name: String,
    pub link: Option<Uri>,
    pub reputation: Option<u32>,
    pub user_id: Option<Id>,
}

/// A comment on a question or an answer; its body is Markdown.
#[derive(Debug, Clone)]
pub struct Comment {
    pub body_markdown: Option<String>,
    pub comment_id: Id,
    pub creation_date: Date,
    pub owner: User,
    pub post_id: Id,
    pub score: i32,
}

/// An answer to a question; its body is Markdown.
#[derive(Debug, Clone)]
pub struct Answer {
    pub answer_id: Id,
    pub body_markdown: String,
    pub comment_count: u32,
    pub comments: Option<Vec<Comment>>,
    pub creation_date: Date,
    pub is_accepted: bool,
    pub last_activity_date: Date,
    pub owner: User,
    pub score: i32,
}

/// A question with its answers and comments; its body is Markdown.
#[derive(Debug, Clone)]
pub struct Question {
    pub answer_count: u32,
    pub answers: Option<Vec<Answer>>,
    pub body_markdown: String,
    pub comment_count: u32,
    pub comments: Option<Vec<Comment>>,
    pub creation_date: Date,
    pub is_answered: bool,
    pub last_activity_date: Date,
    pub owner: User,
    pub question_id: Id,
    pub score: i32,
    pub title: String,
    pub view_count: u32,
}

} // verus!
